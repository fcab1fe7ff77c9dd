//! Collection of batch results: workers convert items in any order and tag
//! each result with its input index; this module reassembles the tagged
//! results into input order and applies the batch failure policy — the
//! whole batch fails on the first (lowest-index) per-item failure, so no
//! partial output is ever returned.

use vstd::prelude::*;
use vstd::pervasive::VecAdditionalExecFns;

use crate::error::PdfError;

verus! {

broadcast use vstd::seq_lib::group_to_multiset_ensures;

/// One worker's result: the input index it belongs to, and the converted
/// bytes or the item's failure.
pub type Tagged = (usize, Result<Vec<u8>, PdfError>);

/// Some result carries input index `i`.
pub open spec fn has_tag(t: Seq<Tagged>, i: int) -> bool {
    exists|j: int| 0 <= j < t.len() && (#[trigger] t[j]).0 == i
}

/// The tags are exactly the positions of an `n`-item batch: one result per
/// input index — every tag in range, no index twice, every index present.
pub open spec fn valid_tagging(t: Seq<Tagged>, n: int) -> bool {
    &&& t.len() == n
    &&& forall|j: int| 0 <= j < t.len() ==> (#[trigger] t[j]).0 < n
    &&& forall|j1: int, j2: int|
        0 <= j1 < j2 < t.len() ==> (#[trigger] t[j1]).0 != (#[trigger] t[j2]).0
    &&& forall|i: int| 0 <= i < n ==> #[trigger] has_tag(t, i)
}

/// Position in the tagged sequence of the result for input index `i`.
pub open spec fn tag_index(t: Seq<Tagged>, i: int) -> int {
    choose|j: int| 0 <= j < t.len() && (#[trigger] t[j]).0 == i
}

/// The result tagged with input index `i`.
pub open spec fn entry_at(t: Seq<Tagged>, i: int) -> Result<Vec<u8>, PdfError> {
    t[tag_index(t, i)].1
}

/// Smallest input index in `[i, n)` whose result is a failure, or `n` when
/// every result from `i` on succeeded.
pub open spec fn first_err_from(t: Seq<Tagged>, i: int, n: int) -> int
    decreases n - i,
{
    if i < 0 || i >= n {
        n
    } else if entry_at(t, i) is Err {
        i
    } else {
        first_err_from(t, i + 1, n)
    }
}

/// The batch outcome for tagged results `t` of an `n`-item batch: the
/// outputs in input order when every item succeeded, else the failure of
/// the smallest failing input index.
pub open spec fn spec_assemble(t: Seq<Tagged>, n: int) -> Result<Seq<Vec<u8>>, PdfError> {
    let f = first_err_from(t, 0, n);
    if f == n {
        Ok(Seq::new(n as nat, |i: int| entry_at(t, i)->Ok_0))
    } else {
        Err(entry_at(t, f)->Err_0)
    }
}

proof fn lemma_first_err_from_skip(t: Seq<Tagged>, a: int, i: int, n: int)
    requires
        0 <= a <= i <= n,
        forall|q: int| a <= q < i ==> !(entry_at(t, q) is Err),
    ensures
        first_err_from(t, a, n) == first_err_from(t, i, n),
    decreases i - a,
{
    if a < i {
        lemma_first_err_from_skip(t, a + 1, i, n);
    }
}

/// Reassemble index-tagged worker results into input order. Returns the
/// outputs aligned index-for-index with the requests when every item
/// succeeded; otherwise the whole batch fails with the failure of the
/// smallest failing input index, and results of items that succeeded are
/// discarded.
pub fn assemble_batch(n: usize, tagged: Vec<Tagged>) -> (r: Result<Vec<Vec<u8>>, PdfError>)
    requires
        valid_tagging(tagged@, n as int),
    ensures
        ({
            let sa = spec_assemble(tagged@, n as int);
            match r {
                Ok(out) => sa matches Ok(s) && out@ == s,
                Err(e) => sa matches Err(e2) && e == e2,
            }
        }),
{
    let ghost torig = tagged@;
    let mut tagged = tagged;

    // Slots for the results, one per input index. Every slot is written
    // exactly once below, so the placeholders are never read.
    let mut slots: Vec<Result<Vec<u8>, PdfError>> = Vec::new();
    let mut q: usize = 0;
    while q < n
        invariant
            q <= n,
            slots@.len() == q,
        decreases n - q,
    {
        slots.push(Err(PdfError::EmptyHtml));
        q = q + 1;
    }

    // Place each tagged result at its input index.
    while tagged.len() > 0
        invariant
            valid_tagging(torig, n as int),
            slots@.len() == n,
            tagged@.len() <= torig.len(),
            tagged@ == torig.take(tagged@.len() as int),
            forall|j: int|
                tagged@.len() <= j < torig.len() ==> slots@[(#[trigger] torig[j]).0 as int]
                    == torig[j].1,
        decreases tagged@.len(),
    {
        let ghost rem = tagged@.len() as int;
        proof {
            assert(tagged@[rem - 1] == torig[rem - 1]);
        }
        let (idx, res) = tagged.pop().unwrap();
        proof {
            assert((idx, res) == torig[rem - 1]);
            assert(torig[rem - 1].0 < n);
        }
        slots.set(idx, res);
        proof {
            assert(tagged@ =~= torig.take(tagged@.len() as int));
            assert forall|j: int|
                tagged@.len() <= j < torig.len() implies slots@[(#[trigger] torig[j]).0 as int]
                == torig[j].1 by {
                if j != rem - 1 {
                    assert(torig[j].0 != torig[rem - 1].0);
                }
            }
        }
    }

    // Every slot now holds exactly the result tagged with its index.
    proof {
        assert forall|i: int| 0 <= i < n implies slots@[i] == entry_at(torig, i) by {
            assert(has_tag(torig, i));
            let j = tag_index(torig, i);
            assert(0 <= j < torig.len() && torig[j].0 == i);
            assert(slots@[(torig[j]).0 as int] == torig[j].1);
        }
    }

    // Read the slots back in input order; fail on the first failure.
    let ghost slots0 = slots@;
    let mut out: Vec<Vec<u8>> = Vec::new();
    let mut i: usize = 0;
    #[verifier::loop_isolation(false)]
    while i < n
        invariant
            valid_tagging(torig, n as int),
            slots0.len() == n,
            forall|q: int| 0 <= q < n ==> slots0[q] == entry_at(torig, q),
            i <= n,
            slots@ == slots0.skip(i as int),
            out@.len() == i,
            forall|q: int|
                0 <= q < i ==> (#[trigger] entry_at(torig, q)) is Ok && out@[q] == entry_at(
                    torig,
                    q,
                )->Ok_0,
        decreases n - i,
    {
        proof {
            assert(slots@[0] == slots0[i as int]);
        }
        let slot = slots.remove(0);
        let ghost gslot = slot;
        proof {
            assert(slots@ =~= slots0.skip(i as int + 1));
            assert(gslot == slots0[i as int]);
            assert(gslot == entry_at(torig, i as int));
        }
        match slot {
            Ok(bytes) => {
                proof {
                    assert(gslot matches Ok(b) && b == bytes);
                    assert(entry_at(torig, i as int) is Ok);
                    assert(bytes == entry_at(torig, i as int)->Ok_0);
                }
                out.push(bytes);
            },
            Err(e) => {
                proof {
                    assert(gslot matches Err(e0) && e0 == e);
                    assert(entry_at(torig, i as int) is Err);
                    assert(e == entry_at(torig, i as int)->Err_0);
                    lemma_first_err_from_skip(torig, 0, i as int, n as int);
                    assert(first_err_from(torig, 0, n as int) == i);
                    assert(spec_assemble(torig, n as int) == Err::<Seq<Vec<u8>>, PdfError>(e));
                }
                return Err(e);
            },
        }
        i = i + 1;
    }
    proof {
        lemma_first_err_from_skip(torig, 0, n as int, n as int);
        assert(out@ =~= Seq::new(n as nat, |q: int| entry_at(torig, q)->Ok_0));
    }
    Ok(out)
}

/// The batch outcome is a function of which result carries which input
/// index alone: two taggings of the same batch that hold the same results
/// — however the workers' completion order interleaved them — assemble
/// to the same outcome.
pub proof fn lemma_batch_order_independent(t1: Seq<Tagged>, t2: Seq<Tagged>, n: int)
    requires
        valid_tagging(t1, n),
        valid_tagging(t2, n),
        t1.to_multiset() == t2.to_multiset(),
    ensures
        spec_assemble(t1, n) == spec_assemble(t2, n),
{
    assert forall|i: int| 0 <= i < n implies entry_at(t1, i) == entry_at(t2, i) by {
        assert(has_tag(t1, i));
        let j1 = tag_index(t1, i);
        assert(0 <= j1 < t1.len() && t1[j1].0 == i);
        assert(t1.contains(t1[j1]));
        assert(t1.to_multiset().count(t1[j1]) > 0);
        assert(t2.contains(t1[j1]));
        let j2 = choose|j: int| 0 <= j < t2.len() && t2[j] == t1[j1];
        assert(has_tag(t2, i));
        let jt = tag_index(t2, i);
        assert(0 <= jt < t2.len() && t2[jt].0 == i);
        assert(t2[j2].0 == i);
        if j2 != jt {
            assert(t2[j2].0 != t2[jt].0);
        }
        assert(entry_at(t2, i) == t2[j2].1);
    }
    lemma_first_err_pointwise(t1, t2, 0, n);
    let f = first_err_from(t1, 0, n);
    if f == n {
        assert(Seq::new(n as nat, |i: int| entry_at(t1, i)->Ok_0) =~= Seq::new(
            n as nat,
            |i: int| entry_at(t2, i)->Ok_0,
        ));
    } else {
        lemma_first_err_range(t1, 0, n);
        assert(0 <= f < n);
        assert(entry_at(t1, f) == entry_at(t2, f));
    }
}

proof fn lemma_first_err_pointwise(t1: Seq<Tagged>, t2: Seq<Tagged>, i: int, n: int)
    requires
        0 <= i <= n,
        forall|q: int| i <= q < n ==> entry_at(t1, q) == entry_at(t2, q),
    ensures
        first_err_from(t1, i, n) == first_err_from(t2, i, n),
    decreases n - i,
{
    if i < n {
        lemma_first_err_pointwise(t1, t2, i + 1, n);
    }
}

/// The batch failure policy, both ways: the batch succeeds exactly when
/// every item succeeded, so one failing item — whatever its position —
/// fails the whole call, and no partial results are delivered.
pub proof fn lemma_batch_ok_iff(t: Seq<Tagged>, n: int)
    requires
        valid_tagging(t, n),
    ensures
        spec_assemble(t, n) is Ok <==> (forall|j: int| 0 <= j < t.len() ==> (#[trigger] t[j]).1 is Ok),
{
    let f = first_err_from(t, 0, n);
    lemma_first_err_range(t, 0, n);
    if f == n {
        assert forall|j: int| 0 <= j < t.len() implies (#[trigger] t[j]).1 is Ok by {
            let i = t[j].0 as int;
            assert(has_tag(t, i));
            let jt = tag_index(t, i);
            assert(0 <= jt < t.len() && t[jt].0 == i);
            if jt != j {
                assert(t[jt].0 != t[j].0);
            }
            assert(entry_at(t, i) == t[j].1);
            assert(!(entry_at(t, i) is Err));
        }
    } else {
        assert(has_tag(t, f));
        let jt = tag_index(t, f);
        assert(0 <= jt < t.len() && t[jt].0 == f);
        assert(t[jt].1 is Err);
    }
}

proof fn lemma_first_err_range(t: Seq<Tagged>, i: int, n: int)
    requires
        0 <= i <= n,
    ensures
        i <= first_err_from(t, i, n) <= n,
        forall|q: int| i <= q < first_err_from(t, i, n) ==> !((#[trigger] entry_at(t, q)) is Err),
        first_err_from(t, i, n) < n ==> entry_at(t, first_err_from(t, i, n)) is Err,
    decreases n - i,
{
    if i < n && !(entry_at(t, i) is Err) {
        lemma_first_err_range(t, i + 1, n);
    }
}

} // verus!
