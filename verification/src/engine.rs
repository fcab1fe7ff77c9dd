//! Lifecycle bookkeeping for the single browser-engine process and its pool
//! of reusable execution contexts ("tabs").
//!
//! The engine process itself is an external collaborator: the surrounding
//! application launches it, creates tabs in it, and reports every outcome
//! back to this state machine, which decides what to do next. Sessions are
//! told apart by generation numbers, and tabs carry the generation of the
//! session they belong to, so a stale tab can never re-enter the pool.

use vstd::prelude::*;

verus! {

/// Handle to one execution context: the generation of the session that
/// created it, and an id unique among the tabs of this engine.
#[derive(Clone, Copy, Debug, PartialEq, Eq, Structural)]
pub struct TabHandle {
    /// Generation of the owning session.
    pub session: u64,
    /// Tab id, unique across all sessions of this engine.
    pub id: u64,
}

/// What the caller of [`Engine::get_pooled_tab`] must do next.
#[derive(Clone, Copy, Debug, PartialEq, Eq, Structural)]
pub enum AcquireStep {
    /// An idle tab was taken from the pool: use it.
    Reuse(TabHandle),
    /// No idle tab, but a session is active: create a tab in it and report
    /// the outcome with [`Engine::note_tab_created`] or
    /// [`Engine::note_tab_failed`].
    NeedTab(u64),
    /// No session is active: start the engine process and report with
    /// [`Engine::note_session_started`].
    NeedSession,
}

/// Mathematical state of an [`Engine`].
#[verifier::ext_equal]
pub struct EngineModel {
    /// Generation of the current session, if one is active.
    pub session: Option<u64>,
    /// Idle tabs, last in first out.
    pub pool: Seq<TabHandle>,
    /// Next session generation to assign; also the number of sessions
    /// started so far.
    pub next_session: u64,
    /// Next tab id to assign; also the number of tabs created so far.
    pub next_tab: u64,
}

impl EngineModel {
    /// The state of a fresh engine: nothing started, nothing pooled.
    pub open spec fn init() -> EngineModel {
        EngineModel { session: None, pool: Seq::empty(), next_session: 0, next_tab: 0 }
    }

    /// Well-formedness: every pooled tab belongs to the current session
    /// (so an engine without a session pools nothing), and an active
    /// generation was assigned earlier than the next one.
    pub open spec fn wf(self) -> bool {
        (forall|q: int| 0 <= q < self.pool.len() ==> self.session == Some(#[trigger] self.pool[q].session))
            && (match self.session {
            Some(s) => s < self.next_session,
            None => true,
        })
    }

    /// Room to assign fresh generation and tab ids.
    pub open spec fn ids_available(self) -> bool {
        self.next_session < u64::MAX && self.next_tab < u64::MAX
    }
}

/// Acquisition step: pop an idle tab if there is one; otherwise direct the
/// caller to the current session, or to starting one.
pub open spec fn spec_acquire(m: EngineModel) -> (EngineModel, AcquireStep) {
    if m.pool.len() > 0 {
        (
            EngineModel { pool: m.pool.drop_last(), ..m },
            AcquireStep::Reuse(m.pool.last()),
        )
    } else {
        match m.session {
            Some(s) => (m, AcquireStep::NeedTab(s)),
            None => (m, AcquireStep::NeedSession),
        }
    }
}

/// A session start was reported: if none is active, install a fresh
/// generation; if one is already active, keep it and hand it back.
pub open spec fn spec_session_started(m: EngineModel) -> (EngineModel, u64) {
    match m.session {
        Some(s) => (m, s),
        None => (
            EngineModel {
                session: Some(m.next_session),
                next_session: (m.next_session + 1) as u64,
                ..m
            },
            m.next_session,
        ),
    }
}

/// A tab was created in session `s`: assign it a fresh id.
pub open spec fn spec_tab_created(m: EngineModel, s: u64) -> (EngineModel, TabHandle) {
    (
        EngineModel { next_tab: (m.next_tab + 1) as u64, ..m },
        TabHandle { session: s, id: m.next_tab },
    )
}

/// Tab creation against session `s` failed: if `s` is still the current
/// generation, clear the session and purge the pool (its tabs belong to
/// the dead session); if another thread already replaced the session,
/// leave the state alone.
pub open spec fn spec_tab_failed(m: EngineModel, s: u64) -> EngineModel {
    if m.session == Some(s) {
        EngineModel { session: None, pool: Seq::empty(), ..m }
    } else {
        m
    }
}

/// A tab comes back after a fully successful conversion: pool it, unless
/// its session has been replaced meanwhile, in which case it is dropped.
pub open spec fn spec_recycle(m: EngineModel, t: TabHandle) -> EngineModel {
    if m.session == Some(t.session) {
        EngineModel { pool: m.pool.push(t), ..m }
    } else {
        m
    }
}

/// Bookkeeping for the single engine process and the pool of idle tabs.
/// All mutating operations are total; the surrounding application holds a
/// lock around each call and performs the blocking engine work between
/// calls.
#[derive(Debug)]
pub struct Engine {
    session: Option<u64>,
    pool: Vec<TabHandle>,
    next_session: u64,
    next_tab: u64,
}

impl View for Engine {
    type V = EngineModel;

    closed spec fn view(&self) -> EngineModel {
        EngineModel {
            session: self.session,
            pool: self.pool@,
            next_session: self.next_session,
            next_tab: self.next_tab,
        }
    }
}

impl Engine {
    /// A fresh engine: no session, empty pool.
    pub fn new() -> (e: Engine)
        ensures
            e@ == EngineModel::init(),
    {
        let e = Engine { session: None, pool: Vec::new(), next_session: 0, next_tab: 0 };
        proof {
            assert(e@ =~= EngineModel::init());
        }
        e
    }

    /// Take an idle tab if the pool has one; otherwise say what the caller
    /// must do to get a tab.
    pub fn get_pooled_tab(&mut self) -> (step: AcquireStep)
        ensures
            (final(self)@, step) == spec_acquire(old(self)@),
    {
        if self.pool.len() > 0 {
            let t = self.pool.pop().unwrap();
            proof {
                assert(self@ =~= spec_acquire(old(self)@).0);
            }
            AcquireStep::Reuse(t)
        } else {
            match self.session {
                Some(s) => AcquireStep::NeedTab(s),
                None => AcquireStep::NeedSession,
            }
        }
    }

    /// Record the outcome of starting the engine process: install a fresh
    /// session generation, or keep the one another caller installed first.
    pub fn note_session_started(&mut self) -> (s: u64)
        requires
            old(self)@.next_session < u64::MAX,
        ensures
            (final(self)@, s) == spec_session_started(old(self)@),
    {
        match self.session {
            Some(s) => s,
            None => {
                let s = self.next_session;
                self.session = Some(s);
                self.next_session = self.next_session + 1;
                proof {
                    assert(self@ =~= spec_session_started(old(self)@).0);
                }
                s
            },
        }
    }

    /// Record a successfully created tab in session `s` and hand out its
    /// handle.
    pub fn note_tab_created(&mut self, s: u64) -> (t: TabHandle)
        requires
            old(self)@.next_tab < u64::MAX,
        ensures
            (final(self)@, t) == spec_tab_created(old(self)@, s),
    {
        let t = TabHandle { session: s, id: self.next_tab };
        self.next_tab = self.next_tab + 1;
        proof {
            assert(self@ =~= spec_tab_created(old(self)@, s).0);
        }
        t
    }

    /// Record a failed tab creation against session `s`: run the recovery
    /// protocol of [`spec_tab_failed`] (clear and purge only if `s` is
    /// still current).
    pub fn note_tab_failed(&mut self, s: u64)
        ensures
            final(self)@ == spec_tab_failed(old(self)@, s),
    {
        let clear = match self.session {
            Some(cur) => cur == s,
            None => false,
        };
        if clear {
            self.session = None;
            self.pool.clear();
        }
        proof {
            assert(self@ =~= spec_tab_failed(old(self)@, s));
        }
    }

    /// Return a tab to the pool after a fully successful conversion; a tab
    /// of a replaced session is dropped instead.
    pub fn recycle_tab(&mut self, tab: TabHandle)
        ensures
            final(self)@ == spec_recycle(old(self)@, tab),
    {
        let keep = match self.session {
            Some(cur) => cur == tab.session,
            None => false,
        };
        if keep {
            self.pool.push(tab);
        }
        proof {
            assert(self@ =~= spec_recycle(old(self)@, tab));
        }
    }

    /// Number of idle tabs in the pool.
    pub fn idle_tabs(&self) -> (n: usize)
        ensures
            n == self@.pool.len(),
    {
        self.pool.len()
    }

    /// Whether a session is currently active.
    pub fn has_session(&self) -> (b: bool)
        ensures
            b == (self@.session is Some),
    {
        self.session.is_some()
    }

    /// Number of tabs created over the engine's lifetime.
    pub fn tabs_created(&self) -> (n: u64)
        ensures
            n == self@.next_tab,
    {
        self.next_tab
    }

    /// Number of sessions started over the engine's lifetime.
    pub fn sessions_started(&self) -> (n: u64)
        ensures
            n == self@.next_session,
    {
        self.next_session
    }

    /// Whether fresh generation and tab ids remain; the id counters are 64
    /// bits wide, so in practice this never runs out.
    pub fn ids_available(&self) -> (b: bool)
        ensures
            b == self@.ids_available(),
    {
        self.next_session < u64::MAX && self.next_tab < u64::MAX
    }
}

/// Retry budget of one tab acquisition: the session is restarted at most
/// once per acquisition, as the recovery protocol prescribes.
pub struct Acquisition {
    /// Whether this acquisition has already consumed its one restart.
    pub restarted: bool,
}

impl Acquisition {
    /// Begin an acquisition with its restart unconsumed.
    pub fn begin() -> (a: Acquisition)
        ensures
            !a.restarted,
    {
        Acquisition { restarted: false }
    }

    /// Handle a failed tab creation against session `s`: run the engine's
    /// recovery protocol, and say whether the acquisition may retry —
    /// true exactly once, on the first failure.
    pub fn tab_failed(&mut self, engine: &mut Engine, s: u64) -> (retry: bool)
        ensures
            final(engine)@ == spec_tab_failed(old(engine)@, s),
            retry == !old(self).restarted,
            final(self).restarted,
    {
        engine.note_tab_failed(s);
        let retry = !self.restarted;
        self.restarted = true;
        retry
    }
}

// --- Preservation of well-formedness by every transition ---

/// Acquisition preserves well-formedness.
pub proof fn lemma_acquire_preserves_wf(m: EngineModel)
    requires
        m.wf(),
    ensures
        spec_acquire(m).0.wf(),
{
}

/// Recording a session start preserves well-formedness.
pub proof fn lemma_session_started_preserves_wf(m: EngineModel)
    requires
        m.wf(),
        m.next_session < u64::MAX,
    ensures
        spec_session_started(m).0.wf(),
{
}

/// Recording a created tab preserves well-formedness.
pub proof fn lemma_tab_created_preserves_wf(m: EngineModel, s: u64)
    requires
        m.wf(),
    ensures
        spec_tab_created(m, s).0.wf(),
{
}

/// The recovery protocol preserves well-formedness.
pub proof fn lemma_tab_failed_preserves_wf(m: EngineModel, s: u64)
    requires
        m.wf(),
    ensures
        spec_tab_failed(m, s).wf(),
{
}

/// Recycling preserves well-formedness: a tab is pooled only when it
/// belongs to the current session.
pub proof fn lemma_recycle_preserves_wf(m: EngineModel, t: TabHandle)
    requires
        m.wf(),
    ensures
        spec_recycle(m, t).wf(),
{
}

// --- Laws of the conversion lifecycle ---

/// The way one fully successful single conversion drives the engine: a tab
/// is acquired (reused if the pool has one, created otherwise, after a
/// session start if none is active), every pipeline step succeeds, and the
/// tab is recycled.
pub open spec fn spec_convert_cycle(m: EngineModel) -> EngineModel {
    let (m1, step) = spec_acquire(m);
    match step {
        AcquireStep::Reuse(t) => spec_recycle(m1, t),
        AcquireStep::NeedTab(s) => {
            let (m2, t) = spec_tab_created(m1, s);
            spec_recycle(m2, t)
        },
        AcquireStep::NeedSession => {
            let (m2, s) = spec_session_started(m1);
            let (m3, t) = spec_tab_created(m2, s);
            spec_recycle(m3, t)
        },
    }
}

/// `k` successful single conversions in sequence.
pub open spec fn spec_convert_cycles(m: EngineModel, k: nat) -> EngineModel
    decreases k,
{
    if k == 0 {
        m
    } else {
        spec_convert_cycles(spec_convert_cycle(m), (k - 1) as nat)
    }
}

/// Steady-state reuse: once the pool is non-empty, a successful
/// conversion pops an idle tab and recycles the same tab, so any number of
/// sequential successful conversions leaves the engine state — pool,
/// session and tab count — exactly as it was. Reuse, not re-creation,
/// carries the steady state.
pub proof fn lemma_pool_steady_state(m: EngineModel, k: nat)
    requires
        m.wf(),
        m.pool.len() >= 1,
    ensures
        spec_convert_cycles(m, k) == m,
    decreases k,
{
    if k > 0 {
        let t = m.pool.last();
        let m1 = spec_acquire(m).0;
        assert(m.session == Some(t.session));
        assert(spec_recycle(m1, t).pool =~= m.pool);
        assert(spec_convert_cycle(m) =~= m);
        lemma_pool_steady_state(m, (k - 1) as nat);
    }
}

/// From a fresh engine, any number `k >= 1` of sequential successful
/// single conversions starts exactly one session and creates exactly one
/// tab, and afterwards the pool holds exactly that one idle tab.
pub proof fn lemma_fresh_engine_creates_one_tab(k: nat)
    requires
        k >= 1,
    ensures
        spec_convert_cycles(EngineModel::init(), k).pool.len() == 1,
        spec_convert_cycles(EngineModel::init(), k).next_tab == 1,
        spec_convert_cycles(EngineModel::init(), k).next_session == 1,
{
    let m0 = EngineModel::init();
    let m1 = spec_convert_cycle(m0);
    assert(m1.pool =~= Seq::empty().push(TabHandle { session: 0, id: 0 }));
    assert(m1.wf());
    lemma_pool_steady_state(m1, (k - 1) as nat);
    assert(spec_convert_cycles(m0, k) == spec_convert_cycles(m1, (k - 1) as nat));
}

/// Recovery after a dead session: reporting a failed tab creation against
/// the current session clears the session and empties the pool at once;
/// the next successful conversion then runs against a fresh session
/// generation — never the dead one — and leaves one idle tab of that
/// fresh generation.
pub proof fn lemma_recovery_purges_then_restarts(m: EngineModel, s: u64)
    requires
        m.wf(),
        m.session == Some(s),
        m.ids_available(),
    ensures
        spec_tab_failed(m, s).session is None,
        spec_tab_failed(m, s).pool.len() == 0,
        ({
            let f = spec_convert_cycle(spec_tab_failed(m, s));
            &&& f.session == Some(m.next_session)
            &&& f.session != Some(s)
            &&& f.pool.len() == 1
            &&& f.pool[0].session == m.next_session
        }),
{
    let r = spec_tab_failed(m, s);
    let (m2, g) = spec_session_started(r);
    let (m3, t) = spec_tab_created(m2, g);
    assert(spec_convert_cycle(r) == spec_recycle(m3, t));
    assert(spec_recycle(m3, t).pool =~= Seq::empty().push(t));
}

} // verus!
