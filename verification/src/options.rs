//! User-facing print options and their translation into engine-native print
//! parameters.
//!
//! All lengths are handled in fixed point: one unit is one micro-inch
//! (one millionth of an inch), so no floating point is involved. Margin
//! strings carry a decimal numeral and an optional unit suffix (`in`, `mm`
//! or `cm`); a numeral without a suffix is read as millimetres.

use vstd::prelude::*;

use crate::text::{eq_ignore_case, lower_char, lower_seq, spec_trim, to_lower_char, trim_bounds};

verus! {

/// A4 paper width, 8.27 inches, in micro-inches.
pub const PAPER_A4_WIDTH: u64 = 8_270_000;

/// A4 paper height, 11.69 inches, in micro-inches.
pub const PAPER_A4_HEIGHT: u64 = 11_690_000;

/// Largest number of digits accepted in a margin numeral; longer numerals
/// are rejected as out of range.
pub const MAX_DIM_DIGITS: u64 = 15;

/// Unit suffix of a margin string.
#[derive(Clone, Copy, Debug, PartialEq, Eq, Structural)]
pub enum DimUnit {
    /// Suffix `in`: the value is in inches.
    Inch,
    /// Suffix `mm`, or no suffix: the value is in millimetres.
    Mm,
    /// Suffix `cm`: the value is in centimetres.
    Cm,
}

/// The view of an optional string: its character sequence, if present.
pub open spec fn opt_str_view(o: Option<String>) -> Option<Seq<char>> {
    match o {
        Some(s) => Some(s@),
        None => None,
    }
}

/// Decimal digit.
pub open spec fn is_digit(c: char) -> bool {
    '0' <= c && c <= '9'
}

/// Numeric value of a decimal digit.
pub open spec fn digit_val(c: char) -> int
    recommends
        is_digit(c),
{
    (c as u32) - ('0' as u32)
}

/// Character allowed in a decimal numeral: a digit or the decimal point.
pub open spec fn is_dec_char(c: char) -> bool {
    is_digit(c) || c == '.'
}

/// Number of decimal points in the sequence.
pub open spec fn dot_count(s: Seq<char>) -> nat
    decreases s.len(),
{
    if s.len() == 0 {
        0
    } else {
        dot_count(s.drop_last()) + if s.last() == '.' {
            1nat
        } else {
            0nat
        }
    }
}

/// Number of decimal digits in the sequence.
pub open spec fn digit_count(s: Seq<char>) -> nat
    decreases s.len(),
{
    if s.len() == 0 {
        0
    } else {
        digit_count(s.drop_last()) + if is_digit(s.last()) {
            1nat
        } else {
            0nat
        }
    }
}

/// The integer made of the digits of the sequence, the decimal point
/// ignored: the numerator of the decimal fraction the sequence denotes.
pub open spec fn spec_mantissa(s: Seq<char>) -> int
    decreases s.len(),
{
    if s.len() == 0 {
        0
    } else if is_digit(s.last()) {
        10 * spec_mantissa(s.drop_last()) + digit_val(s.last())
    } else {
        spec_mantissa(s.drop_last())
    }
}

/// True when the sequence holds a decimal point.
pub open spec fn has_dot(s: Seq<char>) -> bool {
    exists|i: int| 0 <= i < s.len() && s[i] == '.'
}

/// Number of digits after the decimal point: the power of ten the mantissa
/// is to be divided by.
pub open spec fn spec_frac_digits(s: Seq<char>) -> nat
    decreases s.len(),
{
    if s.len() == 0 {
        0
    } else if s.last() == '.' {
        0
    } else if has_dot(s.drop_last()) {
        spec_frac_digits(s.drop_last()) + 1
    } else {
        0
    }
}

/// A well-formed decimal numeral: only digits and at most one decimal
/// point, and at least one digit.
pub open spec fn spec_valid_decimal(s: Seq<char>) -> bool {
    (forall|i: int| 0 <= i < s.len() ==> is_dec_char(s[i])) && dot_count(s) <= 1 && digit_count(s)
        >= 1
}

/// Ten to the `k`.
pub open spec fn pow10(k: nat) -> int
    decreases k,
{
    if k == 0 {
        1
    } else {
        10 * pow10((k - 1) as nat)
    }
}

/// `a / b` rounded to the nearest integer, halves rounding up.
pub open spec fn div_round(a: int, b: int) -> int
    recommends
        a >= 0,
        b >= 1,
{
    (2 * a + b) / (2 * b)
}

/// Numerator of the micro-inches per unit, over [`micro_den`].
pub open spec fn micro_num(unit: DimUnit) -> int {
    match unit {
        DimUnit::Inch => 1_000_000,
        DimUnit::Mm => 10_000_000,
        DimUnit::Cm => 100_000_000,
    }
}

/// Denominator of the micro-inches per unit: 25.4 mm and 2.54 cm to the
/// inch give a shared denominator of 254.
pub open spec fn micro_den(unit: DimUnit) -> int {
    match unit {
        DimUnit::Inch => 1,
        DimUnit::Mm => 254,
        DimUnit::Cm => 254,
    }
}

/// Micro-inches denoted by a mantissa with `frac` digits after the decimal
/// point in the given unit, rounded to the nearest micro-inch.
pub open spec fn spec_micro_value(mantissa: int, frac: nat, unit: DimUnit) -> int {
    div_round(mantissa * micro_num(unit), micro_den(unit) * pow10(frac))
}

/// Unit named by the suffix of a (trimmed, lower-cased) margin string;
/// without a recognized suffix the value is read as millimetres.
pub open spec fn spec_dim_unit(t: Seq<char>) -> DimUnit {
    if t.len() >= 2 && t[t.len() - 2] == 'i' && t[t.len() - 1] == 'n' {
        DimUnit::Inch
    } else if t.len() >= 2 && t[t.len() - 2] == 'm' && t[t.len() - 1] == 'm' {
        DimUnit::Mm
    } else if t.len() >= 2 && t[t.len() - 2] == 'c' && t[t.len() - 1] == 'm' {
        DimUnit::Cm
    } else {
        DimUnit::Mm
    }
}

/// The numeral part of a (trimmed, lower-cased) margin string: everything
/// before a recognized unit suffix.
pub open spec fn spec_dim_body(t: Seq<char>) -> Seq<char> {
    if t.len() >= 2 && ((t[t.len() - 2] == 'i' && t[t.len() - 1] == 'n') || (t[t.len() - 2] == 'm'
        && t[t.len() - 1] == 'm') || (t[t.len() - 2] == 'c' && t[t.len() - 1] == 'm')) {
        t.take(t.len() - 2)
    } else {
        t
    }
}

/// Micro-inches denoted by a trimmed, lower-cased margin string, or `None`
/// when the numeral is malformed or out of range.
pub open spec fn spec_parse_trimmed(t: Seq<char>) -> Option<u64> {
    let body = spec_dim_body(t);
    let unit = spec_dim_unit(t);
    if !spec_valid_decimal(body) {
        None
    } else if digit_count(body) > MAX_DIM_DIGITS {
        None
    } else {
        let v = spec_micro_value(spec_mantissa(body), spec_frac_digits(body), unit);
        if v > u64::MAX {
            None
        } else {
            Some(v as u64)
        }
    }
}

/// Micro-inches denoted by an optional margin string: the string is
/// trimmed of surrounding whitespace and lower-cased, then read by
/// [`spec_parse_trimmed`].
pub open spec fn spec_parse_dimension(dim: Option<Seq<char>>) -> Option<u64> {
    match dim {
        None => None,
        Some(raw) => spec_parse_trimmed(lower_seq(spec_trim(raw))),
    }
}

proof fn lemma_counts_monotone(s: Seq<char>, k: int)
    requires
        0 <= k <= s.len(),
    ensures
        dot_count(s.take(k)) <= dot_count(s),
        digit_count(s.take(k)) <= digit_count(s),
    decreases s.len(),
{
    if k == s.len() {
        assert(s.take(k) =~= s);
    } else {
        assert(s.drop_last().take(k) =~= s.take(k));
        lemma_counts_monotone(s.drop_last(), k);
    }
}

proof fn lemma_pow10_15()
    ensures
        pow10(15) == 1_000_000_000_000_000,
{
    reveal_with_fuel(pow10, 16);
}

proof fn lemma_pow10_monotone(a: nat, b: nat)
    requires
        a <= b,
    ensures
        1 <= pow10(a) <= pow10(b),
    decreases b,
{
    if b == 0 {
    } else {
        lemma_pow10_monotone(0, (b - 1) as nat);
        if a < b {
            lemma_pow10_monotone(a, (b - 1) as nat);
        }
    }
}

/// Ten to the `k` as a machine integer.
fn pow10_u128(k: u64) -> (r: u128)
    requires
        k <= 15,
    ensures
        r == pow10(k as nat),
        r <= 1_000_000_000_000_000u128,
{
    proof {
        lemma_pow10_monotone(k as nat, 15);
        lemma_pow10_15();
    }
    let mut i: u64 = 0;
    let mut acc: u128 = 1;
    while i < k
        invariant
            i <= k <= 15,
            acc == pow10(i as nat),
            pow10(k as nat) <= 1_000_000_000_000_000,
        decreases k - i,
    {
        proof {
            lemma_pow10_monotone((i + 1) as nat, k as nat);
        }
        acc = acc * 10;
        i = i + 1;
    }
    acc
}

/// Micro-inches denoted by an optional margin string (value plus unit
/// suffix `in`, `mm` or `cm`; a bare numeral is millimetres), rounded to
/// the nearest micro-inch; `None` for a missing, malformed or out-of-range
/// value.
pub fn parse_dimension(dim: &Option<String>) -> (r: Option<u64>)
    ensures
        r == spec_parse_dimension(opt_str_view(*dim)),
{
    let s: &str = match dim {
        Some(s) => s.as_str(),
        None => {
            return None;
        },
    };
    let (i, j) = trim_bounds(s);
    let ghost t = lower_seq(spec_trim(s@));
    proof {
        assert(t =~= lower_seq(s@.subrange(i as int, j as int)));
    }

    // Unit suffix of the trimmed, lower-cased string.
    let mut body_end: usize = j;
    let mut unit = DimUnit::Mm;
    if j - i >= 2 {
        let c1 = to_lower_char(s.get_char(j - 2));
        let c2 = to_lower_char(s.get_char(j - 1));
        proof {
            assert(t[t.len() - 2] == c1 && t[t.len() - 1] == c2);
        }
        if c1 == 'i' && c2 == 'n' {
            unit = DimUnit::Inch;
            body_end = j - 2;
        } else if c1 == 'm' && c2 == 'm' {
            unit = DimUnit::Mm;
            body_end = j - 2;
        } else if c1 == 'c' && c2 == 'm' {
            unit = DimUnit::Cm;
            body_end = j - 2;
        }
    }
    let ghost body = spec_dim_body(t);
    proof {
        assert(unit == spec_dim_unit(t));
        assert(body =~= lower_seq(s@.subrange(i as int, body_end as int)));
    }

    // Scan the numeral left to right, folding the mantissa and counting
    // digits, decimal points and digits after the point.
    let mut k: usize = i;
    let mut mant: u64 = 0;
    let mut digits: u64 = 0;
    let mut fracs: u64 = 0;
    let mut dots: u64 = 0;
    proof {
        assert(lower_seq(s@.subrange(i as int, i as int)) =~= Seq::<char>::empty());
    }
    while k < body_end
        invariant
            i <= k <= body_end <= j <= s@.len(),
            opt_str_view(*dim) == Some(s@),
            t == lower_seq(spec_trim(s@)),
            unit == spec_dim_unit(t),
            body == spec_dim_body(t),
            body =~= lower_seq(s@.subrange(i as int, body_end as int)),
            forall|q: int| 0 <= q < k - i ==> is_dec_char(body[q]),
            mant == spec_mantissa(lower_seq(s@.subrange(i as int, k as int))),
            digits == digit_count(lower_seq(s@.subrange(i as int, k as int))),
            dots == dot_count(lower_seq(s@.subrange(i as int, k as int))),
            (dots > 0) == has_dot(lower_seq(s@.subrange(i as int, k as int))),
            fracs == spec_frac_digits(lower_seq(s@.subrange(i as int, k as int))),
            fracs <= digits <= MAX_DIM_DIGITS,
            dots <= 1,
            mant < pow10(digits as nat),
        decreases body_end - k,
    {
        let ghost pref = lower_seq(s@.subrange(i as int, k as int));
        let ghost prefx = lower_seq(s@.subrange(i as int, k as int + 1));
        let c = to_lower_char(s.get_char(k));
        proof {
            assert(prefx =~= pref.push(lower_char(s@[k as int])));
            assert(prefx.drop_last() =~= pref);
            assert(prefx.last() == c);
            assert(body[k - i] == lower_char(s@[k as int]));
            assert(prefx =~= body.take(k - i + 1));
        }
        if c == '.' {
            if dots > 0 {
                proof {
                    assert(dot_count(prefx) == dot_count(pref) + 1);
                    lemma_counts_monotone(body, k - i + 1);
                    assert(!spec_valid_decimal(body));
                }
                return None;
            }
            dots = 1;
            fracs = 0;
            proof {
                assert(has_dot(prefx));
                assert(!is_digit('.'));
            }
        } else if '0' <= c && c <= '9' {
            if digits >= MAX_DIM_DIGITS {
                proof {
                    assert(digit_count(prefx) == digit_count(pref) + 1);
                    lemma_counts_monotone(body, k - i + 1);
                    assert(digit_count(body) > MAX_DIM_DIGITS);
                }
                return None;
            }
            proof {
                assert(is_digit(c));
                assert(c != '.');
                if !has_dot(pref) {
                    assert(forall|q: int|
                        0 <= q < prefx.len() ==> prefx[q] != '.') by {
                        assert(forall|q: int| 0 <= q < pref.len() ==> pref[q] != '.');
                    };
                    assert(!has_dot(prefx));
                }
                assert(spec_mantissa(prefx) == 10 * spec_mantissa(pref) + digit_val(c));
                assert(pow10((digits + 1) as nat) == 10 * pow10(digits as nat));
                lemma_pow10_monotone(digits as nat, 14);
                assert(pow10(14) == 100_000_000_000_000) by {
                    reveal_with_fuel(pow10, 15);
                };
            }
            digits = digits + 1;
            if dots > 0 {
                fracs = fracs + 1;
            }
            let d = (c as u32) - ('0' as u32);
            mant = mant * 10 + (d as u64);
        } else {
            // An invalid character makes the whole numeral invalid.
            proof {
                assert(!is_dec_char(body[k - i]));
                assert(!spec_valid_decimal(body));
            }
            return None;
        }
        k = k + 1;
    }
    proof {
        assert(lower_seq(s@.subrange(i as int, k as int)) =~= body);
    }
    if digits == 0 {
        proof {
            assert(digit_count(body) == 0);
            assert(!spec_valid_decimal(body));
        }
        return None;
    }

    // The numeral is valid and bounded: convert to micro-inches.
    proof {
        assert(spec_valid_decimal(body));
        lemma_pow10_monotone(fracs as nat, 15);
        lemma_pow10_15();
    }
    let num_c: u128 = match unit {
        DimUnit::Inch => 1_000_000,
        DimUnit::Mm => 10_000_000,
        DimUnit::Cm => 100_000_000,
    };
    let den_c: u128 = match unit {
        DimUnit::Inch => 1,
        DimUnit::Mm => 254,
        DimUnit::Cm => 254,
    };
    let p = pow10_u128(fracs);
    proof {
        assert(pow10(digits as nat) <= pow10(15)) by {
            lemma_pow10_monotone(digits as nat, 15);
        };
        lemma_pow10_15();
        assert((mant as u128) * num_c <= 1_000_000_000_000_000u128 * 100_000_000) by (
        nonlinear_arith)
            requires
                mant as u128 <= 1_000_000_000_000_000u128,
                num_c <= 100_000_000u128,
        ;
        assert(den_c * p <= 254u128 * 1_000_000_000_000_000) by (nonlinear_arith)
            requires
                den_c <= 254u128,
                p <= 1_000_000_000_000_000u128,
        ;
        assert(den_c * p >= 1) by (nonlinear_arith)
            requires
                den_c >= 1u128,
                p >= 1u128,
        ;
    }
    let num: u128 = (mant as u128) * num_c;
    let den: u128 = den_c * p;
    let v: u128 = (2 * num + den) / (2 * den);
    proof {
        assert(v == div_round(num as int, den as int));
        assert(num as int == spec_mantissa(body) * micro_num(unit));
        assert(den as int == micro_den(unit) * pow10(fracs as nat));
    }
    if v > u64::MAX as u128 {
        None
    } else {
        Some(v as u64)
    }
}

/// Paper width and height, in micro-inches, selected by a page-size name:
/// the lookup is ASCII-case-insensitive, and an unrecognized or absent
/// name gives A4.
pub open spec fn spec_paper_size(name: Option<Seq<char>>) -> (u64, u64) {
    match name {
        None => (PAPER_A4_WIDTH, PAPER_A4_HEIGHT),
        Some(s) => {
            let l = lower_seq(s);
            if l == lower_seq("letter"@) {
                (8_500_000u64, 11_000_000u64)
            } else if l == lower_seq("legal"@) {
                (8_500_000u64, 14_000_000u64)
            } else if l == lower_seq("tabloid"@) {
                (11_000_000u64, 17_000_000u64)
            } else if l == lower_seq("a3"@) {
                (11_700_000u64, 16_500_000u64)
            } else if l == lower_seq("a5"@) {
                (5_800_000u64, 8_300_000u64)
            } else {
                (PAPER_A4_WIDTH, PAPER_A4_HEIGHT)
            }
        },
    }
}

/// Runtime paper-size lookup; see [`spec_paper_size`].
pub fn paper_size(name: &Option<String>) -> (d: (u64, u64))
    ensures
        d == spec_paper_size(opt_str_view(*name)),
{
    match name {
        None => (PAPER_A4_WIDTH, PAPER_A4_HEIGHT),
        Some(s) => {
            if eq_ignore_case(s.as_str(), "letter") {
                (8_500_000, 11_000_000)
            } else if eq_ignore_case(s.as_str(), "legal") {
                (8_500_000, 14_000_000)
            } else if eq_ignore_case(s.as_str(), "tabloid") {
                (11_000_000, 17_000_000)
            } else if eq_ignore_case(s.as_str(), "a3") {
                (11_700_000, 16_500_000)
            } else if eq_ignore_case(s.as_str(), "a5") {
                (5_800_000, 8_300_000)
            } else {
                (PAPER_A4_WIDTH, PAPER_A4_HEIGHT)
            }
        },
    }
}

/// The page-size lookup reads names up to ASCII case: two names with the
/// same lower-casing select the same paper dimensions.
pub proof fn lemma_paper_size_case_insensitive(a: Seq<char>, b: Seq<char>)
    requires
        lower_seq(a) == lower_seq(b),
    ensures
        spec_paper_size(Some(a)) == spec_paper_size(Some(b)),
{
}

/// An absent page-size name, or one that names none of the known sizes,
/// selects the A4 dimensions.
pub proof fn lemma_paper_size_default(name: Option<Seq<char>>)
    requires
        match name {
            None => true,
            Some(s) => lower_seq(s) != lower_seq("letter"@) && lower_seq(s) != lower_seq("legal"@)
                && lower_seq(s) != lower_seq("tabloid"@) && lower_seq(s) != lower_seq("a3"@)
                && lower_seq(s) != lower_seq("a5"@),
        },
    ensures
        spec_paper_size(name) == (PAPER_A4_WIDTH, PAPER_A4_HEIGHT),
{
}

/// True when the orientation name is `landscape` up to ASCII case; absent
/// or other names mean portrait.
pub open spec fn spec_is_landscape(o: Option<Seq<char>>) -> bool {
    match o {
        None => false,
        Some(s) => lower_seq(s) == lower_seq("landscape"@),
    }
}

/// User-facing options for one conversion. All fields are optional except
/// the background flag, which defaults to enabled.
#[derive(Debug, Clone)]
pub struct PdfOptions {
    /// Page size name: `A4` (the default), `Letter`, `Legal`, `Tabloid`,
    /// `A3` or `A5`, read case-insensitively.
    pub page_size: Option<String>,
    /// `Landscape` (case-insensitive) rotates the page; anything else, or
    /// absence, is portrait.
    pub page_orientation: Option<String>,
    /// Top margin, as a numeral with unit suffix (`1in`, `25.4mm`).
    pub margin_top: Option<String>,
    /// Right margin.
    pub margin_right: Option<String>,
    /// Bottom margin.
    pub margin_bottom: Option<String>,
    /// Left margin.
    pub margin_left: Option<String>,
    /// HTML template for the page header; supplying one enables the
    /// header/footer display flag.
    pub header_html: Option<String>,
    /// HTML template for the page footer.
    pub footer_html: Option<String>,
    /// Render scale factor in thousandths (1000 is natural size),
    /// forwarded verbatim to the engine.
    pub scale_milli: Option<u64>,
    /// Whether to print background graphics; defaults to `true`.
    pub print_background: bool,
}

/// Engine-native print parameters, produced from [`PdfOptions`] by
/// [`PdfOptions::to_chrome_options`]. Lengths are in micro-inches.
#[derive(Debug, Clone)]
pub struct PrintParams {
    /// Rotate the page to landscape.
    pub landscape: bool,
    /// Show the header and footer templates.
    pub display_header_footer: bool,
    /// Print background graphics.
    pub print_background: bool,
    /// Render scale in thousandths, if requested.
    pub scale_milli: Option<u64>,
    /// Paper width in micro-inches.
    pub paper_width_micro: u64,
    /// Paper height in micro-inches.
    pub paper_height_micro: u64,
    /// Margins in micro-inches; a margin whose string did not parse is
    /// left to the engine's default.
    pub margin_top_micro: Option<u64>,
    /// Bottom margin in micro-inches.
    pub margin_bottom_micro: Option<u64>,
    /// Left margin in micro-inches.
    pub margin_left_micro: Option<u64>,
    /// Right margin in micro-inches.
    pub margin_right_micro: Option<u64>,
    /// Header template markup.
    pub header_template: Option<String>,
    /// Footer template markup.
    pub footer_template: Option<String>,
}

/// The engine-native parameters `p` are exactly the translation of the
/// user-facing options `o`: orientation and header/footer flags derived,
/// paper size looked up case-insensitively, margins parsed to
/// micro-inches, scale and background flag forwarded, templates carried
/// over.
pub open spec fn params_match(p: PrintParams, o: PdfOptions) -> bool {
    &&& p.landscape == spec_is_landscape(opt_str_view(o.page_orientation))
    &&& p.display_header_footer == (o.header_html is Some || o.footer_html is Some)
    &&& p.print_background == o.print_background
    &&& p.scale_milli == o.scale_milli
    &&& (p.paper_width_micro, p.paper_height_micro) == spec_paper_size(opt_str_view(o.page_size))
    &&& p.margin_top_micro == spec_parse_dimension(opt_str_view(o.margin_top))
    &&& p.margin_bottom_micro == spec_parse_dimension(opt_str_view(o.margin_bottom))
    &&& p.margin_left_micro == spec_parse_dimension(opt_str_view(o.margin_left))
    &&& p.margin_right_micro == spec_parse_dimension(opt_str_view(o.margin_right))
    &&& opt_str_view(p.header_template) == opt_str_view(o.header_html)
    &&& opt_str_view(p.footer_template) == opt_str_view(o.footer_html)
}

fn clone_opt_string(o: &Option<String>) -> (r: Option<String>)
    ensures
        opt_str_view(r) == opt_str_view(*o),
{
    match o {
        Some(s) => Some(s.clone()),
        None => None,
    }
}

impl PdfOptions {
    /// The default options: everything unset, background printing on.
    pub open spec fn spec_default() -> PdfOptions {
        PdfOptions {
            page_size: None,
            page_orientation: None,
            margin_top: None,
            margin_right: None,
            margin_bottom: None,
            margin_left: None,
            header_html: None,
            footer_html: None,
            scale_milli: None,
            print_background: true,
        }
    }

    /// Fresh options with every field unset and background printing on.
    pub fn new() -> (r: PdfOptions)
        ensures
            r == PdfOptions::spec_default(),
    {
        PdfOptions {
            page_size: None,
            page_orientation: None,
            margin_top: None,
            margin_right: None,
            margin_bottom: None,
            margin_left: None,
            header_html: None,
            footer_html: None,
            scale_milli: None,
            print_background: true,
        }
    }

    /// Translate the user-facing options into engine-native print
    /// parameters: paper size by case-insensitive lookup, margins parsed
    /// to micro-inches, orientation and header/footer flags derived, scale
    /// and background flag forwarded.
    pub fn to_chrome_options(&self) -> (p: PrintParams)
        ensures
            params_match(p, *self),
    {
        let landscape = match &self.page_orientation {
            Some(o) => eq_ignore_case(o.as_str(), "landscape"),
            None => false,
        };
        let (width, height) = paper_size(&self.page_size);
        PrintParams {
            landscape,
            display_header_footer: self.header_html.is_some() || self.footer_html.is_some(),
            print_background: self.print_background,
            scale_milli: self.scale_milli,
            paper_width_micro: width,
            paper_height_micro: height,
            margin_top_micro: parse_dimension(&self.margin_top),
            margin_bottom_micro: parse_dimension(&self.margin_bottom),
            margin_left_micro: parse_dimension(&self.margin_left),
            margin_right_micro: parse_dimension(&self.margin_right),
            header_template: clone_opt_string(&self.header_html),
            footer_template: clone_opt_string(&self.footer_html),
        }
    }
}

impl Default for PdfOptions {
    /// Same as [`PdfOptions::new`].
    fn default() -> (r: Self)
        ensures
            r == PdfOptions::spec_default(),
    {
        PdfOptions::new()
    }
}

} // verus!
