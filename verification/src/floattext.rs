//! Floating-point text without floating point: the grammar of texts that
//! parse as a float, and exact truncation of such a text to an integer.
//!
//! The store keeps custom-field values as text, so the migration engine only
//! ever needs two questions answered about a "float" value: does the text
//! parse as one, and what integer does it truncate to.  Both are decided
//! here on the characters alone — a sign, decimal digits, an optional
//! fraction and an optional exponent, or the words `inf`, `infinity` and
//! `nan` in any case — with saturation at the i64 range, so no
//! floating-point value is ever computed.  Exponents are clamped at
//! `EXP_CLAMP`; beyond it the result saturates identically.

use vstd::prelude::*;
use vstd::string::StrSliceExecFns;

verus! {

/// One decimal digit.
pub open spec fn is_digit(c: char) -> bool {
    '0' <= c <= '9'
}

/// The length of the longest digit prefix.
pub open spec fn digit_prefix_len(s: Seq<char>) -> int
    decreases s.len(),
{
    if s.len() == 0 || !is_digit(s[0]) {
        0
    } else {
        1 + digit_prefix_len(s.drop_first())
    }
}

/// `digit_prefix_len` is the unique cut: all digits before it, none at it.
pub proof fn lemma_digit_prefix(s: Seq<char>)
    ensures
        0 <= digit_prefix_len(s) <= s.len(),
        forall|i: int| 0 <= i < digit_prefix_len(s) ==> is_digit(#[trigger] s[i]),
        digit_prefix_len(s) < s.len() ==> !is_digit(s[digit_prefix_len(s)]),
    decreases s.len(),
{
    if s.len() > 0 && is_digit(s[0]) {
        lemma_digit_prefix(s.drop_first());
        assert(forall|i: int| 0 <= i < s.drop_first().len()
            ==> #[trigger] s.drop_first()[i] == s[i + 1]);
        assert forall|i: int| 0 <= i < digit_prefix_len(s) implies is_digit(#[trigger] s[i]) by {
            if i > 0 {
                assert(is_digit(s.drop_first()[i - 1]));
            }
        }
    }
}

/// A run of digits followed by a non-digit (or the end) pins the prefix length.
pub proof fn lemma_digit_prefix_value(s: Seq<char>, m: int)
    requires
        0 <= m <= s.len(),
        forall|i: int| 0 <= i < m ==> is_digit(#[trigger] s[i]),
        m < s.len() ==> !is_digit(s[m]),
    ensures
        digit_prefix_len(s) == m,
    decreases s.len(),
{
    if s.len() == 0 || !is_digit(s[0]) {
    } else {
        assert(forall|i: int| 0 <= i < s.drop_first().len()
            ==> #[trigger] s.drop_first()[i] == s[i + 1]);
        lemma_digit_prefix_value(s.drop_first(), m - 1);
    }
}

/// The text with one leading sign removed.
pub open spec fn strip_sign(s: Seq<char>) -> Seq<char> {
    if s.len() > 0 && (s[0] == '+' || s[0] == '-') {
        s.drop_first()
    } else {
        s
    }
}

/// Whether the text carries a leading minus sign.
pub open spec fn has_minus(s: Seq<char>) -> bool {
    s.len() > 0 && s[0] == '-'
}

/// `c` is the letter `l` (given in lower case), in either case.
pub open spec fn ci(c: char, l: char) -> bool {
    c == l || c as int == l as int - 32
}

/// The word `inf` or `infinity`, in any case.
pub open spec fn is_inf_text(b: Seq<char>) -> bool {
    (b.len() == 3 && ci(b[0], 'i') && ci(b[1], 'n') && ci(b[2], 'f')) || (b.len() == 8 && ci(
        b[0],
        'i',
    ) && ci(b[1], 'n') && ci(b[2], 'f') && ci(b[3], 'i') && ci(b[4], 'n') && ci(b[5], 'i') && ci(
        b[6],
        't',
    ) && ci(b[7], 'y'))
}

/// The word `nan`, in any case.
pub open spec fn is_nan_text(b: Seq<char>) -> bool {
    b.len() == 3 && ci(b[0], 'n') && ci(b[1], 'a') && ci(b[2], 'n')
}

/// Where the fraction digits of the unsigned body `b` start.
pub open spec fn frac_start(b: Seq<char>) -> int {
    let p = digit_prefix_len(b);
    if p < b.len() && b[p] == '.' {
        p + 1
    } else {
        p
    }
}

/// How many fraction digits the unsigned body has.
pub open spec fn frac_len(b: Seq<char>) -> int {
    digit_prefix_len(b.skip(frac_start(b)))
}

/// Where the mantissa (digits, optional dot, fraction digits) ends.
pub open spec fn mant_end(b: Seq<char>) -> int {
    frac_start(b) + frac_len(b)
}

/// The digits of an exponent part `es` (everything after `e`/`E`), signed.
pub open spec fn exp_digits(es: Seq<char>) -> Seq<char> {
    strip_sign(es)
}

/// A finite number: at least one digit in the mantissa, and a well-formed
/// exponent if one is announced.
pub open spec fn finite_ok(b: Seq<char>) -> bool {
    let p = digit_prefix_len(b);
    let e = mant_end(b);
    p + frac_len(b) >= 1 && (e == b.len() || ((b[e] == 'e' || b[e] == 'E') && {
        let d = exp_digits(b.skip(e + 1));
        d.len() >= 1 && digit_prefix_len(d) == d.len()
    }))
}

/// The texts accepted as a floating-point number.
pub open spec fn float_text_ok(s: Seq<char>) -> bool {
    let b = strip_sign(s);
    is_inf_text(b) || is_nan_text(b) || finite_ok(b)
}

/// The integer the decimal digits spell, most significant first.
pub open spec fn dec_val(s: Seq<char>) -> int
    decreases s.len(),
{
    if s.len() == 0 {
        0
    } else {
        dec_val(s.drop_last()) * 10 + (s.last() as int - '0' as int)
    }
}

/// Exponents larger than this saturate; the truncation is unchanged by the
/// clamp, since any nonzero mantissa already saturates far earlier.
pub const EXP_CLAMP: u64 = 100000;

/// The exponent's magnitude, clamped.
pub open spec fn exp_clamped(d: Seq<char>) -> int {
    if dec_val(d) >= EXP_CLAMP as int {
        EXP_CLAMP as int
    } else {
        dec_val(d)
    }
}

/// How far the decimal point moves: the signed exponent minus the number of
/// fraction digits.
pub open spec fn shift_of(b: Seq<char>) -> int {
    let e = mant_end(b);
    let exp = if e == b.len() {
        0
    } else {
        let es = b.skip(e + 1);
        if es.len() > 0 && es[0] == '-' {
            -exp_clamped(exp_digits(es))
        } else {
            exp_clamped(exp_digits(es))
        }
    };
    exp - frac_len(b)
}

/// All mantissa digits, point forgotten: integer digits then fraction digits.
pub open spec fn mant_digits(b: Seq<char>) -> Seq<char> {
    b.take(digit_prefix_len(b)) + b.skip(frac_start(b)).take(frac_len(b))
}

/// `n` zero characters.
pub open spec fn zero_pad(n: int) -> Seq<char> {
    Seq::new(if n >= 0 {
        n as nat
    } else {
        0
    }, |i: int| '0')
}

/// The digit sequence after moving the decimal point `shift` places and
/// truncating the fraction.
pub open spec fn trunc_digit_seq(d: Seq<char>, shift: int) -> Seq<char> {
    if shift >= 0 {
        d + zero_pad(shift)
    } else if d.len() + shift <= 0 {
        Seq::<char>::empty()
    } else {
        d.take(d.len() + shift)
    }
}

/// A signed magnitude clamped into the i64 range.
pub open spec fn clamp_i64(neg: bool, mag: int) -> i64 {
    if neg {
        if mag >= 0x8000000000000000 {
            i64::MIN
        } else {
            (-mag) as i64
        }
    } else {
        if mag > i64::MAX {
            i64::MAX
        } else {
            mag as i64
        }
    }
}

/// The integer a float text truncates to: `nan` gives 0, infinities
/// saturate, and a finite text is truncated exactly on its digits.
pub open spec fn float_text_trunc(s: Seq<char>) -> Option<i64> {
    if !float_text_ok(s) {
        None
    } else {
        let b = strip_sign(s);
        if is_inf_text(b) {
            Some(
                if has_minus(s) {
                    i64::MIN
                } else {
                    i64::MAX
                },
            )
        } else if is_nan_text(b) {
            Some(0)
        } else {
            Some(clamp_i64(has_minus(s), dec_val(trunc_digit_seq(mant_digits(b), shift_of(b)))))
        }
    }
}

/// A finite float text's decimal shift never exceeds the exponent clamp.
pub proof fn lemma_shift_bound(b: Seq<char>)
    requires
        finite_ok(b),
    ensures
        shift_of(b) <= EXP_CLAMP as int,
{
    lemma_digit_prefix(b);
    lemma_digit_prefix(b.skip(frac_start(b)));
    if mant_end(b) < b.len() {
        let es = b.skip(mant_end(b) + 1);
        lemma_digit_prefix(exp_digits(es));
        lemma_dec_val_nonneg(exp_digits(es));
    }
}

/// The saturation point: one above `i64::MAX`.
pub const MAG_CAP: u128 = 0x8000000000000000;

/// Every character of a digit sequence is a digit, so its value is not
/// negative.
pub proof fn lemma_dec_val_nonneg(s: Seq<char>)
    requires
        forall|i: int| 0 <= i < s.len() ==> is_digit(#[trigger] s[i]),
    ensures
        dec_val(s) >= 0,
    decreases s.len(),
{
    if s.len() > 0 {
        assert(forall|i: int| 0 <= i < s.drop_last().len()
            ==> #[trigger] s.drop_last()[i] == s[i]);
        lemma_dec_val_nonneg(s.drop_last());
    }
}

fn digit_ch(c: char) -> (r: bool)
    ensures
        r == is_digit(c),
{
    '0' <= c && c <= '9'
}

fn ci_ch(c: char, l: char) -> (r: bool)
    requires
        'a' <= l <= 'z',
    ensures
        r == ci(c, l),
{
    c == l || (c as u32) == (l as u32) - 32
}

/// Scan the digit run starting at `start`, collecting the digits.
fn scan_digits(v: &str, start: usize, out: &mut Vec<char>) -> (end: usize)
    requires
        start <= v@.len(),
    ensures
        start <= end <= v@.len(),
        digit_prefix_len(v@.skip(start as int)) == end - start,
        final(out)@ == old(out)@ + v@.subrange(start as int, end as int),
        forall|t: int| start <= t < end ==> is_digit(#[trigger] v@[t]),
{
    let n = v.unicode_len();
    let mut j = start;
    while j < n
        invariant
            start <= j <= n,
            n == v@.len(),
            forall|t: int| start <= t < j ==> is_digit(#[trigger] v@[t]),
            out@ == old(out)@ + v@.subrange(start as int, j as int),
        decreases n - j,
    {
        let c = v.get_char(j);
        if !('0' <= c && c <= '9') {
            proof {
                assert(forall|t: int| 0 <= t < j - start
                    ==> #[trigger] v@.skip(start as int)[t] == v@[start + t]);
                lemma_digit_prefix_value(v@.skip(start as int), j - start);
            }
            return j;
        }
        out.push(c);
        proof {
            assert(out@ =~= old(out)@ + v@.subrange(start as int, j + 1));
        }
        j = j + 1;
    }
    proof {
        assert(forall|t: int| 0 <= t < j - start
            ==> #[trigger] v@.skip(start as int)[t] == v@[start + t]);
        lemma_digit_prefix_value(v@.skip(start as int), j - start);
    }
    j
}

/// The clamped value of an exponent's digit run.
fn exp_value_clamped(d: &Vec<char>) -> (r: u64)
    requires
        forall|i: int| 0 <= i < d@.len() ==> is_digit(#[trigger] d@[i]),
    ensures
        r as int == exp_clamped(d@),
{
    let n = d.len();
    let mut acc: u64 = 0;
    let mut i: usize = 0;
    proof {
        assert(d@.subrange(0, 0) =~= Seq::<char>::empty());
    }
    while i < n
        invariant
            i <= n,
            n == d@.len(),
            forall|t: int| 0 <= t < d@.len() ==> is_digit(#[trigger] d@[t]),
            acc as int == exp_clamped(d@.subrange(0, i as int)),
            acc <= EXP_CLAMP,
        decreases n - i,
    {
        let ghost prefix = d@.subrange(0, i as int);
        let ghost next = d@.subrange(0, i + 1);
        proof {
            assert(next.drop_last() =~= prefix);
            assert(forall|t: int| 0 <= t < prefix.len() ==> is_digit(#[trigger] prefix[t]));
            lemma_dec_val_nonneg(prefix);
            assert(dec_val(next) == dec_val(prefix) * 10 + (d@[i as int] as int - '0' as int));
        }
        let c = d[i];
        let dv = (c as u32 - '0' as u32) as u64;
        acc = acc * 10 + dv;
        if acc >= EXP_CLAMP {
            acc = EXP_CLAMP;
        }
        i = i + 1;
    }
    proof {
        assert(d@.subrange(0, n as int) =~= d@);
    }
    acc
}

/// Saturating decimal value of the digits followed by `zeros` zero digits:
/// the exact value while it stays within `MAG_CAP`, and a flag once it has
/// passed it.
fn sat_mag(d: &Vec<char>, zeros: u64) -> (r: (u128, bool))
    requires
        forall|i: int| 0 <= i < d@.len() ==> is_digit(#[trigger] d@[i]),
    ensures
        !r.1 ==> r.0 as int == dec_val(d@ + zero_pad(zeros as int)) && r.0 <= MAG_CAP,
        r.1 ==> dec_val(d@ + zero_pad(zeros as int)) > MAG_CAP as int,
{
    let n = d.len();
    let mut acc: u128 = 0;
    let mut over = false;
    let mut i: usize = 0;
    proof {
        assert(d@.subrange(0, 0) =~= Seq::<char>::empty());
    }
    while i < n
        invariant
            i <= n,
            n == d@.len(),
            forall|t: int| 0 <= t < d@.len() ==> is_digit(#[trigger] d@[t]),
            !over ==> acc as int == dec_val(d@.subrange(0, i as int)) && acc <= MAG_CAP,
            over ==> dec_val(d@.subrange(0, i as int)) > MAG_CAP as int,
        decreases n - i,
    {
        let ghost prefix = d@.subrange(0, i as int);
        let ghost next = d@.subrange(0, i + 1);
        proof {
            assert(next.drop_last() =~= prefix);
            assert(forall|t: int| 0 <= t < prefix.len() ==> is_digit(#[trigger] prefix[t]));
            lemma_dec_val_nonneg(prefix);
            assert(dec_val(next) == dec_val(prefix) * 10 + (d@[i as int] as int - '0' as int));
        }
        let c = d[i];
        let dv = (c as u32 - '0' as u32) as u128;
        if !over {
            acc = acc * 10 + dv;
            if acc > MAG_CAP {
                over = true;
            }
        }
        i = i + 1;
    }
    proof {
        assert(d@.subrange(0, n as int) =~= d@);
        assert(d@ + zero_pad(0) =~= d@);
    }
    let mut z: u64 = 0;
    while z < zeros
        invariant
            z <= zeros,
            forall|t: int| 0 <= t < d@.len() ==> is_digit(#[trigger] d@[t]),
            !over ==> acc as int == dec_val(d@ + zero_pad(z as int)) && acc <= MAG_CAP,
            over ==> dec_val(d@ + zero_pad(z as int)) > MAG_CAP as int,
        decreases zeros - z,
    {
        let ghost prefix = d@ + zero_pad(z as int);
        let ghost next = d@ + zero_pad(z as int + 1);
        proof {
            assert(next.drop_last() =~= prefix);
            assert(next.last() == '0');
            assert forall|t: int| 0 <= t < prefix.len() implies is_digit(#[trigger] prefix[t]) by {
                if t < d@.len() {
                    assert(prefix[t] == d@[t]);
                } else {
                    assert(prefix[t] == '0');
                }
            }
            lemma_dec_val_nonneg(prefix);
            assert(dec_val(next) == dec_val(prefix) * 10);
        }
        if !over {
            acc = acc * 10;
            if acc > MAG_CAP {
                over = true;
            }
        }
        z = z + 1;
    }
    (acc, over)
}

enum FloatClass {
    NotFloat,
    NotANumber,
    Infinite { neg: bool },
    Finite { neg: bool, digits: Vec<char>, shift: i128 },
}

/// Whether the text at `i` spells `inf` or `infinity`, in any case.
fn inf_check(v: &str, i: usize) -> (r: bool)
    requires
        i <= v@.len(),
    ensures
        r == is_inf_text(v@.skip(i as int)),
{
    let n = v.unicode_len();
    let rem = n - i;
    if rem == 3 {
        ci_ch(v.get_char(i), 'i') && ci_ch(v.get_char(i + 1), 'n') && ci_ch(v.get_char(i + 2), 'f')
    } else if rem == 8 {
        ci_ch(v.get_char(i), 'i') && ci_ch(v.get_char(i + 1), 'n') && ci_ch(v.get_char(i + 2), 'f')
            && ci_ch(v.get_char(i + 3), 'i') && ci_ch(v.get_char(i + 4), 'n') && ci_ch(
            v.get_char(i + 5),
            'i',
        ) && ci_ch(v.get_char(i + 6), 't') && ci_ch(v.get_char(i + 7), 'y')
    } else {
        false
    }
}

/// Whether the text at `i` spells `nan`, in any case.
fn nan_check(v: &str, i: usize) -> (r: bool)
    requires
        i <= v@.len(),
    ensures
        r == is_nan_text(v@.skip(i as int)),
{
    let n = v.unicode_len();
    if n - i == 3 {
        ci_ch(v.get_char(i), 'n') && ci_ch(v.get_char(i + 1), 'a') && ci_ch(v.get_char(i + 2), 'n')
    } else {
        false
    }
}

/// Scan the mantissa of the unsigned body starting at `i`: its integer
/// digits, the optional dot, and its fraction digits.
#[verifier::spinoff_prover]
fn scan_mantissa(v: &str, i: usize) -> (r: (Vec<char>, usize, usize))
    requires
        i <= v@.len(),
    ensures
        ({
            let b = v@.skip(i as int);
            let (digits, fs, fr_end) = r;
            &&& i <= fs <= fr_end <= v@.len()
            &&& digit_prefix_len(b) + i <= fs
            &&& frac_start(b) == fs - i
            &&& frac_len(b) == fr_end - fs
            &&& mant_end(b) == fr_end - i
            &&& digit_prefix_len(b) + frac_len(b) == digits@.len()
            &&& digits@ == mant_digits(b)
            &&& (forall|t: int| 0 <= t < digits@.len() ==> is_digit(#[trigger] digits@[t]))
        }),
{
    let ghost b = v@.skip(i as int);
    proof {
        assert(forall|t: int| 0 <= t < b.len() ==> b[t] == v@[i + t]);
    }
    let n = v.unicode_len();
    let mut digits: Vec<char> = Vec::new();
    let ip_end = scan_digits(v, i, &mut digits);
    let ghost p = digit_prefix_len(b);
    proof {
        assert(p == ip_end - i);
        assert(digits@ =~= b.take(p));
    }
    let mut fs = ip_end;
    if ip_end < n && v.get_char(ip_end) == '.' {
        fs = ip_end + 1;
    }
    proof {
        assert(fs - i == frac_start(b));
        assert(b.skip(frac_start(b)) =~= v@.skip(fs as int));
    }
    let fr_end = scan_digits(v, fs, &mut digits);
    proof {
        assert(frac_len(b) == fr_end - fs);
        assert(digits@ =~= mant_digits(b));
    }
    (digits, fs, fr_end)
}

/// Scan the mantissa and exponent of a text already known not to be a
/// special word; `i` points past the optional sign.
#[verifier::rlimit(100)]
#[verifier::spinoff_prover]
fn classify_finite(v: &str, i: usize, neg: bool) -> (r: FloatClass)
    requires
        i <= v@.len(),
        strip_sign(v@) == v@.skip(i as int),
        neg == has_minus(v@),
        !is_inf_text(strip_sign(v@)),
        !is_nan_text(strip_sign(v@)),
    ensures
        match r {
            FloatClass::NotFloat => !float_text_ok(v@),
            FloatClass::NotANumber => false,
            FloatClass::Infinite { .. } => false,
            FloatClass::Finite { neg: rn, digits, shift } => float_text_ok(v@) && finite_ok(
                strip_sign(v@),
            ) && rn == has_minus(v@) && digits@ == mant_digits(strip_sign(v@)) && shift as int
                == shift_of(strip_sign(v@)) && (forall|t: int|
                0 <= t < digits@.len() ==> is_digit(#[trigger] digits@[t])),
        },
{
    let n = v.unicode_len();
    let ghost b = strip_sign(v@);
    let (digits, fs, fr_end) = scan_mantissa(v, i);
    if digits.len() == 0 {
        return FloatClass::NotFloat;
    }
    let mut shift: i128 = 0 - (fr_end as i128 - fs as i128);
    if fr_end == n {
        return FloatClass::Finite { neg, digits, shift };
    }
    let ce = v.get_char(fr_end);
    if !(ce == 'e' || ce == 'E') {
        return FloatClass::NotFloat;
    }
    let mut m = fr_end + 1;
    let mut eneg = false;
    if m < n {
        let cs = v.get_char(m);
        if cs == '+' || cs == '-' {
            eneg = cs == '-';
            m = m + 1;
        }
    }
    let ghost es = b.skip(mant_end(b) + 1);
    proof {
        assert(es =~= v@.skip(fr_end + 1));
        assert(forall|t: int| 0 <= t < es.len() ==> es[t] == v@[fr_end + 1 + t]);
        assert(exp_digits(es) =~= v@.skip(m as int));
        assert((es.len() > 0 && es[0] == '-') == eneg);
    }
    let mut ed: Vec<char> = Vec::new();
    let e_end = scan_digits(v, m, &mut ed);
    if e_end < n || e_end == m {
        proof {
            lemma_digit_prefix(exp_digits(es));
        }
        return FloatClass::NotFloat;
    }
    proof {
        assert(ed@ =~= exp_digits(es));
        assert(digit_prefix_len(exp_digits(es)) == exp_digits(es).len());
    }
    let ev = exp_value_clamped(&ed);
    if eneg {
        shift = 0 - (ev as i128) - (fr_end as i128 - fs as i128);
    } else {
        shift = (ev as i128) - (fr_end as i128 - fs as i128);
    }
    FloatClass::Finite { neg, digits, shift }
}

/// Scan a text into its float class.
fn classify_float(v: &str) -> (r: FloatClass)
    ensures
        match r {
            FloatClass::NotFloat => !float_text_ok(v@),
            FloatClass::NotANumber => float_text_ok(v@) && is_nan_text(strip_sign(v@)),
            FloatClass::Infinite { neg } => float_text_ok(v@) && is_inf_text(strip_sign(v@))
                && neg == has_minus(v@),
            FloatClass::Finite { neg, digits, shift } => float_text_ok(v@) && finite_ok(
                strip_sign(v@),
            ) && !is_inf_text(strip_sign(v@)) && !is_nan_text(strip_sign(v@)) && neg == has_minus(
                v@,
            ) && digits@ == mant_digits(strip_sign(v@)) && shift as int == shift_of(strip_sign(v@))
                && (forall|t: int| 0 <= t < digits@.len() ==> is_digit(#[trigger] digits@[t])),
        },
{
    let n = v.unicode_len();
    let mut i: usize = 0;
    let mut neg = false;
    if n > 0 {
        let c0 = v.get_char(0);
        if c0 == '+' || c0 == '-' {
            neg = c0 == '-';
            i = 1;
        }
    }
    proof {
        assert(strip_sign(v@) =~= v@.skip(i as int));
        assert(neg == has_minus(v@));
    }
    if inf_check(v, i) {
        return FloatClass::Infinite { neg };
    }
    if nan_check(v, i) {
        return FloatClass::NotANumber;
    }
    classify_finite(v, i, neg)
}

/// Whether the text is accepted as a floating-point number.
pub fn float_text_parses(v: &str) -> (r: bool)
    ensures
        r == float_text_ok(v@),
{
    match classify_float(v) {
        FloatClass::NotFloat => false,
        _ => true,
    }
}

/// The integer the text truncates to, when it parses as a float.
#[verifier::rlimit(60)]
pub fn float_text_truncate(v: &str) -> (r: Option<i64>)
    ensures
        r == float_text_trunc(v@),
        r is Some <==> float_text_ok(v@),
{
    match classify_float(v) {
        FloatClass::NotFloat => None,
        FloatClass::NotANumber => Some(0),
        FloatClass::Infinite { neg } => Some(
            if neg {
                i64::MIN
            } else {
                i64::MAX
            },
        ),
        FloatClass::Finite { neg, digits, shift } => {
            let ghost b = strip_sign(v@);
            let mut d = digits;
            let mut zeros: u64 = 0;
            if shift >= 0 {
                proof {
                    lemma_shift_bound(b);
                    assert(shift <= EXP_CLAMP as int);
                }
                zeros = shift as u64;
                proof {
                    assert(trunc_digit_seq(d@, shift as int) =~= d@ + zero_pad(zeros as int));
                }
            } else if (d.len() as i128) + shift <= 0 {
                proof {
                    assert(trunc_digit_seq(d@, shift as int) =~= Seq::<char>::empty());
                    assert(dec_val(Seq::<char>::empty()) == 0);
                    assert(clamp_i64(neg, 0) == 0i64);
                }
                return Some(0);
            } else {
                let keep = ((d.len() as i128) + shift) as usize;
                let ghost before = d@;
                d.truncate(keep);
                proof {
                    assert(d@ =~= trunc_digit_seq(before, shift as int));
                    assert(d@ + zero_pad(0) =~= d@);
                }
            }
            let (mag, over) = sat_mag(&d, zeros);
            if over {
                Some(
                    if neg {
                        i64::MIN
                    } else {
                        i64::MAX
                    },
                )
            } else {
                if neg {
                    if mag == MAG_CAP {
                        Some(i64::MIN)
                    } else {
                        Some(0 - (mag as i64))
                    }
                } else {
                    if mag == MAG_CAP {
                        Some(i64::MAX)
                    } else {
                        Some(mag as i64)
                    }
                }
            }
        },
    }
}

} // verus!
