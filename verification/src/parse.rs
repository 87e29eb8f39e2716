//! Parsing of decimal number strings into the fixed-point model: an
//! optional sign, digits with an optional fraction, and an optional
//! exponent of up to eighteen digits. The accepted values are exactly
//! those whose magnitude in 10^-8 units fits the model; digits beyond
//! the eighth decimal place are truncated toward zero.
use vstd::prelude::*;

use crate::filters::FormatError;
use crate::fixed::Fixed;

verus! {

pub open spec fn is_digit(c: char) -> bool {
    '0' <= c && c <= '9'
}

/// The numeric value of a digit character.
pub open spec fn digit_val(c: char) -> nat
    recommends
        is_digit(c),
{
    ((c as u32) - 48) as nat
}

pub open spec fn all_digits(s: Seq<char>) -> bool {
    forall|i: int| 0 <= i < s.len() ==> is_digit(s[i])
}

/// The value of a digit string, most significant digit first.
pub open spec fn digits_val(s: Seq<char>) -> nat
    decreases s.len(),
{
    if s.len() == 0 {
        0
    } else {
        digits_val(s.drop_last()) * 10 + digit_val(s.last())
    }
}

pub open spec fn pow10(n: nat) -> nat
    decreases n,
{
    if n == 0 {
        1
    } else {
        10 * pow10((n - 1) as nat)
    }
}

/// The first position in `s`, at `i` or later, holding `c1` or `c2`;
/// the length when there is none.
pub open spec fn find_from(s: Seq<char>, i: int, c1: char, c2: char) -> int
    decreases s.len() - i,
{
    if i < 0 || i >= s.len() {
        s.len() as int
    } else if s[i] == c1 || s[i] == c2 {
        i
    } else {
        find_from(s, i + 1, c1, c2)
    }
}

/// Does `s` open with an explicit sign?
pub open spec fn has_sign(s: Seq<char>) -> bool {
    s.len() > 0 && (s[0] == '+' || s[0] == '-')
}

/// Does `s` open with a minus sign?
pub open spec fn leads_neg(s: Seq<char>) -> bool {
    s.len() > 0 && s[0] == '-'
}

/// `s` with its sign removed.
pub open spec fn body_of(s: Seq<char>) -> Seq<char> {
    if has_sign(s) {
        s.skip(1)
    } else {
        s
    }
}

/// Where the exponent marker stands in the body (the length if absent).
pub open spec fn exp_pos(b: Seq<char>) -> int {
    find_from(b, 0, 'e', 'E')
}

pub open spec fn has_exp(b: Seq<char>) -> bool {
    exp_pos(b) < b.len()
}

/// The mantissa: the body up to the exponent marker.
pub open spec fn mant_of(b: Seq<char>) -> Seq<char> {
    b.take(exp_pos(b))
}

/// The exponent text after the marker.
pub open spec fn exp_str(b: Seq<char>) -> Seq<char> {
    b.skip(exp_pos(b) + 1)
}

/// Where the decimal point stands in the mantissa.
pub open spec fn dot_pos(m: Seq<char>) -> int {
    find_from(m, 0, '.', '.')
}

pub open spec fn int_part(m: Seq<char>) -> Seq<char> {
    m.take(dot_pos(m))
}

pub open spec fn frac_part(m: Seq<char>) -> Seq<char> {
    if dot_pos(m) < m.len() {
        m.skip(dot_pos(m) + 1)
    } else {
        Seq::empty()
    }
}

/// A mantissa is digits with at most one point and at least one digit.
pub open spec fn valid_mantissa(m: Seq<char>) -> bool {
    &&& all_digits(int_part(m))
    &&& all_digits(frac_part(m))
    &&& int_part(m).len() + frac_part(m).len() >= 1
}

/// An exponent is an optional sign and one to eighteen digits.
pub open spec fn valid_exp(e: Seq<char>) -> bool {
    &&& 1 <= body_of(e).len() <= 18
    &&& all_digits(body_of(e))
}

/// The whole grammar: sign, mantissa, optional exponent.
pub open spec fn valid_number(s: Seq<char>) -> bool {
    &&& valid_mantissa(mant_of(body_of(s)))
    &&& (has_exp(body_of(s)) ==> valid_exp(exp_str(body_of(s))))
}

/// The mantissa's digits read as one integer.
pub open spec fn mant_val(m: Seq<char>) -> nat {
    digits_val(int_part(m) + frac_part(m))
}

/// The signed exponent value.
pub open spec fn exp_val(b: Seq<char>) -> int {
    if has_exp(b) {
        let e = exp_str(b);
        if leads_neg(e) {
            -(digits_val(body_of(e)) as int)
        } else {
            digits_val(body_of(e)) as int
        }
    } else {
        0
    }
}

/// The power of ten between the mantissa digits and 10^-8 units.
pub open spec fn scale_k(s: Seq<char>) -> int {
    8 + exp_val(body_of(s)) - frac_part(mant_of(body_of(s))).len()
}

/// The magnitude in 10^-8 units, truncated toward zero.
pub open spec fn parsed_units(s: Seq<char>) -> nat {
    let m = mant_val(mant_of(body_of(s)));
    let k = scale_k(s);
    if k >= 0 {
        m * pow10(k as nat)
    } else {
        m / pow10((-k) as nat)
    }
}

/// Whether the magnitude fits the model's 128-bit unit count.
pub open spec fn number_fits(s: Seq<char>) -> bool {
    &&& mant_val(mant_of(body_of(s))) <= u128::MAX
    &&& (scale_k(s) >= 0 ==> mant_val(mant_of(body_of(s))) * pow10(scale_k(s) as nat)
        <= u128::MAX)
}

pub open spec fn parse_ok(s: Seq<char>) -> bool {
    valid_number(s) && number_fits(s)
}

/// The parsed value, in canonical form.
pub open spec fn parsed_fixed(s: Seq<char>) -> Fixed {
    Fixed { neg: leads_neg(s) && parsed_units(s) > 0, units: parsed_units(s) as u128 }
}

proof fn lemma_pow10_pos(n: nat)
    ensures
        pow10(n) >= 1,
    decreases n,
{
    if n > 0 {
        lemma_pow10_pos((n - 1) as nat);
    }
}

proof fn lemma_pow10_mono(a: nat, b: nat)
    requires
        a <= b,
    ensures
        pow10(a) <= pow10(b),
    decreases b,
{
    if a < b {
        lemma_pow10_mono(a, (b - 1) as nat);
        lemma_pow10_pos((b - 1) as nat);
    }
}

proof fn lemma_pow10_values()
    ensures
        pow10(18) == 1_000_000_000_000_000_000,
        pow10(38) == 100_000_000_000_000_000_000_000_000_000_000_000_000,
        pow10(39) == 1_000_000_000_000_000_000_000_000_000_000_000_000_000,
{
    reveal_with_fuel(pow10, 40);
}

/// On division with a positive divisor, comparing against the quotient
/// decides whether the product fits under `c`.
proof fn lemma_div_mul_bounds(m: nat, p: nat, c: nat)
    requires
        p > 0,
    ensures
        m > c / p ==> m * p > c,
        m <= c / p ==> m * p <= c,
{
    let q = c / p;
    let r = c % p;
    assert(q * p + r == c && r < p && q >= 0) by (nonlinear_arith)
        requires
            p > 0,
            q == c / p,
            r == c % p,
    ;
    assert(m > q ==> m * p > c) by (nonlinear_arith)
        requires
            p > 0,
            q * p + r == c,
            r < p,
    ;
    assert(m <= q ==> m * p <= c) by (nonlinear_arith)
        requires
            p > 0,
            q * p + r == c,
            r < p,
    ;
}

proof fn lemma_div_small(m: nat, p: nat)
    requires
        m < p,
    ensures
        m / p == 0,
{
    assert(m / p == 0) by (nonlinear_arith)
        requires
            0 <= m < p,
    ;
}

/// A digit string's value is below the power of ten of its length.
proof fn lemma_digits_val_bound(s: Seq<char>)
    requires
        all_digits(s),
    ensures
        digits_val(s) < pow10(s.len()),
    decreases s.len(),
{
    if s.len() == 0 {
    } else {
        assert(all_digits(s.drop_last()));
        lemma_digits_val_bound(s.drop_last());
        assert(digit_val(s.last()) <= 9);
    }
}

/// A prefix of a digit string never exceeds the whole string's value.
proof fn lemma_digits_val_prefix_le(s: Seq<char>, i: int)
    requires
        0 <= i <= s.len(),
    ensures
        digits_val(s.take(i)) <= digits_val(s),
    decreases s.len(),
{
    if i == s.len() {
        assert(s.take(i) =~= s);
    } else {
        assert(s.drop_last().take(i) =~= s.take(i));
        lemma_digits_val_prefix_le(s.drop_last(), i);
    }
}

/// The elements of `v` from `from` (inclusive) to `to` (exclusive).
fn sub_vec(v: &Vec<char>, from: usize, to: usize) -> (r: Vec<char>)
    requires
        from <= to <= v@.len(),
    ensures
        r@ == v@.subrange(from as int, to as int),
{
    let mut r: Vec<char> = Vec::new();
    let mut i: usize = from;
    while i < to
        invariant
            from <= i <= to <= v@.len(),
            r@ == v@.subrange(from as int, i as int),
        decreases to - i,
    {
        r.push(v[i]);
        proof {
            assert(r@ =~= v@.subrange(from as int, i + 1));
        }
        i += 1;
    }
    r
}

/// The first position holding `c1` or `c2`, or the length.
fn find_char2(v: &Vec<char>, c1: char, c2: char) -> (r: usize)
    ensures
        r == find_from(v@, 0, c1, c2),
        r <= v@.len(),
{
    let mut i: usize = 0;
    while i < v.len()
        invariant
            0 <= i <= v@.len(),
            find_from(v@, 0, c1, c2) == find_from(v@, i as int, c1, c2),
        decreases v@.len() - i,
    {
        let c = v[i];
        if c == c1 || c == c2 {
            return i;
        }
        i += 1;
    }
    v.len()
}

fn check_digits(v: &Vec<char>) -> (r: bool)
    ensures
        r == all_digits(v@),
{
    let mut i: usize = 0;
    while i < v.len()
        invariant
            0 <= i <= v@.len(),
            forall|j: int| 0 <= j < i ==> is_digit(v@[j]),
        decreases v@.len() - i,
    {
        let c = v[i];
        if !(c >= '0' && c <= '9') {
            return false;
        }
        i += 1;
    }
    true
}

/// The value of up to eighteen digits, which always fits.
fn digits_to_u64(v: &Vec<char>) -> (r: u64)
    requires
        all_digits(v@),
        v@.len() <= 18,
    ensures
        r == digits_val(v@),
        r < 1_000_000_000_000_000_000,
{
    proof {
        lemma_pow10_values();
        lemma_digits_val_bound(v@);
        lemma_pow10_mono(v@.len(), 18);
    }
    let mut acc: u64 = 0;
    let mut i: usize = 0;
    while i < v.len()
        invariant
            0 <= i <= v@.len() <= 18,
            all_digits(v@),
            acc == digits_val(v@.take(i as int)),
        decreases v@.len() - i,
    {
        let c = v[i];
        proof {
            assert(is_digit(v@[i as int]));
            lemma_digits_val_bound(v@.take(i as int));
            lemma_pow10_mono(v@.take(i as int).len(), 17);
            lemma_pow10_values();
            assert(v@.take(i + 1).drop_last() =~= v@.take(i as int));
        }
        let d = (c as u32 - 48) as u64;
        acc = acc * 10 + d;
        i += 1;
    }
    proof {
        assert(v@.take(v@.len() as int) =~= v@);
        lemma_digits_val_bound(v@);
        lemma_pow10_mono(v@.len(), 18);
        lemma_pow10_values();
    }
    acc
}

/// The value of a digit string, or nothing where it exceeds the model's
/// 128-bit unit count.
fn digits_to_u128(v: &Vec<char>) -> (r: Option<u128>)
    requires
        all_digits(v@),
    ensures
        r matches Some(m) ==> m == digits_val(v@),
        r is None <==> digits_val(v@) > u128::MAX,
{
    let mut acc: u128 = 0;
    let mut i: usize = 0;
    while i < v.len()
        invariant
            0 <= i <= v@.len(),
            all_digits(v@),
            acc == digits_val(v@.take(i as int)),
        decreases v@.len() - i,
    {
        let c = v[i];
        proof {
            assert(is_digit(v@[i as int]));
            assert(v@.take(i + 1).drop_last() =~= v@.take(i as int));
        }
        let d = (c as u32 - 48) as u128;
        let shifted = match acc.checked_mul(10) {
            Some(x) => x,
            None => {
                proof {
                    lemma_digits_val_prefix_le(v@, i + 1);
                }
                return None;
            },
        };
        acc = match shifted.checked_add(d) {
            Some(x) => x,
            None => {
                proof {
                    lemma_digits_val_prefix_le(v@, i + 1);
                }
                return None;
            },
        };
        i += 1;
    }
    proof {
        assert(v@.take(v@.len() as int) =~= v@);
    }
    Some(acc)
}

/// Parses a decimal number string into the fixed-point model: exactly
/// the strings of the grammar above whose magnitude the model can hold
/// are accepted.
#[verifier::rlimit(80)]
pub fn parse_number(s: &str) -> (r: Result<Fixed, FormatError>)
    ensures
        parse_ok(s@) ==> (r matches Ok(x) && x == parsed_fixed(s@)),
        !parse_ok(s@) ==> r == Err::<Fixed, FormatError>(FormatError::ParseFailed),
{
    let chars = crate::text::string_to_chars(s);
    let n = chars.len();
    let has_s = n > 0 && (chars[0] == '+' || chars[0] == '-');
    let neg = has_s && chars[0] == '-';
    let start: usize = if has_s {
        1
    } else {
        0
    };
    proof {
        assert(has_s == has_sign(s@));
        assert(neg == leads_neg(s@));
    }
    let body = sub_vec(&chars, start, n);
    proof {
        assert(body@ =~= body_of(s@));
    }
    let bn = body.len();
    let ep = find_char2(&body, 'e', 'E');
    let mant = sub_vec(&body, 0, ep);
    proof {
        assert(mant@ =~= mant_of(body_of(s@)));
    }
    let mn = mant.len();
    let dp = find_char2(&mant, '.', '.');
    let int_v = sub_vec(&mant, 0, dp);
    let frac_v: Vec<char> = if dp < mn {
        sub_vec(&mant, dp + 1, mn)
    } else {
        Vec::new()
    };
    proof {
        assert(int_v@ =~= int_part(mant_of(body_of(s@))));
        assert(frac_v@ =~= frac_part(mant_of(body_of(s@))));
    }
    if !check_digits(&int_v) {
        return Err(FormatError::ParseFailed);
    }
    if !check_digits(&frac_v) {
        return Err(FormatError::ParseFailed);
    }
    if int_v.len() == 0 && frac_v.len() == 0 {
        return Err(FormatError::ParseFailed);
    }
    let flen = frac_v.len();
    // the exponent, sign and magnitude
    let e_neg: bool;
    let e_mag: u64;
    if ep < bn {
        let etext = sub_vec(&body, ep + 1, bn);
        proof {
            assert(etext@ =~= exp_str(body_of(s@)));
        }
        let en = etext.len();
        let e_has_s = en > 0 && (etext[0] == '+' || etext[0] == '-');
        let e_start: usize = if e_has_s {
            1
        } else {
            0
        };
        e_neg = e_has_s && etext[0] == '-';
        let edig = sub_vec(&etext, e_start, en);
        proof {
            assert(edig@ =~= body_of(exp_str(body_of(s@))));
            assert(e_neg == leads_neg(exp_str(body_of(s@))));
        }
        if edig.len() < 1 || edig.len() > 18 {
            return Err(FormatError::ParseFailed);
        }
        if !check_digits(&edig) {
            return Err(FormatError::ParseFailed);
        }
        e_mag = digits_to_u64(&edig);
    } else {
        e_neg = false;
        e_mag = 0;
    }
    proof {
        assert(valid_number(s@));
    }
    // the mantissa digits as one integer
    let mut digits = int_v;
    let mut frac_tail = frac_v;
    digits.append(&mut frac_tail);
    proof {
        assert(digits@ =~= int_part(mant_of(body_of(s@))) + frac_part(mant_of(body_of(s@))));
    }
    let m = match digits_to_u128(&digits) {
        Some(m) => m,
        None => {
            return Err(FormatError::ParseFailed);
        },
    };
    let e_signed: i128 = if e_neg {
        -(e_mag as i128)
    } else {
        e_mag as i128
    };
    proof {
        assert(e_signed == exp_val(body_of(s@)));
    }
    let k: i128 = 8 + e_signed - (flen as i128);
    proof {
        assert(k == scale_k(s@));
    }
    let units: u128;
    if k >= 0 {
        if k > 38 {
            if m == 0 {
                units = 0;
                proof {
                    assert(mant_val(mant_of(body_of(s@))) * pow10(k as nat) == 0)
                        by (nonlinear_arith)
                        requires
                            mant_val(mant_of(body_of(s@))) == 0,
                    ;
                    assert(units == parsed_units(s@));
                }
            } else {
                proof {
                    lemma_pow10_values();
                    lemma_pow10_mono(39, k as nat);
                    assert(m * pow10(k as nat) >= 1 * pow10(k as nat)) by (nonlinear_arith)
                        requires
                            m >= 1,
                    ;
                    assert(!number_fits(s@));
                }
                return Err(FormatError::ParseFailed);
            }
        } else {
            let p = pow10_u128(k as u32);
            proof {
                lemma_pow10_pos(k as nat);
                lemma_div_mul_bounds(m as nat, p as nat, u128::MAX as nat);
            }
            if m > u128::MAX / p {
                return Err(FormatError::ParseFailed);
            }
            units = m * p;
            proof {
                assert((k as u32) as nat == k as nat);
                assert(units == parsed_units(s@));
            }
        }
    } else {
        let nk = -k;
        if nk > 38 {
            proof {
                lemma_pow10_values();
                lemma_pow10_mono(39, nk as nat);
                lemma_div_small(m as nat, pow10(nk as nat));
            }
            units = 0;
            proof {
                assert(nk as nat == (-k) as nat);
                assert(units == parsed_units(s@));
            }
        } else {
            let p = pow10_u128(nk as u32);
            proof {
                lemma_pow10_pos(nk as nat);
            }
            units = m / p;
            proof {
                assert((nk as u32) as nat == (-k) as nat);
                assert(units == parsed_units(s@));
            }
        }
    }
    Ok(Fixed::new(neg, units))
}

/// Ten to the `k`, for exponents the unit count can hold.
fn pow10_u128(k: u32) -> (r: u128)
    requires
        k <= 38,
    ensures
        r == pow10(k as nat),
{
    proof {
        lemma_pow10_values();
    }
    let mut acc: u128 = 1;
    let mut i: u32 = 0;
    while i < k
        invariant
            0 <= i <= k <= 38,
            acc == pow10(i as nat),
        decreases k - i,
    {
        proof {
            lemma_pow10_mono(i as nat, 37);
            lemma_pow10_values();
        }
        acc = acc * 10;
        i += 1;
    }
    acc
}

} // verus!
