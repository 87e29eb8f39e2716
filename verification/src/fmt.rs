//! Decimal rendering of fixed-point values: digit sequences, zero
//! padding, trailing-zero stripping, and the two layouts the filters
//! use (fixed two-decimal and minimal "natural" form).
use vstd::prelude::*;

verus! {

/// The decimal digit character for `d` (meaningful for `d < 10`).
pub open spec fn digit_char(d: nat) -> char
    recommends
        d < 10,
{
    (48 + d) as u8 as char
}

/// The decimal digits of `n`, most significant first, without leading
/// zeros (`0` renders as `"0"`).
pub open spec fn digits_of(n: nat) -> Seq<char>
    decreases n,
{
    if n < 10 {
        seq![digit_char(n)]
    } else {
        digits_of(n / 10).push(digit_char(n % 10))
    }
}

/// The low `width` decimal digits of `n`, zero padded on the left.
pub open spec fn padded_digits(n: nat, width: nat) -> Seq<char>
    decreases width,
{
    if width == 0 {
        Seq::empty()
    } else {
        padded_digits(n / 10, (width - 1) as nat).push(digit_char(n % 10))
    }
}

/// `s` with every trailing `'0'` removed.
pub open spec fn strip_zeros(s: Seq<char>) -> Seq<char>
    decreases s.len(),
{
    if s.len() == 0 || s.last() != '0' {
        s
    } else {
        strip_zeros(s.drop_last())
    }
}

/// The sign prefix: `-` for negative values, `+` for the rest when an
/// explicit sign was asked for, nothing otherwise.
pub open spec fn sign_seq(neg: bool, plus: bool) -> Seq<char> {
    if neg {
        seq!['-']
    } else if plus {
        seq!['+']
    } else {
        Seq::empty()
    }
}

/// The magnitude in units of 10^-8, rounded to hundredths: the result
/// counts hundredths. Rounding is half away from zero.
pub open spec fn round2(units: nat) -> nat {
    if units % 1000000 >= 500000 {
        units / 1000000 + 1
    } else {
        units / 1000000
    }
}

/// The fixed two-decimal layout: sign, whole part, `.`, two digits of
/// the rounded fraction.
pub open spec fn fmt2_seq(neg: bool, units: nat, plus: bool) -> Seq<char> {
    sign_seq(neg, plus) + digits_of(round2(units) / 100) + seq!['.'] + padded_digits(
        round2(units) % 100,
        2,
    )
}

/// The minimal layout: sign and whole part, and the fraction only when
/// it is non-zero, with trailing zeros stripped.
pub open spec fn plain_seq(neg: bool, units: nat, plus: bool) -> Seq<char> {
    sign_seq(neg, plus) + digits_of(units / 100000000) + (if units % 100000000 == 0 {
        Seq::<char>::empty()
    } else {
        seq!['.'] + strip_zeros(padded_digits(units % 100000000, 8))
    })
}

pub fn digit_char_exec(d: u8) -> (c: char)
    requires
        d < 10,
    ensures
        c == digit_char(d as nat),
{
    match d {
        0 => '0',
        1 => '1',
        2 => '2',
        3 => '3',
        4 => '4',
        5 => '5',
        6 => '6',
        7 => '7',
        8 => '8',
        _ => '9',
    }
}

/// Appends the digits of `n` to `out`.
pub fn push_digits(out: &mut Vec<char>, n: u128)
    ensures
        final(out)@ == old(out)@ + digits_of(n as nat),
    decreases n,
{
    if n < 10 {
        out.push(digit_char_exec(n as u8));
        proof {
            assert(final(out)@ =~= old(out)@ + digits_of(n as nat));
        }
    } else {
        push_digits(out, n / 10);
        out.push(digit_char_exec((n % 10) as u8));
        proof {
            assert(final(out)@ =~= old(out)@ + digits_of(n as nat));
        }
    }
}

/// Appends the low `width` digits of `n` to `out`, zero padded.
pub fn push_padded(out: &mut Vec<char>, n: u128, width: u32)
    ensures
        final(out)@ == old(out)@ + padded_digits(n as nat, width as nat),
    decreases width,
{
    if width == 0 {
        proof {
            assert(final(out)@ =~= old(out)@ + padded_digits(n as nat, 0));
        }
    } else {
        push_padded(out, n / 10, width - 1);
        out.push(digit_char_exec((n % 10) as u8));
        proof {
            assert(final(out)@ =~= old(out)@ + padded_digits(n as nat, width as nat));
        }
    }
}

fn push_sign(out: &mut Vec<char>, neg: bool, plus: bool)
    ensures
        final(out)@ == old(out)@ + sign_seq(neg, plus),
{
    if neg {
        out.push('-');
    } else if plus {
        out.push('+');
    }
    proof {
        assert(final(out)@ =~= old(out)@ + sign_seq(neg, plus));
    }
}

/// Renders `units` of 10^-8 in the fixed two-decimal layout.
pub fn fmt2_chars(neg: bool, units: u128, plus: bool) -> (v: Vec<char>)
    ensures
        v@ == fmt2_seq(neg, units as nat, plus),
{
    let mut out: Vec<char> = Vec::new();
    push_sign(&mut out, neg, plus);
    let q = if units % 1000000 >= 500000 {
        units / 1000000 + 1
    } else {
        units / 1000000
    };
    proof {
        assert(q == round2(units as nat));
    }
    push_digits(&mut out, q / 100);
    out.push('.');
    push_padded(&mut out, q % 100, 2);
    proof {
        assert(out@ =~= fmt2_seq(neg, units as nat, plus));
    }
    out
}

/// Renders `units` of 10^-8 in the minimal layout.
pub fn plain_chars(neg: bool, units: u128, plus: bool) -> (v: Vec<char>)
    ensures
        v@ == plain_seq(neg, units as nat, plus),
{
    let mut out: Vec<char> = Vec::new();
    push_sign(&mut out, neg, plus);
    push_digits(&mut out, units / 100000000);
    let frac = units % 100000000;
    if frac != 0 {
        out.push('.');
        let mut f: Vec<char> = Vec::new();
        push_padded(&mut f, frac, 8);
        strip_zeros_exec(&mut f);
        out.append(&mut f);
    }
    proof {
        assert(out@ =~= plain_seq(neg, units as nat, plus));
    }
    out
}

/// Removes trailing `'0'` characters from `out`.
pub fn strip_zeros_exec(out: &mut Vec<char>)
    ensures
        final(out)@ == strip_zeros(old(out)@),
{
    loop
        invariant
            strip_zeros(out@) == strip_zeros(old(out)@),
        decreases out@.len(),
    {
        if out.len() == 0 {
            return ;
        }
        let c = out[out.len() - 1];
        if c != '0' {
            return ;
        }
        proof {
            assert(out@.last() == '0');
        }
        out.pop();
    }
}

} // verus!
