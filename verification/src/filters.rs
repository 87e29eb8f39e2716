//! The presentation filters: pure functions from a JSON scalar and a
//! set of recognized options to a rendered scalar, applied by the
//! template engine while a reply is being built.
use vstd::prelude::*;

use crate::escape::{escape_chars, escape_seq};
use crate::fixed::{Fixed, E12, E16};
use crate::fmt::{fmt2_chars, fmt2_seq, plain_chars, plain_seq};
use crate::parse::{parse_number, parse_ok, parsed_fixed};
use crate::text::{chars_to_string, string_to_chars};

verus! {

/// A JSON scalar, as the filters see one. Numbers are carried in the
/// fixed-point model of [`Fixed`].
#[derive(Clone, Debug)]
pub enum Scalar {
    Null,
    Bool(bool),
    Num(Fixed),
    Str(String),
}

impl Scalar {
    /// Validity: a numeric scalar is in canonical form.
    pub open spec fn wf(self) -> bool {
        match self {
            Scalar::Num(x) => x.wf(),
            _ => true,
        }
    }
}

/// The options a filter recognizes, already decoded from the template
/// engine's argument map. Flag options count as set when present.
#[derive(Clone, Debug)]
pub struct FilterArgs {
    /// Prepend an explicit `+` to non-negative numbers.
    pub display_positive: bool,
    /// Prefer the minimal layout for small magnitudes.
    pub auto: bool,
    /// Suffix appended after scaling by 10^4.
    pub e4: Option<String>,
    /// Suffix appended after scaling by 10^8.
    pub e8: Option<String>,
    /// Symbols for rising values, mildest first.
    pub positive: Option<Vec<String>>,
    /// Symbols for falling values, mildest first.
    pub negative: Option<Vec<String>>,
}

impl Default for FilterArgs {
    /// No options set.
    fn default() -> (r: FilterArgs)
        ensures
            !r.display_positive,
            !r.auto,
            r.e4 is None,
            r.e8 is None,
            r.positive is None,
            r.negative is None,
    {
        FilterArgs {
            display_positive: false,
            auto: false,
            e4: None,
            e8: None,
            positive: None,
            negative: None,
        }
    }
}

/// Why a filter rejected its input.
#[derive(Clone, Copy, Debug, PartialEq, Eq, Structural)]
pub enum FormatError {
    /// The input scalar was not a number.
    NotANumber,
    /// The input scalar was not a string.
    NotAString,
    /// The string did not parse as a number the model can hold.
    ParseFailed,
    /// The `positive` symbol sequence was absent.
    MissingPositive,
    /// The `negative` symbol sequence was absent.
    MissingNegative,
}

/// The characters of an optional suffix: absent means empty.
pub open spec fn opt_str(o: Option<String>) -> Seq<char> {
    match o {
        Some(s) => s@,
        None => Seq::empty(),
    }
}

/// What `fmt2f` renders: two decimals, or the minimal layout when the
/// `auto` option is set and the magnitude is below ten.
pub open spec fn fmt2f_seq(x: Fixed, plus: bool, auto: bool) -> Seq<char> {
    if auto && x.units < 1000000000 {
        plain_seq(x.neg, x.units as nat, plus)
    } else {
        fmt2_seq(x.neg, x.units as nat, plus)
    }
}

/// Formats a number with two decimal places; `display_positive` adds an
/// explicit sign, and `auto` falls back to the minimal layout for
/// magnitudes under ten.
pub fn filter_fmt2f(val: &Scalar, args: &FilterArgs) -> (r: Result<Scalar, FormatError>)
    requires
        val.wf(),
    ensures
        match *val {
            Scalar::Num(x) => r matches Ok(Scalar::Str(s)) && s@ == fmt2f_seq(
                x,
                args.display_positive,
                args.auto,
            ),
            _ => r == Err::<Scalar, FormatError>(FormatError::NotANumber),
        },
{
    match val {
        Scalar::Num(x) => {
            let chars = if args.auto && x.units < 1000000000 {
                plain_chars(x.neg, x.units, args.display_positive)
            } else {
                fmt2_chars(x.neg, x.units, args.display_positive)
            };
            Ok(Scalar::Str(chars_to_string(&chars)))
        },
        _ => Err(FormatError::NotANumber),
    }
}

/// What `qoutevolume` renders: over 10^8 the value is scaled down by
/// 10^8 and the `e8` suffix appended; over 10^4, scaled by 10^4 with
/// the `e4` suffix; otherwise plain two decimals.
pub open spec fn qoutevolume_seq(x: Fixed, e8_suffix: Seq<char>, e4_suffix: Seq<char>) -> Seq<
    char,
> {
    if x.val_e8() > E16 {
        fmt2_seq(x.spec_div_e8().neg, x.spec_div_e8().units as nat, false) + e8_suffix
    } else if x.val_e8() > E12 {
        fmt2_seq(x.spec_div_e4().neg, x.spec_div_e4().units as nat, false) + e4_suffix
    } else {
        fmt2_seq(x.neg, x.units as nat, false)
    }
}

/// Scales a trading volume to a compact unit: amounts over 10^8 (10^4)
/// are divided down and marked with the configured suffix.
pub fn filter_qoutevolume(val: &Scalar, args: &FilterArgs) -> (r: Result<Scalar, FormatError>)
    requires
        val.wf(),
    ensures
        match *val {
            Scalar::Num(x) => r matches Ok(Scalar::Str(s)) && s@ == qoutevolume_seq(
                x,
                opt_str(args.e8),
                opt_str(args.e4),
            ),
            _ => r == Err::<Scalar, FormatError>(FormatError::NotANumber),
        },
{
    match val {
        Scalar::Num(x) => {
            if !x.neg && x.units > E16 {
                let d = x.div_e8();
                let mut s = chars_to_string(&fmt2_chars(d.neg, d.units, false));
                if let Some(suffix) = &args.e8 {
                    s.append(suffix.as_str());
                }
                Ok(Scalar::Str(s))
            } else if !x.neg && x.units > E12 {
                let d = x.div_e4();
                let mut s = chars_to_string(&fmt2_chars(d.neg, d.units, false));
                if let Some(suffix) = &args.e4 {
                    s.append(suffix.as_str());
                }
                Ok(Scalar::Str(s))
            } else {
                let s = chars_to_string(&fmt2_chars(x.neg, x.units, false));
                Ok(Scalar::Str(s))
            }
        },
        _ => Err(FormatError::NotANumber),
    }
}

/// Converts a satoshi amount to whole coins: the value divided by 10^8,
/// truncated toward zero at the model's eighth decimal place.
pub fn filter_stob(val: &Scalar, args: &FilterArgs) -> (r: Result<Scalar, FormatError>)
    requires
        val.wf(),
    ensures
        match *val {
            Scalar::Num(x) => r == Ok::<Scalar, FormatError>(Scalar::Num(x.spec_div_e8())),
            _ => r == Err::<Scalar, FormatError>(FormatError::NotANumber),
        },
{
    let _ = args;
    match val {
        Scalar::Num(x) => Ok(Scalar::Num(x.div_e8())),
        _ => Err(FormatError::NotANumber),
    }
}

/// Parses a string scalar as a decimal number; anything else, and any
/// string outside the accepted grammar or range, is rejected.
pub fn filter_atof(val: &Scalar, args: &FilterArgs) -> (r: Result<Scalar, FormatError>)
    requires
        val.wf(),
    ensures
        match *val {
            Scalar::Str(t) => (if parse_ok(t@) {
                r matches Ok(Scalar::Num(x)) && x == parsed_fixed(t@)
            } else {
                r == Err::<Scalar, FormatError>(FormatError::ParseFailed)
            }),
            _ => r == Err::<Scalar, FormatError>(FormatError::NotAString),
        },
{
    let _ = args;
    match val {
        Scalar::Str(t) => match parse_number(t.as_str()) {
            Ok(x) => Ok(Scalar::Num(x)),
            Err(e) => Err(e),
        },
        _ => Err(FormatError::NotAString),
    }
}

/// The magnitude bucket for the emoji filter: below ten the whole part
/// is halved, from ten on it lands past the first five buckets.
pub open spec fn emoji_bucket(ip: nat) -> nat {
    if ip < 10 {
        ip / 2
    } else {
        4 + ip / 10
    }
}

/// The symbol index: the bucket, clamped to the last valid index.
pub open spec fn emoji_index(ip: nat, len: nat) -> nat
    recommends
        len > 0,
{
    if emoji_bucket(ip) < (len - 1) as nat {
        emoji_bucket(ip)
    } else {
        (len - 1) as nat
    }
}

/// Picks a sentiment symbol: the `positive` sequence for rising values,
/// `negative` otherwise, indexed by magnitude bucket and clamped to the
/// sequence's end; an empty sequence yields an empty string.
pub fn filter_emoji(val: &Scalar, args: &FilterArgs) -> (r: Result<Scalar, FormatError>)
    requires
        val.wf(),
    ensures
        args.positive is None ==> r == Err::<Scalar, FormatError>(FormatError::MissingPositive),
        args.positive is Some && args.negative is None ==> r == Err::<Scalar, FormatError>(
            FormatError::MissingNegative,
        ),
        args.positive matches Some(pos) ==> args.negative matches Some(neg) ==> match *val {
            Scalar::Num(x) => {
                let chosen = if x.val_e8() > 0 {
                    pos@
                } else {
                    neg@
                };
                if chosen.len() == 0 {
                    r matches Ok(Scalar::Str(s)) && s@.len() == 0
                } else {
                    r matches Ok(Scalar::Str(s)) && s@ == chosen[emoji_index(
                        (x.units / crate::fixed::E8) as nat,
                        chosen.len(),
                    ) as int]@
                }
            },
            _ => r == Err::<Scalar, FormatError>(FormatError::NotANumber),
        },
{
    let pos = match &args.positive {
        Some(v) => v,
        None => {
            return Err(FormatError::MissingPositive);
        },
    };
    let neg = match &args.negative {
        Some(v) => v,
        None => {
            return Err(FormatError::MissingNegative);
        },
    };
    match val {
        Scalar::Num(x) => {
            let chosen: &Vec<String> = if x.is_pos() {
                pos
            } else {
                neg
            };
            if chosen.len() == 0 {
                return Ok(Scalar::Str(String::new()));
            }
            let ip = x.int_abs();
            let bucket: u128 = if ip < 10 {
                ip / 2
            } else {
                4 + ip / 10
            };
            let last: u128 = (chosen.len() - 1) as u128;
            let idx: usize = if bucket < last {
                bucket as usize
            } else {
                last as usize
            };
            Ok(Scalar::Str(chosen[idx].clone()))
        },
        _ => Err(FormatError::NotANumber),
    }
}

/// Escapes every character the chat transport's markdown dialect
/// reserves, so the string renders as literal text.
pub fn filter_escape_md(val: &Scalar, args: &FilterArgs) -> (r: Result<Scalar, FormatError>)
    requires
        val.wf(),
    ensures
        match *val {
            Scalar::Str(t) => r matches Ok(Scalar::Str(s)) && s@ == escape_seq(t@),
            _ => r == Err::<Scalar, FormatError>(FormatError::NotAString),
        },
{
    let _ = args;
    match val {
        Scalar::Str(t) => {
            let chars = string_to_chars(t.as_str());
            let escaped = escape_chars(&chars);
            Ok(Scalar::Str(chars_to_string(&escaped)))
        },
        _ => Err(FormatError::NotAString),
    }
}

} // verus!
