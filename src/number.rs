//! Unsigned integers and decimal fractions read from text, without floats.
use vstd::prelude::*;
use crate::text::{
    all_digits, all_digits_of, digits_value, digits_value_of, find, find_in, slice,
};

verus! {

/// A non-negative decimal number: `mantissa / 10^scale`.
#[derive(Clone, Copy, Debug, PartialEq, Eq, Structural)]
pub struct Decimal {
    pub mantissa: u64,
    pub scale: u32,
}

/// Ten to the power `n`.
pub open spec fn pow10(n: nat) -> nat
    decreases n,
{
    if n == 0 {
        1
    } else {
        10 * pow10((n - 1) as nat)
    }
}

/// An unsigned 32-bit integer in the form that `u32::from_str` takes: an
/// optional `+` followed by one or more decimal digits.
pub open spec fn u32_of(s: Seq<char>) -> Option<u32> {
    let body = if s.len() > 0 && s[0] == '+' {
        s.drop_first()
    } else {
        s
    };
    if body.len() > 0 && all_digits(body) && digits_value(body) <= u32::MAX {
        Some(digits_value(body) as u32)
    } else {
        None
    }
}

/// The digits before the point of a decimal literal (all of `s` if it has no point).
pub open spec fn int_part(s: Seq<char>) -> Seq<char> {
    let dot = find(s, seq!['.']);
    if dot < 0 {
        s
    } else {
        s.take(dot)
    }
}

/// The digits after the point of a decimal literal (none if it has no point).
pub open spec fn frac_part(s: Seq<char>) -> Seq<char> {
    let dot = find(s, seq!['.']);
    if dot < 0 {
        Seq::empty()
    } else {
        s.skip(dot + 1)
    }
}

/// The accepted grammar of a decimal number is `digits ["." digits]`, with
/// at least one digit in all; no sign, exponent or special value. The
/// digits together must fit in a `u64`.
pub open spec fn decimal_of(s: Seq<char>) -> Option<Decimal> {
    let i = int_part(s);
    let f = frac_part(s);
    if all_digits(i) && all_digits(f) && i.len() + f.len() > 0 && digits_value(i + f)
        <= u64::MAX && f.len() <= u32::MAX {
        Some(Decimal { mantissa: digits_value(i + f) as u64, scale: f.len() as u32 })
    } else {
        None
    }
}

/// The same number times one hundred, if its mantissa still fits.
pub open spec fn hundredfold(d: Decimal) -> Option<Decimal> {
    if d.scale >= 2 {
        Some(Decimal { mantissa: d.mantissa, scale: (d.scale - 2) as u32 })
    } else if d.mantissa * pow10((2 - d.scale) as nat) <= u64::MAX {
        Some(Decimal { mantissa: (d.mantissa * pow10((2 - d.scale) as nat)) as u64, scale: 0 })
    } else {
        None
    }
}

/// Reads a `u32` written as `u32_of` describes.
pub fn parse_u32(v: &Vec<char>) -> (r: Option<u32>)
    ensures
        r == u32_of(v@),
{
    let body = if v.len() > 0 && v[0] == '+' {
        slice(v, 1, v.len())
    } else {
        slice(v, 0, v.len())
    };
    assert(v@.subrange(0, v.len() as int) == v@);
    assert(v.len() > 0 ==> v@.subrange(1, v.len() as int) == v@.drop_first());
    if body.len() == 0 || !all_digits_of(&body) {
        return None;
    }
    match digits_value_of(&body, 0xFFFF_FFFF) {
        Some(n) => Some(n as u32),
        None => None,
    }
}

/// Reads a decimal number written as `decimal_of` describes.
pub fn parse_decimal(v: &Vec<char>) -> (r: Option<Decimal>)
    ensures
        r == decimal_of(v@),
{
    let dot = vec!['.'];
    let (ip, fp) = match find_in(v, &dot) {
        Some(k) => (slice(v, 0, k), slice(v, k + 1, v.len())),
        None => (slice(v, 0, v.len()), Vec::new()),
    };
    assert(v@.subrange(0, v.len() as int) == v@);
    assert(dot@ == seq!['.']);
    assert(ip@ == int_part(v@));
    assert(fp@ =~= frac_part(v@));
    if !all_digits_of(&ip) || !all_digits_of(&fp) || ip.len() + fp.len() == 0 {
        return None;
    }
    if fp.len() > 0xFFFF_FFFF {
        return None;
    }
    let mut all = ip.clone();
    let mut k: usize = 0;
    while k < fp.len()
        invariant
            k <= fp.len(),
            all@ == ip@ + fp@.take(k as int),
        decreases fp.len() - k,
    {
        all.push(fp[k]);
        k += 1;
        assert(all@ =~= ip@ + fp@.take(k as int));
    }
    assert(fp@.take(fp.len() as int) == fp@);
    assert(all_digits(all@));
    match digits_value_of(&all, 0xFFFF_FFFF_FFFF_FFFF) {
        Some(m) => Some(Decimal { mantissa: m, scale: fp.len() as u32 }),
        None => None,
    }
}

/// The number times one hundred, as `hundredfold` describes.
pub fn times_hundred(d: Decimal) -> (r: Option<Decimal>)
    ensures
        r == hundredfold(d),
{
    if d.scale >= 2 {
        Some(Decimal { mantissa: d.mantissa, scale: d.scale - 2 })
    } else {
        let f: u64 = if d.scale == 1 {
            10
        } else {
            100
        };
        assert(pow10(0) == 1);
        assert(pow10(1) == 10);
        assert(pow10(2) == 100);
        if d.mantissa > 0xFFFF_FFFF_FFFF_FFFF / f {
            assert(d.mantissa * f > u64::MAX) by (nonlinear_arith)
                requires
                    d.mantissa > 0xFFFF_FFFF_FFFF_FFFFu64 / f,
                    f > 0,
            ;
            None
        } else {
            assert(d.mantissa * f <= u64::MAX) by (nonlinear_arith)
                requires
                    d.mantissa <= 0xFFFF_FFFF_FFFF_FFFFu64 / f,
                    f > 0,
            ;
            Some(Decimal { mantissa: d.mantissa * f, scale: 0 })
        }
    }
}

} // verus!
