//! Fixed-point decimal numbers: the numeric model for prices, changes and
//! volumes.  A value is a sign, an integer mantissa and a scale counting the
//! digits after the decimal point, so `1.21` is mantissa `121` at scale `2`.

use vstd::prelude::*;

use crate::html::{ErrorKind, ParseError};

verus! {

/// A signed fixed-point decimal: `(-1 if negative) * mantissa / 10^scale`.
#[derive(Clone, Copy, Debug, PartialEq, Eq, Structural)]
pub struct Decimal {
    pub negative: bool,
    pub mantissa: u64,
    pub scale: usize,
}

/// One pass of the decimal scanner over the remaining characters `s`, with
/// accumulated mantissa `m`, the count of digits read after a decimal point
/// (`None` while no point was read), and whether any digit was read yet.
/// Yields the mantissa and scale of the whole text, or `None` where the text
/// is not a plain decimal numeral.
pub open spec fn spec_scan(s: Seq<char>, m: nat, sc: Option<nat>, seen: bool) -> Option<(nat, nat)>
    decreases s.len(),
{
    if s.len() == 0 {
        if seen {
            Some(
                (
                    m,
                    match sc {
                        Some(n) => n,
                        None => 0,
                    },
                ),
            )
        } else {
            None
        }
    } else {
        let c = s[0];
        if '0' <= c && c <= '9' {
            let d = (c as int - '0' as int) as nat;
            spec_scan(
                s.drop_first(),
                m * 10 + d,
                match sc {
                    Some(n) => Some((n + 1) as nat),
                    None => None,
                },
                true,
            )
        } else if c == '.' {
            match sc {
                Some(_) => None,
                None => spec_scan(s.drop_first(), m, Some(0), seen),
            }
        } else {
            None
        }
    }
}

/// The mantissa and scale denoted by a decimal numeral: digits with at most
/// one dot and at least one digit, e.g. `1.21` denotes `(121, 2)`.
pub open spec fn spec_parse_decimal(s: Seq<char>) -> Option<(nat, nat)> {
    spec_scan(s, 0, None, false)
}

/// The mantissa a scan yields never falls below the accumulator it starts
/// from.
proof fn lemma_scan_mono(s: Seq<char>, m: nat, sc: Option<nat>, seen: bool)
    ensures
        match spec_scan(s, m, sc, seen) {
            Some(p) => p.0 >= m,
            None => true,
        },
    decreases s.len(),
{
    if s.len() > 0 {
        let c = s[0];
        if '0' <= c && c <= '9' {
            let d = (c as int - '0' as int) as nat;
            lemma_scan_mono(
                s.drop_first(),
                m * 10 + d,
                match sc {
                    Some(n) => Some((n + 1) as nat),
                    None => None,
                },
                true,
            );
        } else if c == '.' && sc is None {
            lemma_scan_mono(s.drop_first(), m, Some(0), seen);
        }
    }
}

/// Parses a non-negative decimal numeral.  Returns `Ok` exactly when the text
/// is a plain decimal numeral whose mantissa fits in 64 bits; the value then
/// carries that mantissa and scale.  Anything else is a
/// `ConfigurationInvalid` error.
pub fn parse_decimal(v: &Vec<char>) -> (r: Result<Decimal, ParseError>)
    ensures
        match r {
            Ok(d) => spec_parse_decimal(v@) == Some((d.mantissa as nat, d.scale as nat))
                && !d.negative,
            Err(e) => e.kind == ErrorKind::ConfigurationInvalid && match spec_parse_decimal(v@) {
                Some(p) => p.0 > u64::MAX,
                None => true,
            },
        },
{
    let n = v.len();
    let mut m: u64 = 0;
    let mut sc: usize = 0;
    let mut dotted = false;
    let mut seen = false;
    let mut i: usize = 0;
    assert(v@.skip(0) =~= v@);
    while i < n
        invariant
            n == v@.len(),
            i <= n,
            sc <= i,
            spec_parse_decimal(v@) == spec_scan(
                v@.skip(i as int),
                m as nat,
                if dotted {
                    Some(sc as nat)
                } else {
                    None
                },
                seen,
            ),
        decreases n - i,
    {
        let c = v[i];
        proof {
            assert(v@.skip(i as int).drop_first() =~= v@.skip(i + 1));
            assert(v@.skip(i as int)[0] == v@[i as int]);
        }
        if '0' <= c && c <= '9' {
            let d = (c as u32 - '0' as u32) as u64;
            if m > (u64::MAX - d) / 10 {
                proof {
                    assert((m as nat) * 10 + d as nat > u64::MAX) by (nonlinear_arith)
                        requires
                            m > (u64::MAX - d) / 10,
                            d <= 9,
                    ;
                    lemma_scan_mono(
                        v@.skip(i + 1),
                        (m as nat) * 10 + d as nat,
                        if dotted {
                            Some((sc + 1) as nat)
                        } else {
                            None
                        },
                        true,
                    );
                }
                return Err(
                    ParseError::with_kind(
                        ErrorKind::ConfigurationInvalid,
                        String::from_str("number too large"),
                    ),
                );
            }
            assert((m as nat) * 10 + d as nat <= u64::MAX) by (nonlinear_arith)
                requires
                    m <= (u64::MAX - d) / 10,
                    d <= 9,
            ;
            m = m * 10 + d;
            if dotted {
                sc += 1;
            }
            seen = true;
        } else if c == '.' {
            if dotted {
                return Err(
                    ParseError::with_kind(
                        ErrorKind::ConfigurationInvalid,
                        String::from_str("malformed number"),
                    ),
                );
            }
            dotted = true;
            sc = 0;
        } else {
            return Err(
                ParseError::with_kind(
                    ErrorKind::ConfigurationInvalid,
                    String::from_str("malformed number"),
                ),
            );
        }
        i += 1;
    }
    assert(v@.skip(i as int) =~= Seq::<char>::empty());
    if !seen {
        return Err(
            ParseError::with_kind(
                ErrorKind::ConfigurationInvalid,
                String::from_str("empty number"),
            ),
        );
    }
    let scale = if dotted {
        sc
    } else {
        0
    };
    Ok(Decimal { negative: false, mantissa: m, scale })
}

/// The digit character for a value below ten.
pub open spec fn spec_digit_char(d: nat) -> char {
    seq!['0', '1', '2', '3', '4', '5', '6', '7', '8', '9'][d as int]
}

/// The decimal digit characters of `n`, most significant first, without
/// leading zeros (`0` itself is the single character `0`).
pub open spec fn spec_u64_digits(n: nat) -> Seq<char>
    decreases n,
{
    if n < 10 {
        seq![spec_digit_char(n)]
    } else {
        spec_u64_digits(n / 10) + seq![spec_digit_char(n % 10)]
    }
}

/// The digit character for `d < 10`.
fn digit_char(d: u64) -> (c: char)
    requires
        d < 10,
    ensures
        c == spec_digit_char(d as nat),
{
    if d == 0 {
        '0'
    } else if d == 1 {
        '1'
    } else if d == 2 {
        '2'
    } else if d == 3 {
        '3'
    } else if d == 4 {
        '4'
    } else if d == 5 {
        '5'
    } else if d == 6 {
        '6'
    } else if d == 7 {
        '7'
    } else if d == 8 {
        '8'
    } else {
        '9'
    }
}

/// Appends the decimal digits of `n` to `out`.
pub fn push_u64_digits(n: u64, out: &mut Vec<char>)
    ensures
        final(out)@ == old(out)@ + spec_u64_digits(n as nat),
    decreases n,
{
    if n < 10 {
        out.push(digit_char(n));
        assert(final(out)@ =~= old(out)@ + spec_u64_digits(n as nat));
    } else {
        push_u64_digits(n / 10, out);
        out.push(digit_char(n % 10));
        assert(final(out)@ =~= old(out)@ + spec_u64_digits(n as nat));
    }
}

/// A numeral has at least one digit.
pub proof fn lemma_u64_digits_len(n: nat)
    ensures
        spec_u64_digits(n).len() >= 1,
    decreases n,
{
    if n >= 10 {
        lemma_u64_digits_len(n / 10);
    }
}

/// `n` zero characters.
pub open spec fn spec_zeros(n: nat) -> Seq<char>
    decreases n,
{
    if n == 0 {
        Seq::empty()
    } else {
        seq!['0'] + spec_zeros((n - 1) as nat)
    }
}

/// The character rendering of a decimal: the mantissa digits padded with
/// leading zeros so that a digit stands before the point, a point inserted
/// `scale` digits from the right when the scale is positive, and a leading
/// minus sign when negative; so mantissa `5` at scale `3` renders `0.005`.
pub open spec fn spec_decimal_chars(neg: bool, m: nat, scale: nat) -> Seq<char> {
    let ds = spec_u64_digits(m);
    let padded = if ds.len() > scale {
        ds
    } else {
        spec_zeros((scale + 1 - ds.len()) as nat) + ds
    };
    let body = if scale == 0 {
        padded
    } else {
        padded.take(padded.len() - scale) + seq!['.'] + padded.skip(padded.len() - scale)
    };
    if neg {
        seq!['-'] + body
    } else {
        body
    }
}

/// Renders a decimal as characters, as `spec_decimal_chars` describes.
pub fn decimal_to_chars(d: &Decimal) -> (r: Vec<char>)
    ensures
        r@ == spec_decimal_chars(d.negative, d.mantissa as nat, d.scale as nat),
{
    let mut ds: Vec<char> = Vec::new();
    push_u64_digits(d.mantissa, &mut ds);
    proof {
        lemma_u64_digits_len(d.mantissa as nat);
    }
    let mut padded: Vec<char> = Vec::new();
    if ds.len() <= d.scale {
        let pad = (d.scale - ds.len()) + 1;
        let mut p: usize = 0;
        while p < pad
            invariant
                p <= pad,
                padded@ == spec_zeros(p as nat),
            decreases pad - p,
        {
            proof {
                lemma_zeros_snoc(p as nat);
            }
            padded.push('0');
            p += 1;
        }
        proof {
            lemma_zeros_len(pad as nat);
        }
    }
    let ghost zeros_part = padded@;
    let mut q: usize = 0;
    while q < ds.len()
        invariant
            q <= ds@.len(),
            padded@ == zeros_part + ds@.take(q as int),
        decreases ds@.len() - q,
    {
        padded.push(ds[q]);
        q += 1;
    }
    assert(padded@ =~= zeros_part + ds@);
    let mut out: Vec<char> = Vec::new();
    if d.negative {
        out.push('-');
    }
    let ghost sign_part = out@;
    if d.scale == 0 {
        let mut k: usize = 0;
        while k < padded.len()
            invariant
                k <= padded@.len(),
                out@ == sign_part + padded@.take(k as int),
            decreases padded@.len() - k,
        {
            out.push(padded[k]);
            k += 1;
        }
        assert(padded@.take(padded@.len() as int) =~= padded@);
        assert(out@ =~= spec_decimal_chars(d.negative, d.mantissa as nat, d.scale as nat));
        out
    } else {
        assert(padded@.len() > d.scale);
        let cut = padded.len() - d.scale;
        let mut k: usize = 0;
        while k < cut
            invariant
                k <= cut <= padded@.len(),
                out@ == sign_part + padded@.take(k as int),
            decreases cut - k,
        {
            out.push(padded[k]);
            k += 1;
        }
        out.push('.');
        let ghost head_part = out@;
        let mut k2: usize = cut;
        while k2 < padded.len()
            invariant
                cut <= k2 <= padded@.len(),
                out@ == head_part + padded@.subrange(cut as int, k2 as int),
            decreases padded@.len() - k2,
        {
            assert(padded@.subrange(cut as int, k2 + 1) =~= padded@.subrange(cut as int, k2 as int)
                + seq![padded@[k2 as int]]);
            out.push(padded[k2]);
            k2 += 1;
        }
        assert(out@ =~= spec_decimal_chars(d.negative, d.mantissa as nat, d.scale as nat));
        out
    }
}

/// There are as many zero characters as asked for.
proof fn lemma_zeros_len(n: nat)
    ensures
        spec_zeros(n).len() == n,
    decreases n,
{
    if n > 0 {
        lemma_zeros_len((n - 1) as nat);
    }
}

/// `spec_zeros` grows by one zero at the back as well as at the front.
proof fn lemma_zeros_snoc(n: nat)
    ensures
        spec_zeros(n) + seq!['0'] == spec_zeros(n + 1),
    decreases n,
{
    if n == 0 {
        assert(spec_zeros(0) + seq!['0'] =~= spec_zeros(1));
    } else {
        lemma_zeros_snoc((n - 1) as nat);
        assert(spec_zeros(n) + seq!['0'] =~= seq!['0'] + (spec_zeros((n - 1) as nat)
            + seq!['0']));
        assert(seq!['0'] + spec_zeros(n) =~= spec_zeros(n + 1));
    }
}

} // verus!
