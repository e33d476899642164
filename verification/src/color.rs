//! Hex color parsing: `"#RRGGBB"` / `"RRGGBBAA"` strings to 8-bit RGBA
//! components. Conversion of the components to float colors is the
//! renderer's part.

use vstd::prelude::*;
use crate::text::{skip_leading, strip_leading};

verus! {

/// Error type for color parsing.
#[derive(Debug, Clone)]
pub enum ColorParseError {
    /// The text (after its leading `#` signs) is not a hexadecimal numeral
    /// that fits in a `u32`.
    InvalidHex(String),
    /// The text is a hexadecimal number, but not of 6 or 8 digits; holds its
    /// length.
    InvalidLength(usize),
}

/// Whether `c` is a hexadecimal digit (either case).
pub open spec fn is_hex_digit(c: char) -> bool {
    ||| ('0' <= c && c <= '9')
    ||| ('a' <= c && c <= 'f')
    ||| ('A' <= c && c <= 'F')
}

/// The value of the hexadecimal digit `c`.
pub open spec fn hex_digit_value(c: char) -> int {
    if '0' <= c && c <= '9' {
        c as int - '0' as int
    } else if 'a' <= c && c <= 'f' {
        c as int - 'a' as int + 10
    } else {
        c as int - 'A' as int + 10
    }
}

/// The value of the hexadecimal numeral `s` (most significant digit first).
pub open spec fn hex_value(s: Seq<char>) -> int
    decreases s.len(),
{
    if s.len() == 0 {
        0
    } else {
        hex_value(s.drop_last()) * 16 + hex_digit_value(s.last())
    }
}

/// Whether `s` is a hexadecimal numeral whose value fits in a `u32`: it is
/// not empty, and every character is a hexadecimal digit (no sign).
pub open spec fn parses_as_hex_u32(s: Seq<char>) -> bool {
    &&& s.len() > 0
    &&& forall|i: int| 0 <= i < s.len() ==> is_hex_digit(#[trigger] s[i])
    &&& hex_value(s) <= u32::MAX
}

/// Byte `k` (0 = least significant) of the number `v`.
pub open spec fn byte_of(v: int, k: nat) -> u8 {
    ((v / pow256(k)) % 256) as u8
}

/// `256` to the power `k`.
pub open spec fn pow256(k: nat) -> int
    decreases k,
{
    if k == 0 {
        1
    } else {
        256 * pow256((k - 1) as nat)
    }
}

/// The decimal numeral of `n`, as `usize`'s `Display` writes it.
pub open spec fn decimal(n: nat) -> Seq<char>
    decreases n,
{
    if n < 10 {
        seq![(n + '0' as nat) as char]
    } else {
        decimal(n / 10).push(((n % 10) + '0' as nat) as char)
    }
}

/// `usize::to_string`: the decimal numeral of `n`, without sign or leading
/// zeros.
#[verifier::external_body]
fn usize_to_decimal(n: usize) -> (s: String)
    ensures
        s@ == decimal(n as nat),
{
    n.to_string()
}

proof fn lemma_hex_value_nonneg(s: Seq<char>)
    requires
        forall|i: int| 0 <= i < s.len() ==> is_hex_digit(#[trigger] s[i]),
    ensures
        hex_value(s) >= 0,
    decreases s.len(),
{
    if s.len() > 0 {
        lemma_hex_value_nonneg(s.drop_last());
    }
}

/// Appending hexadecimal digits never makes a numeral smaller.
proof fn lemma_hex_value_prefix(s: Seq<char>, k: int)
    requires
        0 <= k <= s.len(),
        forall|i: int| 0 <= i < s.len() ==> is_hex_digit(#[trigger] s[i]),
    ensures
        hex_value(s.subrange(0, k)) <= hex_value(s),
    decreases s.len() - k,
{
    if k < s.len() {
        lemma_hex_value_prefix(s, k + 1);
        let p = s.subrange(0, k + 1);
        assert(p.drop_last() =~= s.subrange(0, k));
        lemma_hex_value_nonneg(s.subrange(0, k));
    } else {
        assert(s.subrange(0, k) =~= s);
    }
}

impl ColorParseError {
    /// The error message, as the error's display text.
    pub fn message(&self) -> (m: String)
        ensures
            m@ == match self {
                ColorParseError::InvalidHex(h) => "Invalid hex color: "@ + h@,
                ColorParseError::InvalidLength(n) => "Expected 6 or 8 hex digits, got "@ + decimal(
                    *n as nat,
                ),
            },
    {
        match self {
            ColorParseError::InvalidHex(h) => {
                let mut m = String::from_str("Invalid hex color: ");
                m.append(h.as_str());
                m
            },
            ColorParseError::InvalidLength(n) => {
                let mut m = String::from_str("Expected 6 or 8 hex digits, got ");
                let digits = usize_to_decimal(*n);
                m.append(digits.as_str());
                m
            },
        }
    }
}

/// Parse a hex color like `"#FF0080"` or `"FF008080"` into 8-bit
/// `(r, g, b, a)` components.
///
/// - 6 digits → RGB, fully opaque (alpha 255)
/// - 8 digits → RGBA
/// - Leading `#` signs are skipped.
///
/// Text that is not a hexadecimal numeral fitting a `u32` (empty, with a
/// sign or another non-digit character, or too large) gives `InvalidHex`; a
/// numeral of another length than 6 or 8 digits gives `InvalidLength`.
pub fn parse_hex_rgba8(hex: &str) -> (r: Result<(u8, u8, u8, u8), ColorParseError>)
    ensures
        ({
            let t = skip_leading(hex@, '#');
            let v = hex_value(t);
            if !parses_as_hex_u32(t) {
                r matches Err(ColorParseError::InvalidHex(h)) && h@ == t
            } else if t.len() == 6 {
                r == Ok::<(u8, u8, u8, u8), ColorParseError>(
                    (byte_of(v, 2), byte_of(v, 1), byte_of(v, 0), 255u8),
                )
            } else if t.len() == 8 {
                r == Ok::<(u8, u8, u8, u8), ColorParseError>(
                    (byte_of(v, 3), byte_of(v, 2), byte_of(v, 1), byte_of(v, 0)),
                )
            } else {
                r matches Err(ColorParseError::InvalidLength(n)) && n == t.len()
            }
        }),
{
    let t = strip_leading(hex, '#');
    let n: usize = t.unicode_len();
    if n == 0 {
        return Err(ColorParseError::InvalidHex(String::from_str(t)));
    }
    let ghost digits = t@;
    let mut val: u32 = 0;
    let mut i: usize = 0;
    while i < n
        invariant
            i <= n,
            n == t@.len(),
            digits == t@,
            t@ == skip_leading(hex@, '#'),
            forall|j: int| 0 <= j < i ==> is_hex_digit(#[trigger] digits[j]),
            val == hex_value(digits.subrange(0, i as int)),
        decreases n - i,
    {
        let c = t.get_char(i);
        let d: u32 = if '0' <= c && c <= '9' {
            (c as u32) - ('0' as u32)
        } else if 'a' <= c && c <= 'f' {
            (c as u32) - ('a' as u32) + 10
        } else if 'A' <= c && c <= 'F' {
            (c as u32) - ('A' as u32) + 10
        } else {
            proof {
                assert(!is_hex_digit(digits[i as int]));
            }
            return Err(ColorParseError::InvalidHex(String::from_str(t)));
        };
        proof {
            assert(digits.subrange(0, i + 1).drop_last() =~= digits.subrange(0, i as int));
            assert(digits.subrange(0, i + 1).last() == c);
            assert(d as int == hex_digit_value(c));
            assert(d < 16);
        }
        if val > (u32::MAX - d) / 16 {
            proof {
                assert(val * 16 + d > u32::MAX) by (nonlinear_arith)
                    requires
                        val > (u32::MAX - d) / 16,
                        d < 16,
                ;
                assert(hex_value(digits.subrange(0, i + 1)) == val * 16 + d);
                if forall|j: int| 0 <= j < digits.len() ==> is_hex_digit(#[trigger] digits[j]) {
                    lemma_hex_value_prefix(digits, i + 1);
                }
            }
            return Err(ColorParseError::InvalidHex(String::from_str(t)));
        }
        val = val * 16 + d;
        i += 1;
    }
    proof {
        assert(digits.subrange(0, n as int) =~= digits);
        reveal_with_fuel(pow256, 4);
    }
    if n == 6 {
        Ok((((val / 65536) % 256) as u8, ((val / 256) % 256) as u8, (val % 256) as u8, 255))
    } else if n == 8 {
        Ok(
            (
                ((val / 16777216) % 256) as u8,
                ((val / 65536) % 256) as u8,
                ((val / 256) % 256) as u8,
                (val % 256) as u8,
            ),
        )
    } else {
        Err(ColorParseError::InvalidLength(n))
    }
}

} // verus!
