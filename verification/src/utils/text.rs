use vstd::prelude::*;

verus! {

/// The character of a digit below 16: `0` to `9`, then `a` to `f`.
pub open spec fn digit_char(d: nat) -> char {
    if d < 10 {
        (d + 48) as char
    } else {
        (d + 87) as char
    }
}

/// The decimal digits of `v`, most significant first, without leading zeros.
pub open spec fn decimal_digits(v: nat) -> Seq<char>
    decreases v,
{
    if v < 10 {
        seq![digit_char(v)]
    } else {
        decimal_digits(v / 10).push(digit_char(v % 10))
    }
}

/// The lower-case hexadecimal digits of `v`, most significant first, without leading zeros.
pub open spec fn hex_digits(v: nat) -> Seq<char>
    decreases v,
{
    if v < 16 {
        seq![digit_char(v)]
    } else {
        hex_digits(v / 16).push(digit_char(v % 16))
    }
}

/// `format!("{}", v)`: std writes an unsigned integer as its decimal digits, without leading
/// zeros.
#[verifier::external_body]
pub(crate) fn decimal_string(v: u32) -> (s: String)
    ensures
        s@ == decimal_digits(v as nat),
{
    format!("{}", v)
}

/// `format!("{:#x}", v)`: std writes `0x` and the lower-case hexadecimal digits, without
/// leading zeros.
#[verifier::external_body]
pub(crate) fn hex_string(v: u32) -> (s: String)
    ensures
        s@ == "0x"@ + hex_digits(v as nat),
{
    format!("{:#x}", v)
}

/// The eight lower-case hexadecimal digits of `v`, with leading zeros.
pub open spec fn hex8_digits(v: u32) -> Seq<char> {
    Seq::new(8, |i: int| digit_char(((v >> ((28 - 4 * i) as u32)) & 0xf) as nat))
}

/// `format!("{:#010x}", v)`: std writes `0x` and the hexadecimal digits padded with zeros to
/// a width of ten, which for a 32-bit value is always eight digits.
#[verifier::external_body]
pub(crate) fn padded_hex_string(v: u32) -> (s: String)
    ensures
        s@ == "0x"@ + hex8_digits(v),
{
    format!("{:#010x}", v)
}

/// `d` padded on the left with zeros to at least `width` characters.
pub open spec fn zero_padded(d: Seq<char>, width: nat) -> Seq<char> {
    if d.len() >= width {
        d
    } else {
        Seq::new((width - d.len()) as nat, |i: int| '0') + d
    }
}

/// `format!("{:#010x}", v)` for a machine word: `0x` and the hexadecimal digits, padded with
/// zeros to at least eight.
#[verifier::external_body]
pub(crate) fn padded_hex_usize(v: usize) -> (s: String)
    ensures
        s@ == "0x"@ + zero_padded(hex_digits(v as nat), 8),
{
    format!("{:#010x}", v)
}

} // verus!
