//! Byte counts as the tables print them: two decimals in the largest unit
//! that fits, the way `{:.2}` prints the exact quotient.
use vstd::prelude::*;
use crate::text::{append_decimal, dec, digit_char, digit_chars, push_char};

verus! {

/// Bytes in a kilobyte.
pub const KB: u64 = 1024;
/// Bytes in a megabyte.
pub const MB: u64 = 1048576;
/// Bytes in a gigabyte.
pub const GB: u64 = 1073741824;

/// `n / unit` in hundredths, rounded to the nearest and, on a tie, to the even
/// neighbour (the rounding of `{:.2}` applied to the exact quotient).
pub open spec fn hundredths(n: nat, unit: nat) -> nat
    recommends
        unit > 0,
{
    let q = (n * 100) / unit;
    let r = (n * 100) % unit;
    if 2 * r > unit || (2 * r == unit && q % 2 == 1) {
        q + 1
    } else {
        q
    }
}

/// A number of hundredths written with two decimals, such as `12.05`.
pub open spec fn two_places(h: nat) -> Seq<char> {
    dec(h / 100) + seq!['.'] + seq![digit_chars()[((h % 100) / 10) as int]] + seq![
        digit_chars()[(h % 10) as int],
    ]
}

/// What `fmt_bytes` prints for `n` bytes.
pub open spec fn bytes_text(n: nat) -> Seq<char> {
    if n >= GB {
        two_places(hundredths(n, GB as nat)) + " GB"@
    } else if n >= MB {
        two_places(hundredths(n, MB as nat)) + " MB"@
    } else if n >= KB {
        two_places(hundredths(n, KB as nat)) + " KB"@
    } else {
        dec(n) + " B"@
    }
}

/// What `fmt_size` prints for `n` bytes.
pub open spec fn size_text(n: nat) -> Seq<char> {
    if n >= GB {
        two_places(hundredths(n, GB as nat)) + " GB"@
    } else {
        two_places(hundredths(n, MB as nat)) + " MB"@
    }
}

/// Computes `hundredths(n, unit)`.
fn rounded_hundredths(n: u64, unit: u64) -> (h: u64)
    requires
        unit == KB || unit == MB || unit == GB,
    ensures
        h == hundredths(n as nat, unit as nat),
{
    let x: u128 = (n as u128) * 100;
    let u: u128 = unit as u128;
    let q: u128 = x / u;
    let r: u128 = x % u;
    assert(q <= x);
    assert(q * u <= x) by (nonlinear_arith)
        requires q == x / u, u > 0;
    assert(q < 0x1_0000_0000_0000_0000) by (nonlinear_arith)
        requires q * u <= x, u >= 1024, x <= 0xffff_ffff_ffff_ffff * 100;
    let h: u128 = if 2 * r > u || (2 * r == u && q % 2 == 1) { q + 1 } else { q };
    h as u64
}

/// Appends `h` hundredths with two decimals.
fn append_two_places(s: &mut String, h: u64)
    ensures
        final(s)@ == old(s)@ + two_places(h as nat),
{
    append_decimal(s, h / 100);
    push_char(s, '.');
    push_char(s, digit_char((h % 100) / 10));
    push_char(s, digit_char(h % 10));
    proof {
        assert(final(s)@ =~= old(s)@ + two_places(h as nat));
    }
}

/// Formats a byte count in B, KB, MB or GB.
pub fn fmt_bytes(bytes: u64) -> (r: String)
    ensures
        r@ == bytes_text(bytes as nat),
{
    let mut r = String::new();
    if bytes >= GB {
        append_two_places(&mut r, rounded_hundredths(bytes, GB));
        r.append(" GB");
    } else if bytes >= MB {
        append_two_places(&mut r, rounded_hundredths(bytes, MB));
        r.append(" MB");
    } else if bytes >= KB {
        append_two_places(&mut r, rounded_hundredths(bytes, KB));
        r.append(" KB");
    } else {
        append_decimal(&mut r, bytes);
        r.append(" B");
    }
    proof {
        assert(r@ =~= bytes_text(bytes as nat));
    }
    r
}

/// Formats a byte count in MB or GB.
pub fn fmt_size(bytes: u64) -> (r: String)
    ensures
        r@ == size_text(bytes as nat),
{
    let mut r = String::new();
    if bytes >= GB {
        append_two_places(&mut r, rounded_hundredths(bytes, GB));
        r.append(" GB");
    } else {
        append_two_places(&mut r, rounded_hundredths(bytes, MB));
        r.append(" MB");
    }
    proof {
        assert(r@ =~= size_text(bytes as nat));
    }
    r
}

} // verus!
