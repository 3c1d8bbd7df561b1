//! Fixed-width integers, least significant byte first.
use vstd::prelude::*;

verus! {

/// The four bytes of `x`, least significant first.
pub open spec fn u32_bytes(x: u32) -> Seq<u8> {
    seq![
        (x % 256) as u8,
        (x / 256 % 256) as u8,
        (x / 65_536 % 256) as u8,
        (x / 16_777_216) as u8,
    ]
}

/// The number that the four bytes of `s` from `at` on write, least significant first.
pub open spec fn u32_at(s: Seq<u8>, at: int) -> int {
    s[at] + 256 * s[at + 1] + 65_536 * s[at + 2] + 16_777_216 * s[at + 3]
}

/// The eight bytes of `x`, least significant first.
pub open spec fn u64_bytes(x: u64) -> Seq<u8> {
    u32_bytes((x % 4_294_967_296) as u32) + u32_bytes((x / 4_294_967_296) as u32)
}

/// The four bytes of `x`, least significant first.
pub fn u32_to_bytes(x: u32) -> (bytes: Vec<u8>)
    ensures
        bytes@ == u32_bytes(x),
{
    let mut bytes: Vec<u8> = Vec::new();
    bytes.push((x % 256) as u8);
    bytes.push((x / 256 % 256) as u8);
    bytes.push((x / 65_536 % 256) as u8);
    bytes.push((x / 16_777_216) as u8);
    bytes
}

/// The number that the four bytes of `s` from `at` on write, least significant first.
pub fn u32_from_bytes(s: &[u8], at: usize) -> (x: u32)
    requires
        at + 4 <= s.len(),
    ensures
        x == u32_at(s@, at as int),
{
    s[at] as u32 + 256 * (s[at + 1] as u32) + 65_536 * (s[at + 2] as u32) + 16_777_216 * (s[at
        + 3] as u32)
}

/// The eight bytes of `x`, least significant first.
pub fn u64_to_bytes(x: u64) -> (bytes: Vec<u8>)
    ensures
        bytes@ == u64_bytes(x),
{
    let mut low = u32_to_bytes((x % 4_294_967_296) as u32);
    let mut high = u32_to_bytes((x / 4_294_967_296) as u32);
    low.append(&mut high);
    low
}

/// Reading the bytes of a number gives the number back.
pub proof fn u32_round_trip(x: u32)
    ensures
        u32_at(u32_bytes(x), 0) == x,
{
}

/// The bytes of a number are its digits in base 256, the lowest first.
pub proof fn bytes_are_digits(x: u32)
    ensures
        u32_bytes(x).len() == 4,
        x == u32_bytes(x)[0] + 256 * u32_bytes(x)[1] + 65_536 * u32_bytes(x)[2] + 16_777_216
            * u32_bytes(x)[3],
{
}

/// The same holds of a number of eight bytes.
pub proof fn long_bytes_are_digits(y: u64)
    ensures
        u64_bytes(y).len() == 8,
        y == u64_bytes(y)[0] + 256 * u64_bytes(y)[1] + 65_536 * u64_bytes(y)[2] + 16_777_216
            * u64_bytes(y)[3] + 4_294_967_296 * (u64_bytes(y)[4] + 256 * u64_bytes(y)[5] + 65_536
            * u64_bytes(y)[6] + 16_777_216 * u64_bytes(y)[7]),
{
    let low = (y % 4_294_967_296) as u32;
    let high = (y / 4_294_967_296) as u32;
    bytes_are_digits(low);
    bytes_are_digits(high);
    let (b, l, h) = (u64_bytes(y), u32_bytes(low), u32_bytes(high));
    assert(b[0] == l[0] && b[1] == l[1] && b[2] == l[2] && b[3] == l[3]);
    assert(b[4] == h[0] && b[5] == h[1] && b[6] == h[2] && b[7] == h[3]);
    assert(y == low + 4_294_967_296 * high);
}

/// A number is read from four bytes, of which the first counts once, the second 256 times, and so on.
pub proof fn bytes_are_read_lowest_first(s: Seq<u8>, at: int)
    requires
        0 <= at,
        at + 4 <= s.len(),
    ensures
        u32_at(s, at) == s[at] + 256 * (s[at + 1] + 256 * (s[at + 2] + 256 * s[at + 3])),
        0 <= u32_at(s, at) <= u32::MAX,
{
}

} // verus!
