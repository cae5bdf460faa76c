use vstd::prelude::*;

verus! {

/// The first byte of every gzip stream.
pub const GZIP_ID1: u8 = 0x1F;

/// The second byte of every gzip stream.
pub const GZIP_ID2: u8 = 0x8B;

/// Whether the first bytes of a file mark a gzip stream: the file must hold at
/// least two bytes, and they must be the gzip magic number.
pub fn is_gzip_header(start: &[u8]) -> (b: bool)
    ensures
        b == (start@.len() >= 2 && start@[0] == GZIP_ID1 && start@[1] == GZIP_ID2),
{
    start.len() >= 2 && start[0] == GZIP_ID1 && start[1] == GZIP_ID2
}

/// The little-endian number held by four bytes.
pub open spec fn le_u32(b: Seq<u8>) -> int {
    b[0] + 256 * b[1] + 65536 * b[2] + 16777216 * b[3]
}

/// The uncompressed size a gzip stream records in its last four bytes (its
/// `ISIZE` field, little-endian).
pub fn gzip_isize(trailer: &[u8]) -> (n: u32)
    requires
        trailer@.len() == 4,
    ensures
        n == le_u32(trailer@),
{
    let b0 = trailer[0] as u32;
    let b1 = trailer[1] as u32;
    let b2 = trailer[2] as u32;
    let b3 = trailer[3] as u32;
    b0 + 256 * b1 + 65536 * b2 + 16777216 * b3
}

} // verus!
