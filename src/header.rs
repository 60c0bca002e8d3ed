use vstd::prelude::*;

verus! {

/// The format version that this library writes and accepts.
pub const FILE_FORMAT_CURRENT_VERSION: u32 = 1;

/// Width in bytes of an encoded header: one little-endian `u32`.
pub const FILE_HEADER_SIZE: usize = 4;

/// Fixed-size prefix of every notebook file.
#[derive(Debug, Clone, Copy, PartialEq, Eq, Structural)]
pub struct FileHeader {
    pub version: u32,
}

/// The four little-endian bytes of `v`.
pub open spec fn u32_le_bytes(v: u32) -> Seq<u8> {
    seq![
        (v & 0xff) as u8,
        ((v >> 8u32) & 0xff) as u8,
        ((v >> 16u32) & 0xff) as u8,
        ((v >> 24u32) & 0xff) as u8,
    ]
}

/// The `u32` whose little-endian bytes are the first four of `b`.
pub open spec fn u32_from_le(b: Seq<u8>) -> u32
    recommends
        b.len() >= 4,
{
    (b[0] as u32) | ((b[1] as u32) << 8u32) | ((b[2] as u32) << 16u32) | ((b[3] as u32) << 24u32)
}

pub proof fn lemma_u32_le_round_trip(v: u32)
    ensures
        u32_from_le(u32_le_bytes(v)) == v,
{
    let b = u32_le_bytes(v);
    let b0 = (v & 0xff) as u8;
    let b1 = ((v >> 8u32) & 0xff) as u8;
    let b2 = ((v >> 16u32) & 0xff) as u8;
    let b3 = ((v >> 24u32) & 0xff) as u8;
    assert(b[0] == b0 && b[1] == b1 && b[2] == b2 && b[3] == b3);
    assert(((b0 as u32) | ((b1 as u32) << 8u32) | ((b2 as u32) << 16u32) | ((b3 as u32) << 24u32))
        == v) by (bit_vector)
        requires
            b0 == (v & 0xff) as u8,
            b1 == ((v >> 8u32) & 0xff) as u8,
            b2 == ((v >> 16u32) & 0xff) as u8,
            b3 == ((v >> 24u32) & 0xff) as u8,
    ;
}

impl FileHeader {
    /// A header stamped with the current format version.
    pub fn new() -> (r: FileHeader)
        ensures
            r.version == FILE_FORMAT_CURRENT_VERSION,
    {
        FileHeader { version: FILE_FORMAT_CURRENT_VERSION }
    }

    /// The header's fixed-width encoding.
    pub fn to_bytes(&self) -> (r: Vec<u8>)
        ensures
            r@ == u32_le_bytes(self.version),
            r@.len() == FILE_HEADER_SIZE,
    {
        let v = self.version;
        let mut r: Vec<u8> = Vec::with_capacity(FILE_HEADER_SIZE);
        r.push((v & 0xff) as u8);
        r.push(((v >> 8u32) & 0xff) as u8);
        r.push(((v >> 16u32) & 0xff) as u8);
        r.push(((v >> 24u32) & 0xff) as u8);
        assert(r@ =~= u32_le_bytes(v));
        r
    }

    /// Reads a header from the first bytes of `b`; `None` when `b` is too short.
    pub fn from_bytes(b: &[u8]) -> (r: Option<FileHeader>)
        ensures
            b@.len() < FILE_HEADER_SIZE ==> r is None,
            b@.len() >= FILE_HEADER_SIZE ==> r == Some(FileHeader { version: u32_from_le(b@) }),
    {
        if b.len() < FILE_HEADER_SIZE {
            return None;
        }
        let v: u32 = (b[0] as u32) | ((b[1] as u32) << 8u32) | ((b[2] as u32) << 16u32) | ((
        b[3] as u32) << 24u32);
        Some(FileHeader { version: v })
    }
}

} // verus!
