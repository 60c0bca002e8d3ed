use vstd::prelude::*;
use crate::error::ErrorCode;
use crate::header::{
    FileHeader, FILE_FORMAT_CURRENT_VERSION, FILE_HEADER_SIZE, u32_le_bytes, u32_from_le,
    lemma_u32_le_round_trip,
};

verus! {

/// The bytes of a notebook file whose encoded notebook is `payload`.
pub open spec fn file_bytes(payload: Seq<u8>) -> Seq<u8> {
    u32_le_bytes(FILE_FORMAT_CURRENT_VERSION) + payload
}

/// The version recorded in the header of a file, which must be long enough.
pub open spec fn file_version(bytes: Seq<u8>) -> u32 {
    u32_from_le(bytes)
}

/// What reading a notebook file gives: the payload after the header, or the error.
pub open spec fn decoded(bytes: Seq<u8>) -> Result<Seq<u8>, ErrorCode> {
    if bytes.len() < FILE_HEADER_SIZE {
        Err(ErrorCode::DeserializationError)
    } else if file_version(bytes) != FILE_FORMAT_CURRENT_VERSION {
        Err(ErrorCode::Unsupported)
    } else {
        Ok(bytes.subrange(FILE_HEADER_SIZE as int, bytes.len() as int))
    }
}

/// Frames an encoded notebook: the current-version header, then the payload.
pub fn encode_notebook_file(payload: &[u8]) -> (r: Vec<u8>)
    ensures
        r@ == file_bytes(payload@),
{
    let mut r = FileHeader::new().to_bytes();
    let ghost head = r@;
    let mut i: usize = 0;
    while i < payload.len()
        invariant
            i <= payload@.len(),
            head == u32_le_bytes(FILE_FORMAT_CURRENT_VERSION),
            r@ == head + payload@.subrange(0, i as int),
        decreases payload@.len() - i,
    {
        r.push(payload[i]);
        i = i + 1;
        assert(r@ =~= head + payload@.subrange(0, i as int));
    }
    assert(payload@.subrange(0, payload@.len() as int) =~= payload@);
    r
}

/// Splits a notebook file at the header and gates on its version: the payload
/// comes back only when the header carries the current version.
pub fn decode_notebook_file(bytes: &[u8]) -> (r: Result<Vec<u8>, ErrorCode>)
    ensures
        match r {
            Ok(p) => decoded(bytes@) == Ok::<Seq<u8>, ErrorCode>(p@),
            Err(e) => decoded(bytes@) == Err::<Seq<u8>, ErrorCode>(e),
        },
{
    let header = match FileHeader::from_bytes(bytes) {
        Some(h) => h,
        None => {
            return Err(ErrorCode::DeserializationError);
        },
    };
    if header.version != FILE_FORMAT_CURRENT_VERSION {
        return Err(ErrorCode::Unsupported);
    }
    let mut p: Vec<u8> = Vec::new();
    let mut i: usize = FILE_HEADER_SIZE;
    while i < bytes.len()
        invariant
            FILE_HEADER_SIZE <= i <= bytes@.len(),
            p@ == bytes@.subrange(FILE_HEADER_SIZE as int, i as int),
        decreases bytes@.len() - i,
    {
        p.push(bytes[i]);
        i = i + 1;
        assert(p@ =~= bytes@.subrange(FILE_HEADER_SIZE as int, i as int));
    }
    Ok(p)
}

/// Reading back a framed payload gives that payload exactly.
pub proof fn lemma_file_round_trip(payload: Seq<u8>)
    ensures
        decoded(file_bytes(payload)) == Ok::<Seq<u8>, ErrorCode>(payload),
{
    let b = file_bytes(payload);
    lemma_u32_le_round_trip(FILE_FORMAT_CURRENT_VERSION);
    assert(b.subrange(0, 4) =~= u32_le_bytes(FILE_FORMAT_CURRENT_VERSION));
    assert(b.subrange(FILE_HEADER_SIZE as int, b.len() as int) =~= payload);
}

/// A file whose header names any version but the current one is refused as
/// unsupported, whatever follows the header.
pub proof fn lemma_version_gate(version: u32, payload: Seq<u8>)
    requires
        version != FILE_FORMAT_CURRENT_VERSION,
    ensures
        decoded(u32_le_bytes(version) + payload) == Err::<Seq<u8>, ErrorCode>(ErrorCode::Unsupported),
{
    lemma_u32_le_round_trip(version);
    let b = u32_le_bytes(version) + payload;
    assert(b[0] == u32_le_bytes(version)[0] && b[1] == u32_le_bytes(version)[1]
        && b[2] == u32_le_bytes(version)[2] && b[3] == u32_le_bytes(version)[3]);
}

} // verus!
