//! The chunk receiver's decisions: whether a part may be stored, under which
//! name, and whether its stored bytes match the checksum the client sent.
use vstd::prelude::*;
use crate::naming::{chunk_file_name, chunk_name, is_valid_upload_id, valid_upload_id};

verus! {

/// Why a chunk part is refused.
#[derive(Debug, Clone, PartialEq, Eq)]
pub enum ReceiveError {
    /// The id holds the delimiter of part names.
    InvalidId,
    /// A part is already stored under this id and sequence number.
    DuplicatePart,
    /// The stored bytes do not hash to the checksum sent.
    HashMismatch { expected: u32, computed: u32 },
}

/// The seed of the checksum over a chunk's bytes.
pub const CHUNK_HASH_SEED: u32 = 0;

/// The 32-bit XXH32 checksum of `data` under `seed`.
pub uninterp spec fn xxh32_of(data: Seq<u8>, seed: u32) -> u32;

/// Relies on `xxhash_rust::xxh32::xxh32`: a function of the bytes and the
/// seed alone.
#[verifier::external_body]
fn xxh32_digest(data: &[u8], seed: u32) -> (r: u32)
    ensures
        r == xxh32_of(data@, seed),
{
    xxhash_rust::xxh32::xxh32(data, seed)
}

/// The verdict on a stored chunk whose bytes hash to `computed`.
pub open spec fn hash_outcome(computed: u32, expected: Option<u32>) -> Result<(), ReceiveError> {
    match expected {
        None => Ok(()),
        Some(h) => if h == computed {
            Ok(())
        } else {
            Err(ReceiveError::HashMismatch { expected: h, computed })
        },
    }
}

/// Compares the checksum of the stored bytes with the one sent, if any.
pub fn hash_verdict(computed: u32, expected: Option<u32>) -> (r: Result<(), ReceiveError>)
    ensures
        r == hash_outcome(computed, expected),
{
    match expected {
        None => Ok(()),
        Some(h) => if h == computed {
            Ok(())
        } else {
            Err(ReceiveError::HashMismatch { expected: h, computed })
        },
    }
}

/// Checks the bytes read back from the chunk store against the checksum sent.
pub fn check_stored_chunk(bytes: &[u8], expected: Option<u32>) -> (r: Result<(), ReceiveError>)
    ensures
        r == hash_outcome(xxh32_of(bytes@, CHUNK_HASH_SEED), expected),
{
    match expected {
        None => Ok(()),
        Some(_) => {
            let computed = xxh32_digest(bytes, CHUNK_HASH_SEED);
            hash_verdict(computed, expected)
        },
    }
}

/// The decision on storing part `seq` of upload `id`.
pub open spec fn admission(id: Seq<char>, seq: u32, already_stored: bool) -> Result<
    Seq<char>,
    ReceiveError,
> {
    if !valid_upload_id(id) {
        Err(ReceiveError::InvalidId)
    } else if already_stored {
        Err(ReceiveError::DuplicatePart)
    } else {
        Ok(chunk_name(id, seq as nat))
    }
}

/// Decides whether part `seq` of upload `id` may be stored, given whether a
/// part is already stored under its name, and gives the name to store it
/// under.
pub fn admit_chunk(id: &str, seq: u32, already_stored: bool) -> (r: Result<String, ReceiveError>)
    ensures
        match r {
            Ok(name) => admission(id@, seq, already_stored) == Ok::<Seq<char>, ReceiveError>(
                name@,
            ),
            Err(e) => admission(id@, seq, already_stored) == Err::<Seq<char>, ReceiveError>(e),
        },
{
    if !is_valid_upload_id(id) {
        return Err(ReceiveError::InvalidId);
    }
    if already_stored {
        return Err(ReceiveError::DuplicatePart);
    }
    Ok(chunk_file_name(id, seq))
}

} // verus!
