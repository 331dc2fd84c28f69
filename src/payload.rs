//! Compression of a serialized request into one Snappy block, and the way back.
use vstd::prelude::*;
use crate::outcome::ExportError;

verus! {

/// The raw Snappy block that snap's encoder produces for `b`.
pub uninterp spec fn snappy_block_of(b: Seq<u8>) -> Seq<u8>;

/// Whether `n` bytes fit in one block: snap's bound on the compressed size,
/// `32 + n + n / 6`, must not exceed `u32::MAX`.
pub open spec fn fits_one_block(n: nat) -> bool {
    32 + n + n / 6 <= 0xFFFF_FFFF
}

/// What decompressing `c` gives: the input of any block `c` is.
pub open spec fn decodes_to(c: Seq<u8>, d: Option<Seq<u8>>) -> bool {
    forall|x: Seq<u8>|
        #![trigger snappy_block_of(x)]
        c == snappy_block_of(x) && fits_one_block(x.len()) ==> d == Some(x)
}

/// Relies on snap::raw::Encoder::compress_vec: the whole input as one raw
/// block; it fails exactly when `max_compress_len` is 0.
#[verifier::external_body]
fn snappy_compress(b: &Vec<u8>) -> (r: Option<Vec<u8>>)
    ensures
        r is Some <==> fits_one_block(b@.len()),
        r matches Some(c) ==> c@ == snappy_block_of(b@),
{
    snap::raw::Encoder::new().compress_vec(b.as_slice()).ok()
}

/// Relies on snap::raw::Decoder::decompress_vec: a block that snap's encoder
/// made decodes to that encoder's input.
#[verifier::external_body]
fn snappy_decompress(c: &Vec<u8>) -> (r: Option<Vec<u8>>)
    ensures
        decodes_to(
            c@,
            match r {
                Some(d) => Some(d@),
                None => None,
            },
        ),
{
    snap::raw::Decoder::new().decompress_vec(c.as_slice()).ok()
}

/// Compresses a serialized request as one Snappy block.
pub fn compress_payload(encoded: &Vec<u8>) -> (r: Result<Vec<u8>, ExportError>)
    ensures
        r is Ok <==> fits_one_block(encoded@.len()),
        r matches Ok(c) ==> c@ == snappy_block_of(encoded@),
        r matches Err(e) ==> e == ExportError::Compression,
{
    match snappy_compress(encoded) {
        Some(c) => Ok(c),
        None => Err(ExportError::Compression),
    }
}

/// Decompresses one Snappy block; `None` where the bytes are not a block.
pub fn decompress_payload(compressed: &Vec<u8>) -> (r: Option<Vec<u8>>)
    ensures
        decodes_to(
            compressed@,
            match r {
                Some(d) => Some(d@),
                None => None,
            },
        ),
{
    snappy_decompress(compressed)
}

/// Decompressing what `compress_payload` made of `encoded` gives `encoded`
/// back, byte for byte.
pub proof fn lemma_payload_round_trip(encoded: Seq<u8>, compressed: Seq<u8>, back: Option<Seq<u8>>)
    requires
        fits_one_block(encoded.len()),
        compressed == snappy_block_of(encoded),
        decodes_to(compressed, back),
    ensures
        back == Some(encoded),
{
    assert(compressed == snappy_block_of(encoded));
}

} // verus!
