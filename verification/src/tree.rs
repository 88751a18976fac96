//! The hash tree over a stream's bytes: a BLAKE3 tree in the Bao outboard
//! encoding, the slices cut from it, and their verification.

use crate::head::EMPTY_ROOT;
use vstd::bytes::{spec_u64_from_le_bytes, spec_u64_to_le_bytes};
use vstd::prelude::*;

verus! {

/// What `bao::encode::outboard` computes for bytes that are not empty: the
/// parent nodes of the tree in pre-order, which follow the length header of
/// the outboard encoding, and the root hash.
pub uninterp spec fn tree_of(data: Seq<u8>) -> (Seq<u8>, Seq<u8>);

/// What a `bao::encode::SliceExtractor` yields for the range of `len` bytes
/// at `start`, read to its end over `data` and `outboard`, unless it fails.
pub uninterp spec fn slice_of(data: Seq<u8>, outboard: Seq<u8>, start: u64, len: u64) -> Option<
    Seq<u8>,
>;

/// What a `bao::decode::SliceDecoder` yields for `slice`, read to its end
/// under the root `root` for the range of `len` bytes at `start`, unless it
/// fails.
pub uninterp spec fn decoded_of(slice: Seq<u8>, root: Seq<u8>, start: u64, len: u64) -> Option<
    Seq<u8>,
>;

/// The outboard encoding of `data`: its length in eight bytes, low byte
/// first, then the parent nodes of its tree. Bytes that fit one chunk have
/// no parent nodes.
pub open spec fn outboard_spec(data: Seq<u8>) -> Seq<u8> {
    if data.len() == 0 {
        spec_u64_to_le_bytes(0)
    } else {
        spec_u64_to_le_bytes(data.len() as u64) + tree_of(data).0
    }
}

/// The root hash of `data`.
pub open spec fn root_spec(data: Seq<u8>) -> Seq<u8> {
    if data.len() == 0 {
        EMPTY_ROOT@
    } else {
        tree_of(data).1
    }
}

/// Whether `outboard` starts with a length header that gives `len`.
pub open spec fn header_gives(outboard: Seq<u8>, len: nat) -> bool {
    outboard.len() >= 8 && spec_u64_from_le_bytes(outboard.subrange(0, 8)) == len
}

/// Whether `slice` is what the extractor cuts from `data` and its own
/// outboard encoding for a range that lies inside `data`.
pub open spec fn is_slice_of(slice: Seq<u8>, data: Seq<u8>, start: u64, len: u64) -> bool {
    start + len <= data.len() && slice_of(data, outboard_spec(data), start, len) == Some(slice)
}

/// The outboard encoding of any bytes starts with their length.
pub proof fn lemma_outboard_header(data: Seq<u8>)
    requires
        data.len() <= u64::MAX,
    ensures
        header_gives(outboard_spec(data), data.len()),
{
    vstd::bytes::lemma_auto_spec_u64_to_from_le_bytes();
    let header = spec_u64_to_le_bytes(data.len() as u64);
    assert(outboard_spec(data).subrange(0, 8) =~= header);
}

/// Calls `bao::encode::outboard`: the outboard encoding and the root hash
/// of `data`. For no bytes these are the header of length zero and the
/// BLAKE3 hash of the empty input.
#[verifier::external_body]
pub(crate) fn outboard(data: &[u8]) -> (tree: (Vec<u8>, [u8; 32]))
    ensures
        tree.0@ == outboard_spec(data@),
        tree.1@ == root_spec(data@),
        data@.len() > 0 ==> (tree.0@.skip(8), tree.1@) == tree_of(data@),
{
    let (outboard, hash) = bao::encode::outboard(data);
    (outboard, *hash.as_bytes())
}

/// Reads a `bao::encode::SliceExtractor::new_outboard` over the two byte
/// strings to its end. The header of `outboard` has to give the length of
/// `data`. The extractor copies chunks and parent nodes without hashing,
/// fails where `outboard` ends before the nodes it needs, and succeeds on
/// the outboard encoding of `data` itself.
#[verifier::external_body]
pub(crate) fn extract_slice(data: &[u8], outboard: &[u8], start: u64, len: u64) -> (slice: Option<
    Vec<u8>,
>)
    requires
        header_gives(outboard@, data@.len()),
    ensures
        match slice {
            Some(s) => slice_of(data@, outboard@, start, len) == Some(s@),
            None => slice_of(data@, outboard@, start, len).is_none(),
        },
        outboard@ == outboard_spec(data@) ==> slice.is_some(),
{
    let mut slice = Vec::new();
    let mut extractor = bao::encode::SliceExtractor::new_outboard(
        std::io::Cursor::new(data),
        std::io::Cursor::new(outboard),
        start,
        len,
    );
    match std::io::Read::read_to_end(&mut extractor, &mut slice) {
        Ok(_) => Some(slice),
        Err(_) => None,
    }
}

/// Reads a `bao::decode::SliceDecoder::new` over `slice` to its end. The
/// decoder fails unless every chunk and node of the slice hashes up to
/// `root`; it never yields more than `len` bytes; and of a slice that the
/// extractor cut from some bytes with that root, for a range inside them,
/// it yields exactly the bytes of that range.
#[verifier::external_body]
pub(crate) fn decode_slice(slice: &[u8], root: &[u8; 32], start: u64, len: u64) -> (bytes: Option<
    Vec<u8>,
>)
    ensures
        match bytes {
            Some(b) => decoded_of(slice@, root@, start, len) == Some(b@) && b@.len() <= len,
            None => decoded_of(slice@, root@, start, len).is_none(),
        },
        forall|data: Seq<u8>|
            #![trigger is_slice_of(slice@, data, start, len)]
            is_slice_of(slice@, data, start, len) && root@ == root_spec(data) ==> bytes.is_some()
                && bytes.unwrap()@ == data.subrange(start as int, start + len),
{
    let hash = bao::Hash::from(*root);
    let mut bytes = Vec::new();
    let mut decoder = bao::decode::SliceDecoder::new(slice, &hash, start, len);
    match std::io::Read::read_to_end(&mut decoder, &mut bytes) {
        Ok(_) => Some(bytes),
        Err(_) => None,
    }
}

} // verus!
