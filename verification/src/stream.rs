//! Stream records and slices, and the bytes they are stored and sent as.

use crate::bytes::{append, array_at, copy_range, slice_eq};
use crate::error::Error;
use crate::head::{lemma_signed_bytes_injective, Head, SignedHead, EMPTY_ROOT, UNSIGNED};
use crate::id::StreamId;
use crate::tree::{decode_slice, decoded_of, is_slice_of, outboard_spec, root_spec};
use vstd::bytes::{spec_u64_from_le_bytes, spec_u64_to_le_bytes, u64_from_le_bytes, u64_to_le_bytes};
use vstd::prelude::*;
use vstd::std_specs::cmp::PartialEqSpecImpl;

verus! {

/// The bytes of a signed head followed by a counted byte string: 144 bytes
/// of head, the count in eight bytes, low byte first, and the string.
pub open spec fn framed(head: SignedHead, payload: Seq<u8>) -> Seq<u8> {
    head.bytes_spec() + spec_u64_to_le_bytes(payload.len() as u64) + payload
}

/// Whether `bytes` has the shape of a frame: a head, a count, and as many
/// bytes after the count as it announces.
pub open spec fn is_frame(bytes: Seq<u8>) -> bool {
    bytes.len() >= 152 && spec_u64_from_le_bytes(bytes.subrange(144, 152)) == bytes.len() - 152
}

/// A frame has the shape of a frame, and only what was framed has its bytes.
pub proof fn lemma_framed(head: SignedHead, payload: Seq<u8>)
    requires
        payload.len() <= u64::MAX,
    ensures
        is_frame(framed(head, payload)),
        framed(head, payload).subrange(0, 144) == head.bytes_spec(),
        framed(head, payload).subrange(152, framed(head, payload).len() as int) == payload,
{
    vstd::bytes::lemma_auto_spec_u64_to_from_le_bytes();
    let bytes = framed(head, payload);
    assert(bytes.subrange(144, 152) =~= spec_u64_to_le_bytes(payload.len() as u64));
    assert(bytes.subrange(0, 144) =~= head.bytes_spec());
    assert(bytes.subrange(152, bytes.len() as int) =~= payload);
}

/// Writes the frame of `head` and `payload`.
fn frame(head: &SignedHead, payload: &[u8]) -> (bytes: Vec<u8>)
    ensures
        bytes@ == framed(*head, payload@),
{
    let mut bytes = head.to_bytes();
    let count = u64_to_le_bytes(payload.len() as u64);
    append(&mut bytes, count.as_slice());
    append(&mut bytes, payload);
    bytes
}

/// Reads the head of a frame without touching what follows the count.
fn frame_head(bytes: &[u8]) -> (head: Option<SignedHead>)
    ensures
        head.is_some() <==> is_frame(bytes@),
        head matches Some(h) ==> h.bytes_spec() == bytes@.subrange(0, 144),
{
    if bytes.len() < 152 {
        return None;
    }
    let count: [u8; 8] = array_at(bytes, 144);
    let announced = u64_from_le_bytes(count.as_slice());
    if announced != (bytes.len() - 152) as u64 {
        return None;
    }
    let head: [u8; 144] = array_at(bytes, 0);
    SignedHead::from_bytes(head.as_slice())
}

/// Reads a frame back into its head and its payload.
fn unframe(bytes: &[u8]) -> (parts: Option<(SignedHead, Vec<u8>)>)
    ensures
        parts.is_some() <==> is_frame(bytes@),
        parts matches Some((head, payload)) ==> framed(head, payload@) == bytes@,
{
    let head = match frame_head(bytes) {
        Some(head) => head,
        None => {
            return None;
        },
    };
    let payload = copy_range(bytes, 152, bytes.len());
    proof {
        vstd::bytes::lemma_auto_spec_u64_to_from_le_bytes();
        let count = bytes@.subrange(144, 152);
        assert(spec_u64_to_le_bytes(spec_u64_from_le_bytes(count)) == count);
        assert(framed(head, payload@) =~= bytes@);
    }
    Some((head, payload))
}

/// What the index holds for a stream: its signed head and the outboard
/// encoding of the hash tree over its bytes.
#[derive(Clone, Debug, Eq)]
pub struct Stream {
    pub head: SignedHead,
    pub outboard: Vec<u8>,
}

impl PartialEq for Stream {
    fn eq(&self, other: &Self) -> (same: bool) {
        self.head == other.head && slice_eq(self.outboard.as_slice(), other.outboard.as_slice())
    }
}

impl PartialEqSpecImpl for Stream {
    open spec fn obeys_eq_spec() -> bool {
        true
    }

    open spec fn eq_spec(&self, other: &Self) -> bool {
        self.head == other.head && self.outboard@ == other.outboard@
    }
}

impl Stream {
    /// The head of the stream.
    pub fn head(&self) -> (head: &Head)
        ensures
            *head == self.head.head,
    {
        self.head.head()
    }

    /// The record of the empty stream `id`: an unsigned head with the root
    /// of no bytes, and an outboard encoding that is only the length zero.
    pub fn new(id: StreamId) -> (stream: Self)
        ensures
            stream.head.head.id == id,
            stream.head.head.hash == EMPTY_ROOT,
            stream.head.head.len == 0,
            stream.head.sig == UNSIGNED,
            stream.outboard@ == seq![0u8, 0u8, 0u8, 0u8, 0u8, 0u8, 0u8, 0u8],
            stream.commits_to(Seq::empty()),
            stream.is_record_of(id, Seq::empty()),
    {
        let mut outboard: Vec<u8> = Vec::new();
        let mut i: usize = 0;
        while i < 8
            invariant
                i <= 8,
                outboard@.len() == i,
                forall|j: int| 0 <= j < i ==> outboard@[j] == 0u8,
            decreases 8 - i,
        {
            outboard.push(0u8);
            i += 1;
        }
        proof {
            vstd::bytes::spec_u64_to_le_bytes_to_open(0);
            assert(0u64 & 0xff == 0 && (0u64 >> 8) & 0xff == 0 && (0u64 >> 16) & 0xff == 0 && (0u64
                >> 24) & 0xff == 0 && (0u64 >> 32) & 0xff == 0 && (0u64 >> 40) & 0xff == 0 && (0u64
                >> 48) & 0xff == 0 && (0u64 >> 56) & 0xff == 0) by (bit_vector);
            assert(outboard@ =~= spec_u64_to_le_bytes(0));
            assert(outboard@ =~= seq![0u8, 0u8, 0u8, 0u8, 0u8, 0u8, 0u8, 0u8]);
        }
        Self { head: SignedHead::new(id), outboard }
    }

    /// Whether the record commits to exactly the bytes `data`: the head
    /// gives their length and their root, and the outboard encoding is
    /// theirs.
    pub open spec fn commits_to(self, data: Seq<u8>) -> bool {
        &&& self.head.head.len == data.len()
        &&& self.head.head.hash@ == root_spec(data)
        &&& self.outboard@ == outboard_spec(data)
    }

    /// Whether the record is one that the index may hold under the key of
    /// the stream `id` while the stream's file holds the bytes `data`: it is
    /// a record of that stream, it commits to those bytes, and its head is
    /// either unsigned or signed by the stream's peer.
    pub open spec fn is_record_of(self, id: StreamId, data: Seq<u8>) -> bool {
        &&& self.head.head.id == id
        &&& self.commits_to(data)
        &&& self.head.sig != UNSIGNED ==> self.head.signature_valid()
    }

    /// The bytes that the index stores for the record.
    pub open spec fn bytes_spec(self) -> Seq<u8> {
        framed(self.head, self.outboard@)
    }

    /// The record as the index stores it: the signed head at a fixed place,
    /// then the counted outboard encoding.
    pub fn to_bytes(&self) -> (bytes: Vec<u8>)
        ensures
            bytes@ == self.bytes_spec(),
    {
        frame(&self.head, self.outboard.as_slice())
    }

    /// Reads a record back. Fails with `IntegrityError` unless `bytes` is
    /// what `to_bytes` writes for some record, and then yields that record.
    pub fn from_bytes(bytes: &[u8]) -> (stream: Result<Self, Error>)
        ensures
            match stream {
                Ok(s) => is_frame(bytes@) && s.bytes_spec() == bytes@,
                Err(e) => e == Error::IntegrityError && !is_frame(bytes@),
            },
    {
        match unframe(bytes) {
            Some((head, outboard)) => Ok(Self { head, outboard }),
            None => Err(Error::IntegrityError),
        }
    }

    /// Reads only the signed head of a stored record, leaving the outboard
    /// encoding where it is.
    pub fn head_from_bytes(bytes: &[u8]) -> (head: Result<SignedHead, Error>)
        ensures
            match head {
                Ok(h) => is_frame(bytes@) && h.bytes_spec() == bytes@.subrange(0, 144),
                Err(e) => e == Error::IntegrityError && !is_frame(bytes@),
            },
    {
        match frame_head(bytes) {
            Some(head) => Ok(head),
            None => Err(Error::IntegrityError),
        }
    }
}

/// A range of a stream for another peer: the signed head it is cut under
/// and the bytes of the range together with the tree nodes that prove them.
#[derive(Clone, Debug, Eq)]
pub struct Slice {
    pub head: SignedHead,
    pub data: Vec<u8>,
}

impl PartialEq for Slice {
    fn eq(&self, other: &Self) -> (same: bool) {
        self.head == other.head && slice_eq(self.data.as_slice(), other.data.as_slice())
    }
}

impl PartialEqSpecImpl for Slice {
    open spec fn obeys_eq_spec() -> bool {
        true
    }

    open spec fn eq_spec(&self, other: &Self) -> bool {
        self.head == other.head && self.data@ == other.data@
    }
}

impl Default for Slice {
    /// An empty slice under the default head.
    fn default() -> (slice: Self)
        ensures
            slice.head.head.id.stream == 0,
            slice.head.head.hash == EMPTY_ROOT,
            slice.head.head.len == 0,
            slice.head.sig == UNSIGNED,
            slice.data@.len() == 0,
    {
        Self::with_capacity(0)
    }
}

impl Slice {
    /// An empty slice under the default head, with room for `capacity` bytes.
    pub fn with_capacity(capacity: usize) -> (slice: Self)
        ensures
            forall|i: int| 0 <= i < 32 ==> slice.head.head.id.peer@[i] == 0,
            slice.head.head.id.stream == 0,
            slice.head.head.hash == EMPTY_ROOT,
            slice.head.head.len == 0,
            slice.head.sig == UNSIGNED,
            slice.data@.len() == 0,
    {
        Self { head: SignedHead::default(), data: Vec::with_capacity(capacity) }
    }

    /// The bytes that carry the slice to another peer.
    pub open spec fn bytes_spec(self) -> Seq<u8> {
        framed(self.head, self.data@)
    }

    /// The slice as it is sent: a function of the head and the data alone,
    /// so that equal slices are equal byte for byte.
    pub fn to_bytes(&self) -> (bytes: Vec<u8>)
        ensures
            bytes@ == self.bytes_spec(),
    {
        frame(&self.head, self.data.as_slice())
    }

    /// Reads a slice back. Fails with `IntegrityError` unless `bytes` is
    /// what `to_bytes` writes for some slice, and then yields that slice.
    pub fn from_bytes(bytes: &[u8]) -> (slice: Result<Self, Error>)
        ensures
            match slice {
                Ok(s) => is_frame(bytes@) && s.bytes_spec() == bytes@,
                Err(e) => e == Error::IntegrityError && !is_frame(bytes@),
            },
    {
        match unframe(bytes) {
            Some((head, data)) => Ok(Self { head, data }),
            None => Err(Error::IntegrityError),
        }
    }

    /// What `decode` yields for the range of `len` bytes at `start`.
    pub open spec fn decode_spec(self, start: u64, len: u64) -> Option<Seq<u8>> {
        decoded_of(self.data@, self.head.head.hash@, start, len)
    }

    /// Checks the slice against the root of its head and yields the bytes
    /// of the range of `len` bytes at `start`. Fails with `IntegrityError`
    /// where the slice does not hash up to that root. A slice that was cut
    /// for this range from bytes the head commits to yields exactly the
    /// bytes of the range.
    pub fn decode(&self, start: u64, len: u64) -> (bytes: Result<Vec<u8>, Error>)
        ensures
            match bytes {
                Ok(b) => self.decode_spec(start, len) == Some(b@) && b@.len() <= len,
                Err(e) => e == Error::IntegrityError && self.decode_spec(start, len).is_none(),
            },
            forall|data: Seq<u8>|
                #![trigger is_slice_of(self.data@, data, start, len)]
                is_slice_of(self.data@, data, start, len) && self.head.head.hash@ == root_spec(data)
                    ==> bytes.is_ok() && bytes.unwrap()@ == data.subrange(
                    start as int,
                    start + len,
                ),
    {
        match decode_slice(self.data.as_slice(), &self.head.head.hash, start, len) {
            Some(bytes) => Ok(bytes),
            None => Err(Error::IntegrityError),
        }
    }
}

/// Only one record has the bytes of a record: reading back what was
/// written gives the head and the outboard encoding that were written.
pub proof fn lemma_record_roundtrip(stream: Stream, other: Stream)
    requires
        other.bytes_spec() == stream.bytes_spec(),
    ensures
        is_frame(stream.bytes_spec()),
        other.head == stream.head,
        other.outboard@ == stream.outboard@,
{
    assert(stream.outboard@.len() == stream.outboard.len());
    assert(other.outboard@.len() == other.outboard.len());
    lemma_framed(stream.head, stream.outboard@);
    lemma_framed(other.head, other.outboard@);
    lemma_signed_bytes_injective(stream.head, other.head);
}

} // verus!
