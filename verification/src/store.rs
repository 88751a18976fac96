//! The storage engine: what it decides for every operation on the index of
//! records and the files of stream bytes. It reads neither; the caller
//! hands it what the index holds under a stream's key and what the
//! stream's file holds, and carries out what comes back.

use crate::error::Error;
use crate::head::SignedHead;
use crate::id::{lemma_id_bytes_injective, StreamId};
use crate::lock::{LockTable, StreamLock};
use crate::reader::StreamReader;
use crate::signature::Keypair;
use crate::stream::{is_frame, lemma_framed, Slice, Stream};
use crate::tree::{header_gives, is_slice_of, outboard_spec, root_spec, slice_of};
use crate::writer::{share, StreamWriter, WriterState};
use crate::bytes::array_eq;
use std::sync::Arc;
use vstd::bytes::{spec_u64_from_le_bytes, spec_u64_to_le_bytes};
use vstd::prelude::*;

verus! {

/// The bytes that the index holds under a key, if it holds any.
pub open spec fn view_of(stored: Option<&[u8]>) -> Option<Seq<u8>> {
    match stored {
        Some(bytes) => Some(bytes@),
        None => None,
    }
}

/// The identifier bytes of a stored record.
pub open spec fn stored_id(bytes: Seq<u8>) -> Seq<u8> {
    bytes.subrange(0, 40)
}

/// The root in the head of a stored record.
pub open spec fn stored_root(bytes: Seq<u8>) -> Seq<u8> {
    bytes.subrange(40, 72)
}

/// The length in the head of a stored record.
pub open spec fn stored_len(bytes: Seq<u8>) -> u64 {
    spec_u64_from_le_bytes(bytes.subrange(72, 80))
}

/// The signed head of a stored record.
pub open spec fn stored_head(bytes: Seq<u8>) -> Seq<u8> {
    bytes.subrange(0, 144)
}

/// The outboard encoding of a stored record.
pub open spec fn stored_outboard(bytes: Seq<u8>) -> Seq<u8> {
    bytes.skip(152)
}

/// Whether a stored record commits to exactly the bytes `data`.
pub open spec fn stored_commits_to(bytes: Seq<u8>, data: Seq<u8>) -> bool {
    &&& stored_len(bytes) == data.len()
    &&& stored_root(bytes) == root_spec(data)
    &&& stored_outboard(bytes) == outboard_spec(data)
}

/// Why the record of `id` cannot be had from what the index holds: there is
/// none, or what is there is no record of that stream.
pub open spec fn load_refusal(stored: Option<Seq<u8>>, id: StreamId) -> Option<Error> {
    match stored {
        None => Some(Error::NotFound),
        Some(bytes) => if is_frame(bytes) && stored_id(bytes) == id.bytes_spec() {
            None
        } else {
            Some(Error::IntegrityError)
        },
    }
}

/// Why no writer is admitted to the stream `id`, if none is: another holds
/// it; the index has no record of it; the stream is to be signed by
/// `signer` and belongs to another peer; what the index holds is no record
/// of it; or its file has fewer than `file_len` bytes.
pub open spec fn append_refusal(
    held: Set<StreamId>,
    stored: Option<Seq<u8>>,
    id: StreamId,
    signer: Option<Seq<u8>>,
    file_len: nat,
) -> Option<Error> {
    if held.contains(id) {
        Some(Error::Busy)
    } else if stored.is_none() {
        Some(Error::NotFound)
    } else if signer.is_some() && signer.unwrap() != id.peer@ {
        Some(Error::NotLocal)
    } else if load_refusal(stored, id).is_some() {
        load_refusal(stored, id)
    } else if file_len < stored_len(stored.unwrap()) {
        Some(Error::IntegrityError)
    } else {
        None
    }
}

/// Why the stream `id` cannot be removed, if it cannot.
pub open spec fn remove_refusal(
    held: Set<StreamId>,
    stored: Option<Seq<u8>>,
    id: StreamId,
) -> Option<Error> {
    if held.contains(id) {
        Some(Error::Busy)
    } else if stored.is_none() {
        Some(Error::NotFound)
    } else {
        None
    }
}

/// Why no reader is made for the range of `len` bytes at `start` of the
/// stream `id`, if none is.
pub open spec fn slice_refusal(
    stored: Option<Seq<u8>>,
    id: StreamId,
    start: u64,
    len: u64,
) -> Option<Error> {
    if load_refusal(stored, id).is_some() {
        load_refusal(stored, id)
    } else if start + len > stored_len(stored.unwrap()) {
        Some(Error::RangeOutOfBounds)
    } else {
        None
    }
}

/// The slice that is cut for a range from a stored record and the bytes
/// `data` of the stream's file, if one is.
pub open spec fn stored_slice(bytes: Seq<u8>, data: Seq<u8>, start: u64, len: u64) -> Option<
    Seq<u8>,
> {
    let counted = stored_len(bytes);
    if data.len() >= counted && header_gives(stored_outboard(bytes), counted as nat) {
        slice_of(data.take(counted as int), stored_outboard(bytes), start, len)
    } else {
        None
    }
}

/// Why no slice is extracted, if none is.
pub open spec fn extract_refusal(
    stored: Option<Seq<u8>>,
    id: StreamId,
    data: Seq<u8>,
    start: u64,
    len: u64,
) -> Option<Error> {
    if slice_refusal(stored, id, start, len).is_some() {
        slice_refusal(stored, id, start, len)
    } else if stored_slice(stored.unwrap(), data, start, len).is_none() {
        Some(Error::IntegrityError)
    } else {
        None
    }
}

/// Whether `item` is what the listing shows for an entry of the index: the
/// identifier of the key and the signed head of the value, or
/// `IntegrityError` where the key is no identifier or the value no record
/// of that stream.
pub open spec fn lists(
    key: Seq<u8>,
    value: Seq<u8>,
    item: Result<(StreamId, SignedHead), Error>,
) -> bool {
    match item {
        Ok((id, head)) => {
            &&& id.bytes_spec() == key
            &&& is_frame(value)
            &&& head.bytes_spec() == stored_head(value)
            &&& head.head.id == id
        },
        Err(e) => {
            &&& e == Error::IntegrityError
            &&& (key.len() != 40 || !is_frame(value) || stored_id(value) != key)
        },
    }
}

/// What the fields of the bytes of a record are.
pub proof fn lemma_stored_fields(record: Stream)
    ensures
        is_frame(record.bytes_spec()),
        stored_id(record.bytes_spec()) == record.head.head.id.bytes_spec(),
        stored_root(record.bytes_spec()) == record.head.head.hash@,
        stored_len(record.bytes_spec()) == record.head.head.len,
        stored_head(record.bytes_spec()) == record.head.bytes_spec(),
        stored_outboard(record.bytes_spec()) == record.outboard@,
        forall|data: Seq<u8>|
            stored_commits_to(record.bytes_spec(), data) == record.commits_to(data),
{
    vstd::bytes::lemma_auto_spec_u64_to_from_le_bytes();
    assert(record.outboard@.len() == record.outboard.len());
    lemma_framed(record.head, record.outboard@);
    let bytes = record.bytes_spec();
    assert(stored_id(bytes) =~= record.head.head.id.bytes_spec());
    assert(stored_root(bytes) =~= record.head.head.hash@);
    assert(bytes.subrange(72, 80) =~= spec_u64_to_le_bytes(record.head.head.len));
    assert(stored_head(bytes) =~= record.head.bytes_spec());
    assert(stored_outboard(bytes) =~= record.outboard@);
}

/// The engine: the key of the local peer and the table of held streams.
pub struct StreamStorage {
    key: Arc<Keypair>,
    locks: LockTable,
}

impl StreamStorage {
    /// The key of the local peer.
    pub closed spec fn key_spec(self) -> Arc<Keypair> {
        self.key
    }

    /// The streams that a writer or a remover holds.
    pub closed spec fn held(self) -> Set<StreamId> {
        self.locks@
    }

    /// An engine for the peer of `key`, with no stream held.
    pub fn open(key: Keypair) -> (storage: Self)
        ensures
            *storage.key_spec() == key,
            storage.held() == Set::<StreamId>::empty(),
    {
        Self { key: Arc::new(key), locks: LockTable::new() }
    }

    /// The public key of the local peer.
    pub fn peer(&self) -> (peer: &[u8; 32])
        ensures
            peer@ == self.key_spec().public_spec(),
    {
        self.key.public()
    }

    /// The name of the file that holds the bytes of the stream `id`, in the
    /// directory of stream files: the canonical text of the identifier.
    pub fn stream_path(id: &StreamId) -> (name: String)
        ensures
            name@ == id.text_spec(),
    {
        id.to_string()
    }

    /// Whether a writer or a remover holds the stream `id`.
    pub fn is_busy(&self, id: &StreamId) -> (busy: bool)
        ensures
            busy == self.held().contains(*id),
    {
        self.locks.is_held(id)
    }

    /// The record of the stream `id` from what the index holds under its
    /// key. Fails with `NotFound` where the index holds nothing, and with
    /// `IntegrityError` where it holds no record of that stream.
    pub fn get_stream(id: &StreamId, stored: Option<&[u8]>) -> (record: Result<Stream, Error>)
        ensures
            match record {
                Ok(r) => load_refusal(view_of(stored), *id).is_none() && r.bytes_spec()
                    == stored.unwrap()@ && r.head.head.id == *id,
                Err(e) => load_refusal(view_of(stored), *id) == Some(e),
            },
    {
        let bytes = match stored {
            Some(bytes) => bytes,
            None => {
                return Err(Error::NotFound);
            },
        };
        let record = match Stream::from_bytes(bytes) {
            Ok(record) => record,
            Err(e) => {
                return Err(e);
            },
        };
        proof {
            lemma_stored_fields(record);
            if stored_id(bytes@) == id.bytes_spec() {
                lemma_id_bytes_injective(record.head.head.id, *id);
            }
        }
        if record.head.head.id != *id {
            return Err(Error::IntegrityError);
        }
        Ok(record)
    }

    /// What the listing shows for one entry of the index.
    pub fn entry(key: &[u8], value: &[u8]) -> (item: Result<(StreamId, SignedHead), Error>)
        ensures
            lists(key@, value@, item),
    {
        let id = match StreamId::from_bytes(key) {
            Some(id) => id,
            None => {
                return Err(Error::IntegrityError);
            },
        };
        let head = match Stream::head_from_bytes(value) {
            Ok(head) => head,
            Err(e) => {
                return Err(e);
            },
        };
        proof {
            vstd::bytes::lemma_auto_spec_u64_to_from_le_bytes();
            assert(stored_id(value@) =~= stored_head(value@).subrange(0, 40));
            assert(head.bytes_spec().subrange(0, 40) =~= head.head.id.bytes_spec());
            if stored_id(value@) == key@ {
                lemma_id_bytes_injective(head.head.id, id);
            }
        }
        if head.head.id != id {
            return Err(Error::IntegrityError);
        }
        Ok((id, head))
    }

    /// The listing of the index: for every entry, in the order of the
    /// entries, the stream and its signed head.
    pub fn streams(&self, entries: &Vec<(Vec<u8>, Vec<u8>)>) -> (listing: Vec<
        Result<(StreamId, SignedHead), Error>,
    >)
        ensures
            listing@.len() == entries@.len(),
            forall|i: int|
                0 <= i < entries@.len() ==> lists(
                    (#[trigger] entries@[i]).0@,
                    entries@[i].1@,
                    listing@[i],
                ),
    {
        let mut listing: Vec<Result<(StreamId, SignedHead), Error>> = Vec::new();
        let mut i: usize = 0;
        while i < entries.len()
            invariant
                i <= entries@.len(),
                listing@.len() == i,
                forall|j: int|
                    0 <= j < i ==> lists((#[trigger] entries@[j]).0@, entries@[j].1@, listing@[j]),
            decreases entries.len() - i,
        {
            let item = Self::entry(entries[i].0.as_slice(), entries[i].1.as_slice());
            listing.push(item);
            i += 1;
        }
        listing
    }

    /// The next stream of the local peer: its identifier, made of the
    /// peer's public key and the number that the index's counter gave, and
    /// its empty record, which is to be stored under that identifier.
    pub fn create_local_stream(&self, number: u64) -> (created: (StreamId, Stream))
        ensures
            created.0.peer@ == self.key_spec().public_spec(),
            created.0.stream == number,
            created.1.head.head.id == created.0,
            created.1.head.head.len == 0,
            created.1.head.head.hash == crate::head::EMPTY_ROOT,
            created.1.head.sig == crate::head::UNSIGNED,
            created.1.commits_to(Seq::empty()),
            created.1.is_record_of(created.0, Seq::empty()),
    {
        let id = StreamId::new(*self.key.public(), number);
        (id, Stream::new(id))
    }

    /// The empty record of the stream `id` of another peer, which is to be
    /// stored under that identifier. Fails with `AlreadyExists` where the
    /// index holds something under it.
    pub fn create_replicated_stream(&self, id: &StreamId, stored: Option<&[u8]>) -> (record: Result<
        Stream,
        Error,
    >)
        ensures
            match record {
                Ok(r) => stored.is_none() && r.head.head.id == *id && r.head.head.len == 0
                    && r.head.head.hash == crate::head::EMPTY_ROOT && r.head.sig
                    == crate::head::UNSIGNED && r.commits_to(Seq::empty()) && r.is_record_of(
                    *id,
                    Seq::empty(),
                ),
                Err(e) => e == Error::AlreadyExists && stored.is_some(),
            },
    {
        match stored {
            Some(_) => Err(Error::AlreadyExists),
            None => Ok(Stream::new(*id)),
        }
    }

    /// Checks in the order of `append_refusal` whether a writer can be
    /// admitted, and takes the lock for it.
    fn let_in(
        &mut self,
        id: &StreamId,
        stored: Option<&[u8]>,
        local: bool,
        file_len: usize,
    ) -> (admitted: Result<(Stream, StreamLock), Error>)
        ensures
            final(self).key_spec() == old(self).key_spec(),
            match admitted {
                Ok((record, lock)) => {
                    &&& append_refusal(
                        old(self).held(),
                        view_of(stored),
                        *id,
                        if local {
                            Some(old(self).key_spec().public_spec())
                        } else {
                            None
                        },
                        file_len as nat,
                    ).is_none()
                    &&& final(self).held() == old(self).held().insert(*id)
                    &&& record.bytes_spec() == stored.unwrap()@
                    &&& record.head.head.id == *id
                    &&& record.head.head.len <= file_len
                    &&& lock.id_spec() == *id
                },
                Err(e) => {
                    &&& append_refusal(
                        old(self).held(),
                        view_of(stored),
                        *id,
                        if local {
                            Some(old(self).key_spec().public_spec())
                        } else {
                            None
                        },
                        file_len as nat,
                    ) == Some(e)
                    &&& final(self).held() == old(self).held()
                },
            },
    {
        if self.locks.is_held(id) {
            return Err(Error::Busy);
        }
        if stored.is_none() {
            return Err(Error::NotFound);
        }
        if local && !array_eq(self.key.public(), &id.peer) {
            return Err(Error::NotLocal);
        }
        let record = match Self::get_stream(id, stored) {
            Ok(record) => record,
            Err(e) => {
                return Err(e);
            },
        };
        proof {
            lemma_stored_fields(record);
        }
        if (file_len as u64) < record.head.head.len {
            return Err(Error::IntegrityError);
        }
        match self.locks.acquire(*id) {
            Ok(lock) => Ok((record, lock)),
            Err(e) => Err(e),
        }
    }

    /// A writer for the stream `id` of the local peer, which signs what it
    /// commits. `stored` is what the index holds under the stream's key and
    /// `data` what the stream's file holds. Fails at once with `Busy` where
    /// the stream is held, then with `NotFound` where the index has no
    /// record, with `NotLocal` where the stream is another peer's, and with
    /// `IntegrityError` where the record is none of this stream or counts
    /// more bytes than the file has. On success the stream is held.
    pub fn append_local_stream(
        &mut self,
        id: &StreamId,
        stored: Option<&[u8]>,
        data: Vec<u8>,
    ) -> (writer: Result<StreamWriter<Arc<Keypair>>, Error>)
        ensures
            final(self).key_spec() == old(self).key_spec(),
            match writer {
                Ok(w) => {
                    &&& append_refusal(
                        old(self).held(),
                        view_of(stored),
                        *id,
                        Some(old(self).key_spec().public_spec()),
                        data@.len(),
                    ).is_none()
                    &&& final(self).held() == old(self).held().insert(*id)
                    &&& w.id_spec() == *id
                    &&& w.lock_spec().id_spec() == *id
                    &&& w.record_spec().bytes_spec() == stored.unwrap()@
                    &&& w.data_spec() == data@.take(stored_len(stored.unwrap()@) as int)
                    &&& w.key_spec() == old(self).key_spec()
                    &&& w.state_spec() == WriterState::Open
                },
                Err(e) => {
                    &&& append_refusal(
                        old(self).held(),
                        view_of(stored),
                        *id,
                        Some(old(self).key_spec().public_spec()),
                        data@.len(),
                    ) == Some(e)
                    &&& final(self).held() == old(self).held()
                },
            },
    {
        match self.let_in(id, stored, true, data.len()) {
            Ok((record, lock)) => {
                proof {
                    lemma_stored_fields(record);
                }
                Ok(StreamWriter::new(record, data, lock, share(&self.key)))
            },
            Err(e) => Err(e),
        }
    }

    /// A writer for the stream `id` that appends slices signed elsewhere.
    /// Fails as `append_local_stream` does, but for `NotLocal`.
    pub fn append_replicated_stream(
        &mut self,
        id: &StreamId,
        stored: Option<&[u8]>,
        data: Vec<u8>,
    ) -> (writer: Result<StreamWriter<()>, Error>)
        ensures
            final(self).key_spec() == old(self).key_spec(),
            match writer {
                Ok(w) => {
                    &&& append_refusal(
                        old(self).held(),
                        view_of(stored),
                        *id,
                        None,
                        data@.len(),
                    ).is_none()
                    &&& final(self).held() == old(self).held().insert(*id)
                    &&& w.id_spec() == *id
                    &&& w.lock_spec().id_spec() == *id
                    &&& w.record_spec().bytes_spec() == stored.unwrap()@
                    &&& w.data_spec() == data@.take(stored_len(stored.unwrap()@) as int)
                    &&& w.state_spec() == WriterState::Open
                },
                Err(e) => {
                    &&& append_refusal(old(self).held(), view_of(stored), *id, None, data@.len())
                        == Some(e)
                    &&& final(self).held() == old(self).held()
                },
            },
    {
        match self.let_in(id, stored, false, data.len()) {
            Ok((record, lock)) => {
                proof {
                    lemma_stored_fields(record);
                }
                Ok(StreamWriter::new(record, data, lock, ()))
            },
            Err(e) => Err(e),
        }
    }

    /// Takes the stream `id` for its removal. Fails at once with `Busy`
    /// where the stream is held and with `NotFound` where the index has no
    /// record of it. With the lock that comes back the stream's file and
    /// then its entry in the index are deleted, and the lock is released.
    pub fn remove_stream(&mut self, id: &StreamId, stored: Option<&[u8]>) -> (lock: Result<
        StreamLock,
        Error,
    >)
        ensures
            final(self).key_spec() == old(self).key_spec(),
            match lock {
                Ok(l) => remove_refusal(old(self).held(), view_of(stored), *id).is_none()
                    && l.id_spec() == *id && final(self).held() == old(self).held().insert(*id),
                Err(e) => remove_refusal(old(self).held(), view_of(stored), *id) == Some(e)
                    && final(self).held() == old(self).held(),
            },
    {
        if self.locks.is_held(id) {
            return Err(Error::Busy);
        }
        if stored.is_none() {
            return Err(Error::NotFound);
        }
        self.locks.acquire(*id)
    }

    /// Gives up the hold on the stream of `lock`, when a session or a
    /// removal has ended.
    pub fn release(&mut self, lock: StreamLock)
        ensures
            final(self).key_spec() == old(self).key_spec(),
            final(self).held() == old(self).held().remove(lock.id_spec()),
    {
        self.locks.release(lock);
    }

    /// A reader of the `len` bytes at `start` of the stream `id`, bound to
    /// the head that the index holds now. Fails with `NotFound` where the
    /// index has no record, with `IntegrityError` where it holds no record
    /// of this stream, and with `RangeOutOfBounds` where the range does not
    /// end inside the stream.
    pub fn slice(
        &self,
        id: &StreamId,
        stored: Option<&[u8]>,
        start: u64,
        len: u64,
    ) -> (reader: Result<StreamReader, Error>)
        ensures
            match reader {
                Ok(r) => slice_refusal(view_of(stored), *id, start, len).is_none()
                    && r.record_spec().bytes_spec() == stored.unwrap()@
                    && r.record_spec().head.head.id == *id && r.start_spec() == start
                    && r.len_spec() == len,
                Err(e) => slice_refusal(view_of(stored), *id, start, len) == Some(e),
            },
    {
        let record = match Self::get_stream(id, stored) {
            Ok(record) => record,
            Err(e) => {
                return Err(e);
            },
        };
        proof {
            lemma_stored_fields(record);
        }
        StreamReader::new(record, start, len)
    }

    /// Fills `slice` with the signed head that the index holds for the
    /// stream `id` and with the verifiable slice of the `len` bytes at
    /// `start`, cut from the bytes `data` of the stream's file. Fails as
    /// `slice` does, and with `IntegrityError` where file and record do not
    /// fit together; `slice` then keeps its head and has no data. Where the
    /// record commits to the bytes that it counts, the slice is cut, is a
    /// slice of those bytes, and its head has their root.
    pub fn extract(
        &self,
        id: &StreamId,
        stored: Option<&[u8]>,
        data: &[u8],
        start: u64,
        len: u64,
        slice: &mut Slice,
    ) -> (res: Result<(), Error>)
        ensures
            match res {
                Ok(()) => {
                    &&& extract_refusal(view_of(stored), *id, data@, start, len).is_none()
                    &&& final(slice).head.bytes_spec() == stored_head(stored.unwrap()@)
                    &&& final(slice).head.head.id == *id
                    &&& Some(final(slice).data@) == stored_slice(
                        stored.unwrap()@,
                        data@,
                        start,
                        len,
                    )
                },
                Err(e) => {
                    &&& extract_refusal(view_of(stored), *id, data@, start, len) == Some(e)
                    &&& final(slice).head == old(slice).head
                    &&& final(slice).data@.len() == 0
                },
            },
            slice_refusal(view_of(stored), *id, start, len).is_none() && data@.len() >= stored_len(
                stored.unwrap()@,
            ) && stored_commits_to(
                stored.unwrap()@,
                data@.take(stored_len(stored.unwrap()@) as int),
            ) ==> {
                &&& res.is_ok()
                &&& is_slice_of(
                    final(slice).data@,
                    data@.take(stored_len(stored.unwrap()@) as int),
                    start,
                    len,
                )
                &&& final(slice).head.head.hash@ == root_spec(
                    data@.take(stored_len(stored.unwrap()@) as int),
                )
            },
    {
        slice.data.clear();
        let reader = match self.slice(id, stored, start, len) {
            Ok(reader) => reader,
            Err(e) => {
                return Err(e);
            },
        };
        proof {
            lemma_stored_fields(reader.record_spec());
        }
        match reader.extract(data) {
            Ok(cut) => {
                slice.head = cut.head;
                slice.data = cut.data;
                Ok(())
            },
            Err(e) => Err(e),
        }
    }

    /// What is to be done with a stream's file of `file_len` bytes before
    /// writers are admitted, given the record that the index holds: nothing
    /// where the file has the length that the head counts; cutting it back
    /// to that length where it is longer, which is what a session leaves
    /// that never committed; and `IntegrityError` where it is shorter.
    pub fn reconcile(stored: &[u8], file_len: u64) -> (cut: Result<Option<u64>, Error>)
        ensures
            match cut {
                Ok(None) => is_frame(stored@) && file_len == stored_len(stored@),
                Ok(Some(len)) => is_frame(stored@) && len == stored_len(stored@) && file_len > len,
                Err(e) => e == Error::IntegrityError && (!is_frame(stored@) || file_len
                    < stored_len(stored@)),
            },
    {
        let head = match Stream::head_from_bytes(stored) {
            Ok(head) => head,
            Err(e) => {
                return Err(e);
            },
        };
        proof {
            vstd::bytes::lemma_auto_spec_u64_to_from_le_bytes();
            assert(stored@.subrange(72, 80) =~= stored_head(stored@).subrange(72, 80));
            assert(head.bytes_spec().subrange(72, 80) =~= spec_u64_to_le_bytes(head.head.len));
        }
        if file_len < head.head.len {
            Err(Error::IntegrityError)
        } else if file_len > head.head.len {
            Ok(Some(head.head.len))
        } else {
            Ok(None)
        }
    }
}

/// While a writer holds a stream, no second writer and no remover is
/// admitted to it, whatever the index and the file hold; once the stream is
/// released, being held is no reason to refuse.
pub proof fn lemma_exclusion(
    held: Set<StreamId>,
    id: StreamId,
    stored: Option<Seq<u8>>,
    signer: Option<Seq<u8>>,
    file_len: nat,
    other_stored: Option<Seq<u8>>,
    other_signer: Option<Seq<u8>>,
    other_len: nat,
)
    requires
        append_refusal(held, stored, id, signer, file_len).is_none(),
    ensures
        append_refusal(held.insert(id), other_stored, id, other_signer, other_len) == Some(
            Error::Busy,
        ),
        remove_refusal(held.insert(id), other_stored, id) == Some(Error::Busy),
        append_refusal(held.insert(id).remove(id), other_stored, id, other_signer, other_len)
            != Some(Error::Busy),
        append_refusal(held.insert(id).remove(id), stored, id, signer, file_len).is_none(),
{
}

/// What the index holds under the key of `id`.
pub open spec fn stored_under(index: Map<Seq<u8>, Seq<u8>>, id: StreamId) -> Option<Seq<u8>> {
    if index.contains_key(id.bytes_spec()) {
        Some(index[id.bytes_spec()])
    } else {
        None
    }
}

/// Once the entry of a stream is deleted from the index, the listing shows
/// the stream for no entry, and readers and slices of it are refused with
/// `NotFound`.
pub proof fn lemma_removed_is_gone(
    index: Map<Seq<u8>, Seq<u8>>,
    id: StreamId,
    data: Seq<u8>,
    start: u64,
    len: u64,
)
    ensures
        stored_under(index.remove(id.bytes_spec()), id).is_none(),
        slice_refusal(stored_under(index.remove(id.bytes_spec()), id), id, start, len) == Some(
            Error::NotFound,
        ),
        extract_refusal(stored_under(index.remove(id.bytes_spec()), id), id, data, start, len)
            == Some(Error::NotFound),
        forall|key: Seq<u8>, item: Result<(StreamId, SignedHead), Error>|
            index.remove(id.bytes_spec()).contains_key(key) && #[trigger] lists(
                key,
                index.remove(id.bytes_spec())[key],
                item,
            ) && item.is_ok() ==> item.unwrap().0 != id,
{
}

/// Once a record is stored under the key of its stream, what the index
/// holds there is a record of that stream with the head, the root and the
/// length that were stored, whatever it held before.
pub proof fn lemma_stored_is_found(index: Map<Seq<u8>, Seq<u8>>, record: Stream)
    ensures
        ({
            let id = record.head.head.id;
            let after = index.insert(id.bytes_spec(), record.bytes_spec());
            &&& stored_under(after, id) == Some(record.bytes_spec())
            &&& load_refusal(stored_under(after, id), id).is_none()
            &&& stored_head(record.bytes_spec()) == record.head.bytes_spec()
            &&& lists(id.bytes_spec(), after[id.bytes_spec()], Ok((id, record.head)))
        }),
{
    lemma_stored_fields(record);
}

} // verus!
