//! Append sessions: one writer holds one stream, takes bytes, and ends by
//! committing a new head or by leaving the record as it was.

use crate::bytes::{append, array_eq, copy_range};
use crate::error::Error;
use crate::head::{Head, SignedHead};
use crate::id::StreamId;
use crate::lock::StreamLock;
use crate::signature::{signature_spec, verifies, Keypair};
use crate::stream::{Slice, Stream};
use crate::tree::{outboard, root_spec};
use std::sync::Arc;
use vstd::bytes::spec_u64_to_le_bytes;
use vstd::prelude::*;

verus! {

/// Where an append session stands.
#[derive(Clone, Copy, Debug, PartialEq, Eq, Structural)]
pub enum WriterState {
    /// Nothing was written yet.
    Open,
    /// Bytes were written that no head commits to yet.
    Writing,
    /// The session ended with a new head.
    Committed,
    /// The session ended without one; the record is as it was before.
    Aborted,
}

/// What a writer carries to sign with: a key for a local stream, nothing for
/// a replicated one.
pub trait KeySlot {
    /// Whether the slot can sign for the peer with these public bytes.
    spec fn signs_for(&self, peer: Seq<u8>) -> bool;
}

impl KeySlot for Arc<Keypair> {
    open spec fn signs_for(&self, peer: Seq<u8>) -> bool {
        self.public_spec() == peer
    }
}

impl KeySlot for () {
    open spec fn signs_for(&self, peer: Seq<u8>) -> bool {
        true
    }
}

/// An append session over one stream. It holds the stream's lock, the
/// record that the index has, and the stream's bytes: those that the record
/// commits to, followed by those written in this session.
pub struct StreamWriter<K: KeySlot> {
    lock: StreamLock,
    record: Stream,
    base: Vec<u8>,
    pending: Vec<u8>,
    key: K,
    state: WriterState,
}

/// What is left when a session has ended.
pub struct Closed {
    /// `Committed` or `Aborted`.
    pub state: WriterState,
    /// The record of the stream now: the new one after a commit, which is to
    /// be stored, and else the one from before the session.
    pub record: Stream,
    /// The bytes that the new head commits to beyond the old one. After an
    /// abort there are none, and the stream's file is cut back to the
    /// length in `record`.
    pub appended: Vec<u8>,
    /// Why the session was aborted, if an error was the reason.
    pub error: Option<Error>,
    /// The lock of the stream, to be released.
    pub lock: StreamLock,
}

/// The eighty bytes that are signed for a stream of these bytes.
pub open spec fn head_bytes(id: StreamId, data: Seq<u8>) -> Seq<u8> {
    id.bytes_spec() + root_spec(data) + spec_u64_to_le_bytes(data.len() as u64)
}

/// The signature that `key` makes of the head of a stream of these bytes.
pub open spec fn local_signature(key: Keypair, id: StreamId, data: Seq<u8>) -> Seq<u8> {
    signature_spec(key.secret_spec(), key.public_spec(), head_bytes(id, data))
}

/// Whether the signature that `key` makes verifies under the stream's peer.
pub open spec fn local_commit_ok(key: Keypair, id: StreamId, data: Seq<u8>) -> bool {
    verifies(id.peer@, head_bytes(id, data), local_signature(key, id, data))
}

/// What a replicated append of `slice` to a stream of the bytes `data`
/// comes to: the bytes to append, or the reason to refuse. The head of the
/// slice has to verify for the stream, must not be shorter than the stream,
/// the slice has to decode under the head's root to exactly the bytes
/// between the two lengths, and the stream with them has to have that root.
pub open spec fn replicated_outcome(id: StreamId, data: Seq<u8>, slice: Slice) -> Result<
    Seq<u8>,
    Error,
> {
    let head = slice.head;
    match head.verify_spec(id) {
        Err(e) => Err(e),
        Ok(()) => if head.head.len < data.len() {
            Err(Error::IntegrityError)
        } else {
            match slice.decode_spec(data.len() as u64, (head.head.len - data.len()) as u64) {
                None => Err(Error::IntegrityError),
                Some(plain) => if plain.len() == head.head.len - data.len() && root_spec(
                    data + plain,
                ) == head.head.hash@ {
                    Ok(plain)
                } else {
                    Err(Error::IntegrityError)
                },
            }
        },
    }
}

/// Another handle on the same key, by `Arc::clone`.
#[verifier::external_body]
pub(crate) fn share(key: &Arc<Keypair>) -> (shared: Arc<Keypair>)
    ensures
        shared == *key,
{
    Arc::clone(key)
}

impl<K: KeySlot> StreamWriter<K> {
    #[verifier::type_invariant]
    spec fn inv(self) -> bool {
        &&& self.lock.id_spec() == self.record.head.head.id
        &&& self.record.head.head.len == self.base@.len()
        &&& self.base@.len() + self.pending@.len() <= u64::MAX
        &&& self.key.signs_for(self.record.head.head.id.peer@)
        &&& (self.state == WriterState::Open || self.state == WriterState::Writing)
    }

    /// The stream that the session appends to.
    pub closed spec fn id_spec(self) -> StreamId {
        self.record.head.head.id
    }

    /// The record that the index has for the stream.
    pub closed spec fn record_spec(self) -> Stream {
        self.record
    }

    /// The bytes of the stream, with those written in this session.
    pub closed spec fn data_spec(self) -> Seq<u8> {
        self.base@ + self.pending@
    }

    /// The key slot.
    pub closed spec fn key_spec(self) -> K {
        self.key
    }

    /// Where the session stands.
    pub closed spec fn state_spec(self) -> WriterState {
        self.state
    }

    /// The lock that the session holds.
    pub closed spec fn lock_spec(self) -> StreamLock {
        self.lock
    }

    /// A session over the stream of `record`, which `lock` holds. `data`
    /// holds the bytes of the stream's file; what it has beyond the length
    /// in the record is left over from a session that never committed, and
    /// is dropped.
    pub(crate) fn new(record: Stream, data: Vec<u8>, lock: StreamLock, key: K) -> (writer: Self)
        requires
            lock.id_spec() == record.head.head.id,
            record.head.head.len <= data@.len(),
            key.signs_for(record.head.head.id.peer@),
        ensures
            writer.lock_spec() == lock,
            writer.id_spec() == record.head.head.id,
            writer.record_spec() == record,
            writer.data_spec() == data@.take(record.head.head.len as int),
            writer.key_spec() == key,
            writer.state_spec() == WriterState::Open,
    {
        let mut base = data;
        base.truncate(record.head.head.len as usize);
        assert(base@ + Seq::<u8>::empty() =~= data@.take(record.head.head.len as int));
        Self { lock, record, base, pending: Vec::new(), key, state: WriterState::Open }
    }

    /// The stream that the session appends to.
    pub fn id(&self) -> (id: &StreamId)
        ensures
            *id == self.id_spec(),
            *id == self.record_spec().head.head.id,
            *id == self.lock_spec().id_spec(),
            self.key_spec().signs_for(id.peer@),
    {
        proof {
            use_type_invariant(self);
        }
        &self.record.head.head.id
    }

    /// The head that the index has for the stream.
    pub fn head(&self) -> (head: &SignedHead)
        ensures
            *head == self.record_spec().head,
            head.head.len <= self.data_spec().len() <= u64::MAX,
    {
        proof {
            use_type_invariant(self);
        }
        &self.record.head
    }

    /// Where the session stands: `Open` or `Writing`.
    pub fn state(&self) -> (state: WriterState)
        ensures
            state == self.state_spec(),
            state == WriterState::Open || state == WriterState::Writing,
    {
        proof {
            use_type_invariant(self);
        }
        self.state
    }

    /// The number of bytes written in this session.
    pub fn pending(&self) -> (len: usize)
        ensures
            len == self.data_spec().len() - self.record_spec().head.head.len,
    {
        proof {
            use_type_invariant(self);
        }
        self.pending.len()
    }

    /// Ends the session without a new head. The record stays as it is.
    pub fn abort(self) -> (closed: Closed)
        ensures
            closed.state == WriterState::Aborted,
            closed.record == self.record_spec(),
            closed.appended@.len() == 0,
            closed.error.is_none(),
            closed.lock == self.lock_spec(),
    {
        self.fail(None)
    }

    /// Ends the session without a new head, for the reason `error`.
    fn fail(self, error: Option<Error>) -> (closed: Closed)
        ensures
            closed.state == WriterState::Aborted,
            closed.record == self.record_spec(),
            closed.appended@.len() == 0,
            closed.error == error,
            closed.lock == self.lock_spec(),
    {
        Closed {
            state: WriterState::Aborted,
            record: self.record,
            appended: Vec::new(),
            error,
            lock: self.lock,
        }
    }
}

impl<K: KeySlot> StreamWriter<K> {
    /// A copy of all bytes of the stream.
    fn all(&self) -> (all: Vec<u8>)
        ensures
            all@ == self.data_spec(),
            all@.len() <= u64::MAX,
    {
        proof {
            use_type_invariant(self);
        }
        let mut all = copy_range(self.base.as_slice(), 0, self.base.len());
        assert(all@ =~= self.base@);
        append(&mut all, self.pending.as_slice());
        all
    }
}

impl StreamWriter<Arc<Keypair>> {
    /// Appends `chunk` to the stream. No head commits to it before `commit`.
    /// Fails with `RangeOutOfBounds`, and appends nothing, where the stream
    /// would grow beyond 2^64 - 1 bytes.
    pub fn write(&mut self, chunk: &[u8]) -> (res: Result<(), Error>)
        ensures
            final(self).record_spec() == old(self).record_spec(),
            final(self).id_spec() == old(self).id_spec(),
            final(self).key_spec() == old(self).key_spec(),
            final(self).lock_spec() == old(self).lock_spec(),
            match res {
                Ok(()) => {
                    &&& old(self).data_spec().len() + chunk@.len() <= u64::MAX
                    &&& final(self).data_spec() == old(self).data_spec() + chunk@
                    &&& final(self).state_spec() == WriterState::Writing
                },
                Err(e) => {
                    &&& e == Error::RangeOutOfBounds
                    &&& old(self).data_spec().len() + chunk@.len() > u64::MAX
                    &&& final(self).data_spec() == old(self).data_spec()
                    &&& final(self).state_spec() == old(self).state_spec()
                },
            },
    {
        proof {
            use_type_invariant(&*self);
        }
        let have = self.base.len() as u128 + self.pending.len() as u128;
        if have + chunk.len() as u128 > u64::MAX as u128 {
            return Err(Error::RangeOutOfBounds);
        }
        self.state = WriterState::Writing;
        let mut pending = Vec::new();
        std::mem::swap(&mut pending, &mut self.pending);
        append(&mut pending, chunk);
        self.pending = pending;
        assert(self.base@ + (old(self).pending@ + chunk@) =~= old(self).base@ + old(self).pending@
            + chunk@);
        Ok(())
    }

    /// Ends the session with the tree `tree` over the stream's bytes, the
    /// signature `sig` over the head that follows from it, and the answer
    /// `accepted` of the check of that signature. An accepted signature
    /// commits the head; any other aborts with `SignatureMismatch`.
    pub fn seal(self, tree: (Vec<u8>, [u8; 32]), sig: [u8; 64], accepted: bool) -> (closed: Closed)
        ensures
            closed.lock == self.lock_spec(),
            accepted ==> {
                &&& closed.state == WriterState::Committed
                &&& closed.error.is_none()
                &&& closed.record.head.head.id == self.id_spec()
                &&& closed.record.head.head.hash == tree.1
                &&& closed.record.head.head.len == self.data_spec().len()
                &&& closed.record.head.sig == sig
                &&& closed.record.outboard@ == tree.0@
                &&& closed.appended@ == self.data_spec().skip(
                    self.record_spec().head.head.len as int,
                )
            },
            !accepted ==> {
                &&& closed.state == WriterState::Aborted
                &&& closed.error == Some(Error::SignatureMismatch)
                &&& closed.record == self.record_spec()
                &&& closed.appended@.len() == 0
            },
    {
        proof {
            use_type_invariant(&self);
        }
        if !accepted {
            return self.fail(Some(Error::SignatureMismatch));
        }
        let len = self.base.len() as u64 + self.pending.len() as u64;
        assert(self.pending@ =~= (self.base@ + self.pending@).skip(self.base@.len() as int));
        let head = Head { id: self.record.head.head.id, hash: tree.1, len };
        Closed {
            state: WriterState::Committed,
            record: Stream { head: SignedHead { head, sig }, outboard: tree.0 },
            appended: self.pending,
            error: None,
            lock: self.lock,
        }
    }

    /// Ends the session with a new head over all bytes of the stream: their
    /// root and length, signed with the key of the session. The head is
    /// committed if that signature verifies under the stream's peer;
    /// otherwise the session aborts with `SignatureMismatch`.
    pub fn commit(self) -> (closed: Closed)
        ensures
            closed.lock == self.lock_spec(),
            local_commit_ok(*self.key_spec(), self.id_spec(), self.data_spec()) ==> {
                &&& closed.state == WriterState::Committed
                &&& closed.error.is_none()
                &&& closed.record.head.head.id == self.id_spec()
                &&& closed.record.commits_to(self.data_spec())
                &&& closed.record.head.sig@ == local_signature(
                    *self.key_spec(),
                    self.id_spec(),
                    self.data_spec(),
                )
                &&& closed.record.head.signature_valid()
                &&& closed.record.head.verify_spec(self.id_spec()).is_ok()
                &&& closed.record.is_record_of(self.id_spec(), self.data_spec())
                &&& closed.appended@ == self.data_spec().skip(
                    self.record_spec().head.head.len as int,
                )
            },
            !local_commit_ok(*self.key_spec(), self.id_spec(), self.data_spec()) ==> {
                &&& closed.state == WriterState::Aborted
                &&& closed.error == Some(Error::SignatureMismatch)
                &&& closed.record == self.record_spec()
                &&& closed.appended@.len() == 0
            },
    {
        proof {
            use_type_invariant(&self);
        }
        let peer = self.key.public();
        assert(peer@ == self.id_spec().peer@);
        let all = self.all();
        let tree = outboard(all.as_slice());
        let head = Head { id: self.record.head.head.id, hash: tree.1, len: all.len() as u64 };
        assert(head.bytes_spec() =~= head_bytes(self.id_spec(), self.data_spec()));
        let mut signed = SignedHead { head, sig: [0u8; 64] };
        signed.sign(&self.key);
        let accepted = signed.verify(&head.id).is_ok();
        self.seal(tree, signed.sig, accepted)
    }
}

impl StreamWriter<()> {
    /// Ends the session with the answers to a replicated append: `head` is
    /// the head that came with the slice, `verdict` what its verification
    /// for this stream gave, `plain` the bytes that the slice decoded to for
    /// the range between the stream's length and the head's, if it did, and
    /// `tree` the tree over the stream's bytes followed by `plain`. The head
    /// is committed if it verified, is not shorter than the stream, `plain`
    /// fills the range exactly and the tree has the head's root. A head that
    /// did not verify aborts with the error of the verdict, anything else
    /// with `IntegrityError`.
    pub fn settle(
        self,
        head: SignedHead,
        verdict: Result<(), Error>,
        plain: Option<Vec<u8>>,
        tree: Option<(Vec<u8>, [u8; 32])>,
    ) -> (closed: Closed)
        ensures
            closed.lock == self.lock_spec(),
            closed.state == WriterState::Committed || closed.state == WriterState::Aborted,
            closed.state == WriterState::Committed <==> {
                &&& verdict.is_ok()
                &&& head.head.len >= self.data_spec().len()
                &&& plain.is_some()
                &&& plain.unwrap()@.len() == head.head.len - self.data_spec().len()
                &&& tree.is_some()
                &&& tree.unwrap().1 == head.head.hash
            },
            closed.state == WriterState::Committed ==> {
                &&& closed.error.is_none()
                &&& closed.record.head == head
                &&& closed.record.outboard@ == tree.unwrap().0@
                &&& closed.appended@ == plain.unwrap()@
            },
            closed.state == WriterState::Aborted ==> {
                &&& closed.record == self.record_spec()
                &&& closed.appended@.len() == 0
                &&& closed.error == Some(
                    match verdict {
                        Err(e) => e,
                        Ok(()) => Error::IntegrityError,
                    },
                )
            },
    {
        if let Err(e) = verdict {
            return self.fail(Some(e));
        }
        proof {
            use_type_invariant(&self);
        }
        let have = self.base.len() as u64 + self.pending.len() as u64;
        if head.head.len < have {
            return self.fail(Some(Error::IntegrityError));
        }
        let plain = match plain {
            Some(plain) => plain,
            None => {
                return self.fail(Some(Error::IntegrityError));
            },
        };
        if plain.len() as u64 != head.head.len - have {
            return self.fail(Some(Error::IntegrityError));
        }
        let tree = match tree {
            Some(tree) => tree,
            None => {
                return self.fail(Some(Error::IntegrityError));
            },
        };
        if !array_eq(&tree.1, &head.head.hash) {
            return self.fail(Some(Error::IntegrityError));
        }
        Closed {
            state: WriterState::Committed,
            record: Stream { head, outboard: tree.0 },
            appended: plain,
            error: None,
            lock: self.lock,
        }
    }

    /// Ends the session by appending what `slice` carries: the bytes
    /// between the stream's length and the length in the slice's head. The
    /// slice's head is committed, unsigned by this store, if it verifies for
    /// the stream under the stream's peer and the bytes are proved by the
    /// slice and give the head's root; otherwise the record stays as it is.
    pub fn commit(self, slice: &Slice) -> (closed: Closed)
        ensures
            closed.lock == self.lock_spec(),
            match replicated_outcome(self.id_spec(), self.data_spec(), *slice) {
                Ok(plain) => {
                    &&& closed.state == WriterState::Committed
                    &&& closed.error.is_none()
                    &&& closed.record.head == slice.head
                    &&& closed.record.head.signature_valid()
                    &&& closed.record.head.verify_spec(self.id_spec()).is_ok()
                    &&& closed.record.commits_to(self.data_spec() + plain)
                    &&& closed.record.is_record_of(self.id_spec(), self.data_spec() + plain)
                    &&& closed.appended@ == plain
                },
                Err(e) => {
                    &&& closed.state == WriterState::Aborted
                    &&& closed.error == Some(e)
                    &&& closed.record == self.record_spec()
                    &&& closed.appended@.len() == 0
                },
            },
    {
        proof {
            use_type_invariant(&self);
        }
        let head = slice.head;
        let verdict = head.verify(&self.record.head.head.id);
        let have = self.base.len() as u64 + self.pending.len() as u64;
        let mut plain: Option<Vec<u8>> = None;
        let mut tree: Option<(Vec<u8>, [u8; 32])> = None;
        if verdict.is_ok() && head.head.len >= have {
            if let Ok(bytes) = slice.decode(have, head.head.len - have) {
                if bytes.len() as u64 == head.head.len - have {
                    let mut all = self.all();
                    append(&mut all, bytes.as_slice());
                    tree = Some(outboard(all.as_slice()));
                }
                plain = Some(bytes);
            }
        }
        proof {
            if tree.is_some() && tree.unwrap().1@ == head.head.hash@ {
                assert(tree.unwrap().1 =~= head.head.hash);
            }
        }
        self.settle(head, verdict, plain, tree)
    }
}

} // verus!
