//! Heads: what a peer signs to commit to the bytes of a stream.

use crate::bytes::{append, array_at, array_eq};
use crate::error::Error;
use crate::id::{lemma_id_bytes_injective, StreamId};
use crate::signature::{is_point, point_valid, signature_spec, verifies, verify_strict, Keypair};
use vstd::bytes::{spec_u64_to_le_bytes, u64_from_le_bytes, u64_to_le_bytes};
use vstd::prelude::*;
use vstd::std_specs::cmp::PartialEqSpecImpl;

verus! {

/// The root of the hash tree over no bytes at all.
pub const EMPTY_ROOT: [u8; 32] = [
    175, 19, 73, 185, 245, 249, 161, 166, 160, 64, 77, 234, 54, 220, 201, 73, 155, 203, 37, 201,
    173, 193, 18, 183, 204, 154, 147, 202, 228, 31, 50, 98,
];

/// The all-zero signature, which marks a head that nobody has signed yet.
pub const UNSIGNED: [u8; 64] = [
    0, 0, 0, 0, 0, 0, 0, 0, 0, 0, 0, 0, 0, 0, 0, 0,
    0, 0, 0, 0, 0, 0, 0, 0, 0, 0, 0, 0, 0, 0, 0, 0,
    0, 0, 0, 0, 0, 0, 0, 0, 0, 0, 0, 0, 0, 0, 0, 0,
    0, 0, 0, 0, 0, 0, 0, 0, 0, 0, 0, 0, 0, 0, 0, 0,
];

/// Binds a stream to its content: the root of the hash tree and the length.
#[derive(Clone, Copy, Debug, Eq)]
pub struct Head {
    pub id: StreamId,
    pub hash: [u8; 32],
    pub len: u64,
}

impl PartialEq for Head {
    fn eq(&self, other: &Self) -> (same: bool) {
        self.id == other.id && array_eq(&self.hash, &other.hash) && self.len == other.len
    }
}

impl PartialEqSpecImpl for Head {
    open spec fn obeys_eq_spec() -> bool {
        true
    }

    open spec fn eq_spec(&self, other: &Self) -> bool {
        *self == *other
    }
}

impl Head {
    /// The stream that the head speaks of.
    pub fn id(&self) -> (id: &StreamId)
        ensures
            *id == self.id,
    {
        &self.id
    }

    /// The root of the hash tree over the stream's bytes.
    pub fn hash(&self) -> (hash: &[u8; 32])
        ensures
            *hash == self.hash,
    {
        &self.hash
    }

    /// The number of bytes in the stream.
    pub fn len(&self) -> (len: u64)
        ensures
            len == self.len,
    {
        self.len
    }

    /// The head of the empty stream `id`.
    pub fn new(id: StreamId) -> (head: Self)
        ensures
            head.id == id,
            head.hash == EMPTY_ROOT,
            head.len == 0,
    {
        Self { id, hash: EMPTY_ROOT, len: 0 }
    }

    /// The eighty-byte layout, which is also what gets signed: the
    /// identifier, the root, and the length, low byte first.
    pub open spec fn bytes_spec(self) -> Seq<u8> {
        self.id.bytes_spec() + self.hash@ + spec_u64_to_le_bytes(self.len)
    }

    /// The head in its eighty-byte layout.
    pub fn to_bytes(&self) -> (bytes: Vec<u8>)
        ensures
            bytes@ == self.bytes_spec(),
            bytes@.len() == 80,
    {
        let mut bytes = self.id.to_bytes();
        append(&mut bytes, self.hash.as_slice());
        let len = u64_to_le_bytes(self.len);
        append(&mut bytes, len.as_slice());
        bytes
    }

    /// Reads a head from its eighty-byte layout; any other length is refused.
    pub fn from_bytes(bytes: &[u8]) -> (head: Option<Self>)
        ensures
            head.is_some() <==> bytes@.len() == 80,
            head matches Some(h) ==> h.bytes_spec() == bytes@,
    {
        if bytes.len() != 80 {
            return None;
        }
        let id_bytes: [u8; 40] = array_at(bytes, 0);
        let id = match StreamId::from_bytes(id_bytes.as_slice()) {
            Some(id) => id,
            None => {
                return None;
            },
        };
        let hash: [u8; 32] = array_at(bytes, 40);
        let len_bytes: [u8; 8] = array_at(bytes, 72);
        let len = u64_from_le_bytes(len_bytes.as_slice());
        let head = Self { id, hash, len };
        proof {
            vstd::bytes::lemma_auto_spec_u64_to_from_le_bytes();
            assert(spec_u64_to_le_bytes(len) == len_bytes@);
            assert(head.bytes_spec() =~= bytes@);
        }
        Some(head)
    }
}

/// A head with the signature of the stream's peer over its eighty bytes.
#[derive(Clone, Copy, Debug, Eq)]
pub struct SignedHead {
    pub head: Head,
    pub sig: [u8; 64],
}

impl PartialEq for SignedHead {
    fn eq(&self, other: &Self) -> (same: bool) {
        self.head == other.head && array_eq(&self.sig, &other.sig)
    }
}

impl PartialEqSpecImpl for SignedHead {
    open spec fn obeys_eq_spec() -> bool {
        true
    }

    open spec fn eq_spec(&self, other: &Self) -> bool {
        *self == *other
    }
}

impl Default for SignedHead {
    /// The unsigned head of stream 0 of the all-zero peer.
    fn default() -> (signed: Self)
        ensures
            forall|i: int| 0 <= i < 32 ==> signed.head.id.peer@[i] == 0,
            signed.head.id.stream == 0,
            signed.head.hash == EMPTY_ROOT,
            signed.head.len == 0,
            signed.sig == UNSIGNED,
    {
        Self::new(StreamId { peer: [0u8; 32], stream: 0 })
    }
}

impl SignedHead {
    /// The head that was signed.
    pub fn head(&self) -> (head: &Head)
        ensures
            *head == self.head,
    {
        &self.head
    }

    /// The signature.
    pub fn sig(&self) -> (sig: &[u8; 64])
        ensures
            *sig == self.sig,
    {
        &self.sig
    }

    /// The unsigned head of the empty stream `id`.
    pub fn new(id: StreamId) -> (signed: Self)
        ensures
            signed.head.id == id,
            signed.head.hash == EMPTY_ROOT,
            signed.head.len == 0,
            signed.sig == UNSIGNED,
    {
        Self { head: Head::new(id), sig: UNSIGNED }
    }

    /// Whether the signature is the peer's signature over the head.
    pub open spec fn signature_valid(self) -> bool {
        &&& point_valid(self.head.id.peer@)
        &&& verifies(self.head.id.peer@, self.head.bytes_spec(), self.sig@)
    }

    /// What `verify` answers for the stream `id`.
    pub open spec fn verify_spec(self, id: StreamId) -> Result<(), Error> {
        if id != self.head.id {
            Err(Error::SignatureMismatch)
        } else if !point_valid(id.peer@) {
            Err(Error::InvalidKey)
        } else if !verifies(id.peer@, self.head.bytes_spec(), self.sig@) {
            Err(Error::SignatureMismatch)
        } else {
            Ok(())
        }
    }

    /// Checks that this is a head of the stream `id`, signed by its peer.
    /// Fails with `SignatureMismatch` for a head of another stream or a
    /// signature that does not verify, and with `InvalidKey` for a peer that
    /// is not a point of the curve.
    pub fn verify(&self, id: &StreamId) -> (res: Result<(), Error>)
        ensures
            res == self.verify_spec(*id),
            res.is_ok() <==> *id == self.head.id && self.signature_valid(),
    {
        let same = *id == self.head.id;
        let point = same && is_point(&id.peer);
        let accepted = point && {
            let message = self.head.to_bytes();
            verify_strict(&id.peer, message.as_slice(), &self.sig)
        };
        Self::judge(same, point, accepted)
    }

    /// The answer of a verification from its three findings: whether the
    /// head is one of the stream asked for, whether the stream's peer is a
    /// point of the curve, and whether the signature was accepted. Each is
    /// looked at only where the one before holds.
    pub fn judge(same: bool, point: bool, accepted: bool) -> (res: Result<(), Error>)
        ensures
            res == if !same {
                Err::<(), Error>(Error::SignatureMismatch)
            } else if !point {
                Err(Error::InvalidKey)
            } else if !accepted {
                Err(Error::SignatureMismatch)
            } else {
                Ok(())
            },
    {
        if !same {
            Err(Error::SignatureMismatch)
        } else if !point {
            Err(Error::InvalidKey)
        } else if !accepted {
            Err(Error::SignatureMismatch)
        } else {
            Ok(())
        }
    }

    /// Replaces the signature by the one that `key` makes of the head.
    pub fn sign(&mut self, key: &Keypair)
        ensures
            final(self).head == old(self).head,
            final(self).sig@ == signature_spec(
                key.secret_spec(),
                key.public_spec(),
                old(self).head.bytes_spec(),
            ),
    {
        let message = self.head.to_bytes();
        self.sig = key.sign(message.as_slice());
    }

    /// Takes `sig` for the signature if it verifies for the head under the
    /// peer of the head's stream, and leaves the head as it was if not.
    pub fn set_signature(&mut self, sig: [u8; 64]) -> (res: Result<(), Error>)
        ensures
            final(self).head == old(self).head,
            res == (SignedHead { head: old(self).head, sig }).verify_spec(old(self).head.id),
            res.is_ok() ==> final(self).sig == sig && final(self).signature_valid(),
            res.is_err() ==> *final(self) == *old(self),
    {
        let candidate = SignedHead { head: self.head, sig };
        let id = self.head.id;
        match candidate.verify(&id) {
            Ok(()) => {
                self.sig = sig;
                Ok(())
            },
            Err(e) => Err(e),
        }
    }

    /// The 144-byte layout: the head, then the signature.
    pub open spec fn bytes_spec(self) -> Seq<u8> {
        self.head.bytes_spec() + self.sig@
    }

    /// The signed head in its 144-byte layout.
    pub fn to_bytes(&self) -> (bytes: Vec<u8>)
        ensures
            bytes@ == self.bytes_spec(),
            bytes@.len() == 144,
    {
        let mut bytes = self.head.to_bytes();
        append(&mut bytes, self.sig.as_slice());
        bytes
    }

    /// Reads a signed head from its 144-byte layout; any other length is refused.
    pub fn from_bytes(bytes: &[u8]) -> (signed: Option<Self>)
        ensures
            signed.is_some() <==> bytes@.len() == 144,
            signed matches Some(s) ==> s.bytes_spec() == bytes@,
    {
        if bytes.len() != 144 {
            return None;
        }
        let head_bytes: [u8; 80] = array_at(bytes, 0);
        let head = match Head::from_bytes(head_bytes.as_slice()) {
            Some(head) => head,
            None => {
                return None;
            },
        };
        let sig: [u8; 64] = array_at(bytes, 80);
        let signed = Self { head, sig };
        assert(signed.bytes_spec() =~= bytes@);
        Some(signed)
    }
}

/// Two heads with the same eighty bytes are the same head.
pub proof fn lemma_head_bytes_injective(a: Head, b: Head)
    requires
        a.bytes_spec() == b.bytes_spec(),
    ensures
        a == b,
{
    vstd::bytes::lemma_auto_spec_u64_to_from_le_bytes();
    assert(a.bytes_spec().subrange(0, 40) =~= a.id.bytes_spec());
    assert(b.bytes_spec().subrange(0, 40) =~= b.id.bytes_spec());
    lemma_id_bytes_injective(a.id, b.id);
    assert(a.bytes_spec().subrange(40, 72) =~= a.hash@);
    assert(b.bytes_spec().subrange(40, 72) =~= b.hash@);
    assert(a.bytes_spec().subrange(72, 80) =~= spec_u64_to_le_bytes(a.len));
    assert(b.bytes_spec().subrange(72, 80) =~= spec_u64_to_le_bytes(b.len));
    assert(a.hash =~= b.hash);
}

/// Two signed heads with the same 144 bytes are the same signed head.
pub proof fn lemma_signed_bytes_injective(a: SignedHead, b: SignedHead)
    requires
        a.bytes_spec() == b.bytes_spec(),
    ensures
        a == b,
{
    vstd::bytes::lemma_auto_spec_u64_to_from_le_bytes();
    assert(a.bytes_spec().subrange(0, 80) =~= a.head.bytes_spec());
    assert(b.bytes_spec().subrange(0, 80) =~= b.head.bytes_spec());
    lemma_head_bytes_injective(a.head, b.head);
    assert(a.bytes_spec().subrange(80, 144) =~= a.sig@);
    assert(b.bytes_spec().subrange(80, 144) =~= b.sig@);
    assert(a.sig =~= b.sig);
}

} // verus!
