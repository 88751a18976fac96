//! Ed25519 keys and signatures over plain bytes.

use crate::error::Error;
use vstd::prelude::*;

verus! {

/// Whether the thirty-two bytes are the compressed form of a point of the
/// curve: whether `ed25519_dalek::PublicKey::from_bytes` accepts them.
pub uninterp spec fn point_valid(public: Seq<u8>) -> bool;

/// The signature that `ed25519_dalek::Keypair::sign` makes of `message` with
/// the key pair of these secret and public bytes. Signing is deterministic.
pub uninterp spec fn signature_spec(secret: Seq<u8>, public: Seq<u8>, message: Seq<u8>) -> Seq<u8>;

/// Whether `ed25519_dalek::PublicKey::verify_strict` accepts `signature` for
/// `message` under the key of these public bytes.
pub uninterp spec fn verifies(public: Seq<u8>, message: Seq<u8>, signature: Seq<u8>) -> bool;

/// Calls `ed25519_dalek::PublicKey::from_bytes` and says whether it took the
/// bytes for a public key.
#[verifier::external_body]
pub(crate) fn is_point(public: &[u8; 32]) -> (valid: bool)
    ensures
        valid == point_valid(public@),
{
    ed25519_dalek::PublicKey::from_bytes(public).is_ok()
}

/// Calls `ed25519_dalek::PublicKey::verify_strict` on a key that
/// `from_bytes` accepts. A signature whose scalar has one of its three top
/// bits set is refused by `ed25519::Signature::from_bytes` before that, and
/// counts as not verifying.
#[verifier::external_body]
pub(crate) fn verify_strict(public: &[u8; 32], message: &[u8], signature: &[u8; 64]) -> (ok: bool)
    requires
        point_valid(public@),
    ensures
        ok == verifies(public@, message@, signature@),
{
    let key = ed25519_dalek::PublicKey::from_bytes(public).unwrap();
    match ed25519_dalek::Signature::from_bytes(signature) {
        Ok(signature) => key.verify_strict(message, &signature).is_ok(),
        Err(_) => false,
    }
}

/// Calls `ed25519_dalek::Keypair::sign` with the key pair that
/// `Keypair::from_bytes` builds from the two halves; it builds one whenever
/// the public half is a point of the curve.
#[verifier::external_body]
pub(crate) fn sign_with(
    secret: &[u8; 32],
    public: &[u8; 32],
    message: &[u8],
) -> (signature: [u8; 64])
    requires
        point_valid(public@),
    ensures
        signature@ == signature_spec(secret@, public@, message@),
{
    let mut pair = [0u8; 64];
    pair[..32].copy_from_slice(secret);
    pair[32..].copy_from_slice(public);
    let key = ed25519_dalek::Keypair::from_bytes(&pair).unwrap();
    ed25519_dalek::Signer::sign(&key, message).to_bytes()
}

/// A signing key: the secret bytes and the public key that belongs to them.
pub struct Keypair {
    secret: [u8; 32],
    public: [u8; 32],
}

impl Keypair {
    #[verifier::type_invariant]
    spec fn public_is_point(self) -> bool {
        point_valid(self.public@)
    }

    /// The secret half.
    pub closed spec fn secret_spec(self) -> Seq<u8> {
        self.secret@
    }

    /// The public half.
    pub closed spec fn public_spec(self) -> Seq<u8> {
        self.public@
    }

    /// A key pair of the two halves. The public half has to be a point of
    /// the curve; whether it belongs to the secret half is not examined.
    pub fn new(secret: [u8; 32], public: [u8; 32]) -> (key: Result<Self, Error>)
        ensures
            match key {
                Ok(k) => point_valid(public@) && k.secret_spec() == secret@ && k.public_spec()
                    == public@,
                Err(e) => e == Error::InvalidKey && !point_valid(public@),
            },
    {
        if is_point(&public) {
            Ok(Self { secret, public })
        } else {
            Err(Error::InvalidKey)
        }
    }

    /// The public key, which names this peer.
    pub fn public(&self) -> (public: &[u8; 32])
        ensures
            public@ == self.public_spec(),
            point_valid(public@),
    {
        proof {
            use_type_invariant(self);
        }
        &self.public
    }

    /// The signature of `message` under this key.
    pub fn sign(&self, message: &[u8]) -> (signature: [u8; 64])
        ensures
            signature@ == signature_spec(self.secret_spec(), self.public_spec(), message@),
    {
        proof {
            use_type_invariant(self);
        }
        sign_with(&self.secret, &self.public, message)
    }
}

} // verus!
