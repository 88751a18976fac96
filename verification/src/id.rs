//! Stream identifiers, their forty-byte layout and their canonical text.

use crate::base64url;
use crate::bytes::{append, array_at, array_eq};
use crate::decimal;
use crate::error::Error;
use vstd::bytes::{spec_u64_to_le_bytes, u64_from_le_bytes, u64_to_le_bytes};
use vstd::prelude::*;
use vstd::std_specs::cmp::PartialEqSpecImpl;
use vstd::string::StrSliceExecFns;

verus! {

/// Names a stream: the owning peer's public key and a number chosen by that peer.
#[derive(Clone, Copy, Debug, Eq, Hash)]
pub struct StreamId {
    pub peer: [u8; 32],
    pub stream: u64,
}

impl PartialEq for StreamId {
    fn eq(&self, other: &Self) -> (same: bool) {
        array_eq(&self.peer, &other.peer) && self.stream == other.stream
    }
}

impl PartialEqSpecImpl for StreamId {
    open spec fn obeys_eq_spec() -> bool {
        true
    }

    open spec fn eq_spec(&self, other: &Self) -> bool {
        *self == *other
    }
}

impl std::str::FromStr for StreamId {
    type Err = Error;
    /// Reads an identifier from text, as the method of the same name does.
    fn from_str(s: &str) -> (id: Result<Self, Error>)
        ensures
            match id {
                Ok(i) => parse_spec(s@) == Some((i.peer@, i.stream)),
                Err(e) => e == Error::MalformedId && parse_spec(s@).is_none(),
            },
    {
        StreamId::from_str(s)
    }
}

/// The position of the first dot of `text`, or its length where it has none.
pub open spec fn find_dot(text: Seq<char>) -> int
    decreases text.len(),
{
    if text.len() == 0 || text[0] == '.' {
        0
    } else {
        1 + find_dot(text.skip(1))
    }
}

/// `bytes` cut or filled up with zeros to thirty-two bytes.
pub open spec fn fit_peer(bytes: Seq<u8>) -> Seq<u8> {
    Seq::new(32, |i: int| if i < bytes.len() { bytes[i] } else { 0u8 })
}

/// The peer bytes and stream number that `text` denotes: the base64url text
/// before the first dot, cut or zero-filled to thirty-two bytes, and the
/// decimal numeral after it.
pub open spec fn parse_spec(text: Seq<char>) -> Option<(Seq<u8>, u64)> {
    let dot = find_dot(text);
    if dot >= text.len() {
        None
    } else {
        match (base64url::decode_spec(text.take(dot)), decimal::parse_spec(text.skip(dot + 1))) {
            (Some(bytes), Some(stream)) => Some((fit_peer(bytes), stream)),
            _ => None,
        }
    }
}

/// `find_dot` is the one position that holds a dot and has none before it.
pub proof fn lemma_find_dot(text: Seq<char>, i: int)
    requires
        0 <= i <= text.len(),
        forall|j: int| 0 <= j < i ==> text[j] != '.',
        i < text.len() ==> text[i] == '.',
    ensures
        find_dot(text) == i,
    decreases i,
{
    if i > 0 {
        let rest = text.skip(1);
        assert forall|j: int| 0 <= j < i - 1 implies rest[j] != '.' by {
            assert(rest[j] == text[j + 1]);
        }
        lemma_find_dot(rest, i - 1);
    }
}

impl StreamId {
    /// The identifier of stream number `stream` of `peer`.
    pub fn new(peer: [u8; 32], stream: u64) -> (id: Self)
        ensures
            id.peer == peer,
            id.stream == stream,
    {
        Self { peer, stream }
    }

    /// The bytes of the owning peer's public key.
    pub fn peer(&self) -> (peer: &[u8; 32])
        ensures
            *peer == self.peer,
    {
        &self.peer
    }

    /// The number of the stream among its peer's streams.
    pub fn stream(&self) -> (n: u64)
        ensures
            n == self.stream,
    {
        self.stream
    }

    /// The forty-byte layout: the peer, then the stream number, low byte first.
    pub open spec fn bytes_spec(self) -> Seq<u8> {
        self.peer@ + spec_u64_to_le_bytes(self.stream)
    }

    /// The canonical text: the peer in base64url without padding, a dot, and
    /// the stream number in decimal.
    pub open spec fn text_spec(self) -> Seq<char> {
        base64url::encode_spec(self.peer@) + seq!['.'] + decimal::decimal_spec(self.stream as nat)
    }

    /// The identifier in its forty-byte layout.
    pub fn to_bytes(&self) -> (bytes: Vec<u8>)
        ensures
            bytes@ == self.bytes_spec(),
            bytes@.len() == 40,
    {
        let mut bytes: Vec<u8> = Vec::new();
        append(&mut bytes, self.peer.as_slice());
        let number = u64_to_le_bytes(self.stream);
        append(&mut bytes, number.as_slice());
        bytes
    }

    /// Reads an identifier from its forty-byte layout; any other length is refused.
    pub fn from_bytes(bytes: &[u8]) -> (id: Option<Self>)
        ensures
            id.is_some() <==> bytes@.len() == 40,
            id matches Some(i) ==> i.bytes_spec() == bytes@,
    {
        if bytes.len() != 40 {
            return None;
        }
        let peer: [u8; 32] = array_at(bytes, 0);
        let number: [u8; 8] = array_at(bytes, 32);
        let stream = u64_from_le_bytes(number.as_slice());
        let id = Self { peer, stream };
        proof {
            vstd::bytes::lemma_auto_spec_u64_to_from_le_bytes();
            assert(spec_u64_to_le_bytes(stream) == number@);
            assert(id.bytes_spec() =~= bytes@);
        }
        Some(id)
    }

    /// The canonical text of the identifier.
    pub fn to_string(&self) -> (text: String)
        ensures
            text@ == self.text_spec(),
            parse_spec(text@) == Some((self.peer@, self.stream)),
    {
        let mut text = base64url::encode(&self.peer);
        decimal::string_push(&mut text, '.');
        decimal::push_decimal(self.stream, &mut text);
        assert(text@ =~= self.text_spec());
        proof {
            lemma_text_roundtrip(*self);
        }
        text
    }

    /// Reads an identifier from text. The text needs a dot, base64url before
    /// the first dot and a decimal numeral of at most 2^64 - 1 after it; a
    /// peer of another length than thirty-two bytes is cut or zero-filled.
    pub fn from_str(s: &str) -> (id: Result<Self, Error>)
        ensures
            match id {
                Ok(i) => parse_spec(s@) == Some((i.peer@, i.stream)),
                Err(e) => e == Error::MalformedId && parse_spec(s@).is_none(),
            },
    {
        let chars = collect_chars(s);
        let mut dot: usize = 0;
        while dot < chars.len() && chars[dot] != '.'
            invariant
                dot <= chars.len(),
                forall|j: int| 0 <= j < dot ==> chars@[j] != '.',
            decreases chars.len() - dot,
        {
            dot += 1;
        }
        proof {
            lemma_find_dot(s@, dot as int);
        }
        if dot >= chars.len() {
            return Err(Error::MalformedId);
        }
        let head = s.substring_char(0, dot);
        assert(head@ =~= s@.take(dot as int));
        let peer = base64url::decode(head);
        let tail = vstd::slice::slice_subrange(chars.as_slice(), dot + 1, chars.len());
        assert(tail@ =~= s@.skip(dot + 1));
        let stream = decimal::parse(tail);
        Self::from_parts(peer, stream)
    }

    /// The identifier of the two parts of a text, as far as they could be
    /// read: the bytes before the dot, cut or zero-filled to thirty-two, and
    /// the number after it. Fails with `MalformedId` where either is missing.
    pub fn from_parts(peer: Option<Vec<u8>>, stream: Option<u64>) -> (id: Result<Self, Error>)
        ensures
            match id {
                Ok(i) => peer.is_some() && stream.is_some() && i.peer@ == fit_peer(peer.unwrap()@)
                    && i.stream == stream.unwrap(),
                Err(e) => e == Error::MalformedId && (peer.is_none() || stream.is_none()),
            },
    {
        let (bytes, stream) = match (peer, stream) {
            (Some(bytes), Some(stream)) => (bytes, stream),
            _ => {
                return Err(Error::MalformedId);
            },
        };
        let mut peer = [0u8; 32];
        let mut i: usize = 0;
        while i < 32 && i < bytes.len()
            invariant
                i <= 32,
                i <= bytes.len(),
                forall|j: int| 0 <= j < i ==> peer@[j] == bytes@[j],
                forall|j: int| i <= j < 32 ==> peer@[j] == 0u8,
            decreases 32 - i,
        {
            peer[i] = bytes[i];
            i += 1;
        }
        assert(peer@ =~= fit_peer(bytes@));
        Ok(Self { peer, stream })
    }
}

/// The characters of `s`, one by one.
fn collect_chars(s: &str) -> (chars: Vec<char>)
    ensures
        chars@ == s@,
{
    let n = s.unicode_len();
    let mut chars: Vec<char> = Vec::new();
    let mut i: usize = 0;
    while i < n
        invariant
            i <= n,
            n == s@.len(),
            chars@ == s@.take(i as int),
        decreases n - i,
    {
        chars.push(s.get_char(i));
        assert(s@.take(i + 1) =~= s@.take(i as int).push(s@[i as int]));
        i += 1;
    }
    assert(s@.take(n as int) =~= s@);
    chars
}

/// Two identifiers with the same forty bytes are the same identifier.
pub proof fn lemma_id_bytes_injective(a: StreamId, b: StreamId)
    requires
        a.bytes_spec() == b.bytes_spec(),
    ensures
        a == b,
{
    vstd::bytes::lemma_auto_spec_u64_to_from_le_bytes();
    assert(a.bytes_spec().subrange(0, 32) =~= a.peer@);
    assert(b.bytes_spec().subrange(0, 32) =~= b.peer@);
    assert(a.bytes_spec().subrange(32, 40) =~= spec_u64_to_le_bytes(a.stream));
    assert(b.bytes_spec().subrange(32, 40) =~= spec_u64_to_le_bytes(b.stream));
    assert(a.peer =~= b.peer);
}

/// Parsing the canonical text of an identifier gives the identifier back.
pub proof fn lemma_text_roundtrip(id: StreamId)
    ensures
        parse_spec(id.text_spec()) == Some((id.peer@, id.stream)),
{
    let head = base64url::encode_spec(id.peer@);
    let tail = decimal::decimal_spec(id.stream as nat);
    let text = id.text_spec();
    base64url::lemma_encoding_has_no_dot(id.peer@);
    base64url::lemma_encode_roundtrip(id.peer@);
    decimal::lemma_decimal_roundtrip(id.stream);
    let dot = head.len() as int;
    assert forall|j: int| 0 <= j < dot implies text[j] != '.' by {
        assert(text[j] == head[j]);
        assert(head.contains(head[j]));
    }
    assert(text[dot] == '.');
    lemma_find_dot(text, dot);
    assert(text.take(dot) =~= head);
    assert(text.skip(dot + 1) =~= tail);
    assert(fit_peer(id.peer@) =~= id.peer@);
}

} // verus!
