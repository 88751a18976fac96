//! Readers: a range of a stream under the head that was current when the
//! reader was made.

use crate::bytes::{array_at, copy_range};
use crate::error::Error;
use crate::head::SignedHead;
use crate::stream::{Slice, Stream};
use crate::tree::{extract_slice, header_gives, is_slice_of, lemma_outboard_header, slice_of};
use vstd::bytes::u64_from_le_bytes;
use vstd::prelude::*;

verus! {

/// A range of a stream, bound to a snapshot of the stream's record. Bytes
/// that the stream gains later are not seen through it.
pub struct StreamReader {
    record: Stream,
    start: u64,
    len: u64,
}

impl StreamReader {
    #[verifier::type_invariant]
    spec fn inv(self) -> bool {
        self.start + self.len <= self.record.head.head.len
    }

    /// The record that the reader is bound to.
    pub closed spec fn record_spec(self) -> Stream {
        self.record
    }

    /// Where the range starts.
    pub closed spec fn start_spec(self) -> u64 {
        self.start
    }

    /// How many bytes the range has.
    pub closed spec fn len_spec(self) -> u64 {
        self.len
    }

    /// The bytes of the stream as the snapshot has it: the first bytes of
    /// the file, as many as the head counts.
    pub open spec fn snapshot(self, data: Seq<u8>) -> Seq<u8> {
        data.take(self.record_spec().head.head.len as int)
    }

    /// A reader of the `len` bytes at `start` under `record`. Fails with
    /// `RangeOutOfBounds` where the range does not end inside the stream.
    pub fn new(record: Stream, start: u64, len: u64) -> (reader: Result<Self, Error>)
        ensures
            match reader {
                Ok(r) => start + len <= record.head.head.len && r.record_spec() == record
                    && r.start_spec() == start && r.len_spec() == len,
                Err(e) => e == Error::RangeOutOfBounds && start + len > record.head.head.len,
            },
    {
        if start > record.head.head.len || len > record.head.head.len - start {
            return Err(Error::RangeOutOfBounds);
        }
        Ok(Self { record, start, len })
    }

    /// The signed head that the reader is bound to.
    pub fn head(&self) -> (head: &SignedHead)
        ensures
            *head == self.record_spec().head,
            self.start_spec() + self.len_spec() <= head.head.len,
    {
        proof {
            use_type_invariant(self);
        }
        &self.record.head
    }

    /// Where the range starts.
    pub fn start(&self) -> (start: u64)
        ensures
            start == self.start_spec(),
    {
        self.start
    }

    /// How many bytes the range has.
    pub fn len(&self) -> (len: u64)
        ensures
            len == self.len_spec(),
    {
        self.len
    }

    /// The bytes of the range, unverified, from the bytes `data` of the
    /// stream's file. Fails with `IntegrityError` where the file is shorter
    /// than the head says.
    pub fn read(&self, data: &[u8]) -> (bytes: Result<Vec<u8>, Error>)
        ensures
            match bytes {
                Ok(b) => data@.len() >= self.record_spec().head.head.len && b@ == data@.subrange(
                    self.start_spec() as int,
                    self.start_spec() + self.len_spec(),
                ),
                Err(e) => e == Error::IntegrityError && data@.len()
                    < self.record_spec().head.head.len,
            },
    {
        proof {
            use_type_invariant(self);
        }
        if (data.len() as u64) < self.record.head.head.len {
            return Err(Error::IntegrityError);
        }
        Ok(copy_range(data, self.start as usize, (self.start + self.len) as usize))
    }

    /// Whether the file bytes `data` and the outboard encoding of the
    /// snapshot fit together so far that a slice can be cut: the file has
    /// all bytes that the head counts, and the encoding announces as many.
    pub open spec fn fits(self, data: Seq<u8>) -> bool {
        &&& data.len() >= self.record_spec().head.head.len
        &&& header_gives(self.record_spec().outboard@, self.record_spec().head.head.len as nat)
    }

    /// The slice that `extract` yields over the file bytes `data`, if any.
    pub open spec fn extract_spec(self, data: Seq<u8>) -> Option<Seq<u8>> {
        if self.fits(data) {
            slice_of(
                self.snapshot(data),
                self.record_spec().outboard@,
                self.start_spec(),
                self.len_spec(),
            )
        } else {
            None
        }
    }

    /// Puts what the extractor yielded under the head of the snapshot: its
    /// bytes become the data of a slice, and its failure `IntegrityError`.
    pub fn deliver(&self, extracted: Option<Vec<u8>>) -> (slice: Result<Slice, Error>)
        ensures
            match slice {
                Ok(s) => extracted.is_some() && s.head == self.record_spec().head && s.data@
                    == extracted.unwrap()@,
                Err(e) => e == Error::IntegrityError && extracted.is_none(),
            },
    {
        match extracted {
            Some(data) => Ok(Slice { head: self.record.head, data }),
            None => Err(Error::IntegrityError),
        }
    }

    /// The verifiable slice of the range, cut from the bytes `data` of the
    /// stream's file and the outboard encoding of the snapshot. Fails with
    /// `IntegrityError` where file and encoding do not fit together or the
    /// encoding ends early. Where the record commits to the bytes of the
    /// snapshot, the slice is cut, and it is a slice of those bytes.
    pub fn extract(&self, data: &[u8]) -> (slice: Result<Slice, Error>)
        ensures
            match slice {
                Ok(s) => s.head == self.record_spec().head && self.extract_spec(data@) == Some(
                    s.data@,
                ),
                Err(e) => e == Error::IntegrityError && self.extract_spec(data@).is_none(),
            },
            self.record_spec().commits_to(self.snapshot(data@)) && data@.len()
                >= self.record_spec().head.head.len ==> slice.is_ok() && is_slice_of(
                slice.unwrap().data@,
                self.snapshot(data@),
                self.start_spec(),
                self.len_spec(),
            ),
    {
        proof {
            use_type_invariant(self);
            if data@.len() >= self.record.head.head.len {
                lemma_outboard_header(self.snapshot(data@));
            }
        }
        let counted = self.record.head.head.len;
        if (data.len() as u64) < counted {
            return Err(Error::IntegrityError);
        }
        if self.record.outboard.len() < 8 {
            return Err(Error::IntegrityError);
        }
        let header: [u8; 8] = array_at(self.record.outboard.as_slice(), 0);
        if u64_from_le_bytes(header.as_slice()) != counted {
            return Err(Error::IntegrityError);
        }
        let snapshot = vstd::slice::slice_subrange(data, 0, counted as usize);
        assert(snapshot@ =~= self.snapshot(data@));
        let extracted = extract_slice(
            snapshot,
            self.record.outboard.as_slice(),
            self.start,
            self.len,
        );
        self.deliver(extracted)
    }
}

} // verus!
