//! A growing, append-only byte buffer with a completion flag, and the cursor
//! with which a reader drains it.

use crate::rawbytes::{
    bytes_contents, bytes_extend, bytes_from_string, bytes_from_vec, bytes_len, bytes_new,
    bytes_slice, max_len,
};
use crate::shared::{glimpse, share, Glimpse, SharedBytes};
use bytes::Bytes;
use vstd::prelude::*;
use vstd::std_specs::convert::FromSpecImpl;

verus! {

/// What a buffer is, mathematically: the bytes written so far and whether the
/// writer has finished.
pub struct BufferState {
    pub bytes: Seq<u8>,
    pub completion: bool,
}

/// What one poll hands to a reader.
pub enum Outcome {
    /// Nothing past the reader's offset yet, and the writer has not finished.
    NoNewData,
    /// The bytes from the reader's offset to the buffer's end.
    Chunk(Seq<u8>),
    /// Nothing past the reader's offset, and nothing will follow.
    End,
}

impl BufferState {
    /// A buffer with no bytes whose writer has not finished.
    pub open spec fn empty() -> BufferState {
        BufferState { bytes: Seq::empty(), completion: false }
    }

    /// Whether `chunk` can be appended: the writer has not finished and the
    /// result stays within the largest length a buffer can have.
    pub open spec fn accepts(self, chunk: Seq<u8>) -> bool {
        !self.completion && self.bytes.len() + chunk.len() <= max_len()
    }

    /// The buffer after an attempt to append `chunk`: the chunk stands behind
    /// the bytes written before where it can be appended, and nothing has
    /// changed where it cannot.
    pub open spec fn append(self, chunk: Seq<u8>) -> BufferState {
        if self.accepts(chunk) {
            BufferState { bytes: self.bytes + chunk, completion: false }
        } else {
            self
        }
    }

    /// The buffer once its writer has finished: the same bytes, for good.
    pub open spec fn finish(self) -> BufferState {
        BufferState { bytes: self.bytes, completion: true }
    }

    /// The answer to a reader that has consumed `offset` bytes; `None` when the
    /// offset lies past the end, which no earlier answer can have produced.
    pub open spec fn poll(self, offset: int) -> Option<Outcome> {
        if offset < 0 || offset > self.bytes.len() {
            None
        } else if offset == self.bytes.len() {
            if self.completion {
                Some(Outcome::End)
            } else {
                Some(Outcome::NoNewData)
            }
        } else {
            Some(Outcome::Chunk(self.bytes.subrange(offset, self.bytes.len() as int)))
        }
    }

    /// The offset of a reader after a poll at `offset`: the end of the buffer
    /// where a chunk was handed out, the same offset otherwise.
    pub open spec fn next_offset(self, offset: int) -> int {
        if 0 <= offset < self.bytes.len() {
            self.bytes.len() as int
        } else {
            offset
        }
    }

    /// `self` can turn into `later` by appending and finishing only.
    pub open spec fn grows_into(self, later: BufferState) -> bool {
        &&& self.bytes.len() <= later.bytes.len()
        &&& later.bytes.subrange(0, self.bytes.len() as int) == self.bytes
        &&& self.completion ==> later == self
    }
}

/// The bytes that a poll at `offset` hands out: those from the offset to the
/// buffer's end.
pub open spec fn delivered(state: BufferState, offset: int) -> Seq<u8> {
    match state.poll(offset) {
        Some(Outcome::Chunk(bytes)) => bytes,
        _ => Seq::empty(),
    }
}

/// A poll at the end of a buffer answers `End` once the writer has finished,
/// and `NoNewData` before.
pub proof fn lemma_poll_at_end(state: BufferState)
    ensures
        state.finish().poll(state.bytes.len() as int) == Some(Outcome::End),
        !state.completion ==> state.poll(state.bytes.len() as int) == Some(Outcome::NoNewData),
{
}

/// A poll at an offset within the buffer succeeds, and the reader's offset
/// moves to the buffer's end and never back.
pub proof fn lemma_offset_moves_forward(state: BufferState, offset: int)
    requires
        0 <= offset <= state.bytes.len(),
    ensures
        state.poll(offset) is Some,
        offset <= state.next_offset(offset) <= state.bytes.len(),
        state.next_offset(offset) == offset + delivered(state, offset).len(),
        state.poll(offset) is Some && state.poll(offset)->0 is Chunk <==> offset
            < state.bytes.len(),
{
}

/// Appending and finishing only ever grow a buffer: what was written stays in
/// front, and a finished buffer stays as it is.
pub proof fn lemma_writes_grow(state: BufferState, chunk: Seq<u8>)
    ensures
        state.grows_into(state.append(chunk)),
        state.grows_into(state.finish()),
        state.completion ==> state.append(chunk) == state && state.finish() == state,
{
    assert(state.append(chunk).bytes.subrange(0, state.bytes.len() as int) =~= state.bytes);
    assert(state.finish().bytes.subrange(0, state.bytes.len() as int) =~= state.bytes);
}

/// Growth is transitive.
pub proof fn lemma_growth_chains(first: BufferState, second: BufferState, third: BufferState)
    requires
        first.grows_into(second),
        second.grows_into(third),
    ensures
        first.grows_into(third),
{
    assert(third.bytes.subrange(0, first.bytes.len() as int) =~= first.bytes) by {
        assert(forall|i: int|
            0 <= i < first.bytes.len() ==> third.bytes[i] == second.bytes.subrange(
                0,
                first.bytes.len() as int,
            )[i]) by {
            assert(forall|i: int|
                0 <= i < second.bytes.len() ==> third.bytes.subrange(
                    0,
                    second.bytes.len() as int,
                )[i] == third.bytes[i]);
        }
    }
}

/// A reader sees a growing buffer without gaps and without repetition: what
/// one poll hands out, followed by what the next poll hands out from the
/// grown buffer, is what a single poll of the grown buffer would have handed
/// out; and both polls together never hand out fewer bytes than the first.
pub proof fn lemma_polls_tile(earlier: BufferState, later: BufferState, offset: int)
    requires
        earlier.grows_into(later),
        0 <= offset <= earlier.bytes.len(),
    ensures
        delivered(earlier, offset) + delivered(later, earlier.next_offset(offset)) == delivered(
            later,
            offset,
        ),
        later.next_offset(earlier.next_offset(offset)) >= earlier.next_offset(offset),
        delivered(earlier, offset) == later.bytes.subrange(offset, earlier.next_offset(offset)),
{
    let middle = earlier.next_offset(offset);
    assert(forall|i: int|
        0 <= i < earlier.bytes.len() ==> earlier.bytes[i] == later.bytes.subrange(
            0,
            earlier.bytes.len() as int,
        )[i]);
    assert(delivered(earlier, offset) =~= later.bytes.subrange(offset, middle));
    assert(delivered(earlier, offset) + delivered(later, middle) =~= delivered(later, offset));
}

/// A growing byte buffer and its completion flag.
pub struct LazyBytes {
    pub bytes: Bytes,
    pub completion: bool,
}

impl View for LazyBytes {
    type V = BufferState;

    open spec fn view(&self) -> BufferState {
        BufferState { bytes: bytes_contents(self.bytes), completion: self.completion }
    }
}

/// Why an append left the buffer as it was.
#[derive(Clone, Copy, Debug, PartialEq, Eq, Structural)]
pub enum AppendError {
    /// The writer had already finished; a finished buffer never changes.
    Completed,
    /// The buffer would have grown past the largest length it can have.
    TooLong,
}

/// A reader's offset lies past the end of the buffer it polls.
#[derive(Clone, Copy, Debug, PartialEq, Eq, Structural)]
pub struct ConsistencyError {
    pub offset: usize,
    pub len: usize,
}

/// The executable form of [`Outcome`].
pub enum Polled {
    NoNewData,
    Chunk(Bytes),
    End,
}

impl View for Polled {
    type V = Outcome;

    open spec fn view(&self) -> Outcome {
        match *self {
            Polled::NoNewData => Outcome::NoNewData,
            Polled::Chunk(b) => Outcome::Chunk(bytes_contents(b)),
            Polled::End => Outcome::End,
        }
    }
}

/// The result of a poll, seen mathematically.
pub open spec fn polled_view(r: Result<Polled, ConsistencyError>) -> Option<Outcome> {
    match r {
        Ok(p) => Some(p@),
        Err(_) => None,
    }
}

impl LazyBytes {
    /// An empty buffer whose writer has not finished.
    pub fn new() -> (r: LazyBytes)
        ensures
            r@ == BufferState::empty(),
    {
        LazyBytes { bytes: bytes_new(), completion: false }
    }

    /// A finished buffer that holds `bytes`.
    pub fn complete(bytes: Bytes) -> (r: LazyBytes)
        ensures
            r@ == (BufferState { bytes: bytes_contents(bytes), completion: true }),
    {
        LazyBytes { bytes, completion: true }
    }

    /// The number of bytes written so far.
    pub fn len(&self) -> (r: usize)
        ensures
            r == self@.bytes.len(),
    {
        bytes_len(&self.bytes)
    }

    /// Adds `chunk` behind the bytes already written. A finished buffer, and
    /// one that would grow past its largest length, is left as it was.
    pub fn append(&mut self, chunk: &[u8]) -> (r: Result<(), AppendError>)
        ensures
            final(self)@ == old(self)@.append(chunk@),
            r is Ok <==> old(self)@.accepts(chunk@),
            r == Err::<(), AppendError>(AppendError::Completed) <==> old(self)@.completion,
    {
        if self.completion {
            return Err(AppendError::Completed);
        }
        let len = bytes_len(&self.bytes);
        let limit: usize = isize::MAX as usize;
        if len > limit || chunk.len() > limit - len {
            return Err(AppendError::TooLong);
        }
        bytes_extend(&mut self.bytes, chunk);
        Ok(())
    }

    /// Marks the buffer as finished. The bytes stay as they are, and a second
    /// call changes nothing.
    pub fn finish(&mut self)
        ensures
            final(self)@ == old(self)@.finish(),
    {
        self.completion = true;
    }

    /// Answers a reader that has consumed `offset` bytes.
    pub fn poll(&self, offset: usize) -> (r: Result<Polled, ConsistencyError>)
        ensures
            polled_view(r) == self@.poll(offset as int),
            r matches Err(e) ==> e.offset == offset && e.len == self@.bytes.len(),
    {
        let len = bytes_len(&self.bytes);
        if len == offset {
            if self.completion {
                Ok(Polled::End)
            } else {
                Ok(Polled::NoNewData)
            }
        } else if len > offset {
            Ok(Polled::Chunk(bytes_slice(&self.bytes, offset, len)))
        } else {
            Err(ConsistencyError { offset, len })
        }
    }

    /// A second buffer with the same bytes and the same flag.
    pub fn snapshot(&self) -> (r: LazyBytes)
        ensures
            r@ == self@,
    {
        LazyBytes { bytes: self.bytes.clone(), completion: self.completion }
    }
}

/// Why a stream could not go on.
#[derive(Clone, Copy, Debug, PartialEq, Eq, Structural)]
pub enum StreamError {
    /// The stream has consumed more bytes than its buffer holds.
    Inconsistent(ConsistencyError),
    /// A thread panicked while it held the buffer.
    Poisoned,
}

/// A reader of a shared buffer: the buffer and the number of its bytes that
/// the reader has consumed.
pub struct LazyBytesStream {
    processed_bytes: usize,
    segment: SharedBytes,
}

impl LazyBytesStream {
    /// The number of bytes consumed so far.
    pub closed spec fn processed(&self) -> usize {
        self.processed_bytes
    }

    /// The buffer that is read.
    pub closed spec fn segment(&self) -> SharedBytes {
        self.segment
    }

    /// A reader of `segment` that has consumed nothing.
    pub fn new(segment: SharedBytes) -> (r: LazyBytesStream)
        ensures
            r.processed() == 0,
            r.segment() == segment,
    {
        LazyBytesStream { processed_bytes: 0, segment: segment }
    }

    /// The number of bytes consumed so far.
    pub fn processed_bytes(&self) -> (r: usize)
        ensures
            r == self.processed(),
    {
        self.processed_bytes
    }

    /// Polls `buffer` at the reader's offset, and moves the offset to the
    /// buffer's end where a chunk is handed out.
    pub fn advance(&mut self, buffer: &LazyBytes) -> (r: Result<Polled, ConsistencyError>)
        ensures
            polled_view(r) == buffer@.poll(old(self).processed() as int),
            final(self).processed() == buffer@.next_offset(old(self).processed() as int),
            final(self).segment() == old(self).segment(),
            r matches Err(e) ==> e.offset == old(self).processed() && e.len
                == buffer@.bytes.len(),
    {
        let r = buffer.poll(self.processed_bytes);
        if let Ok(Polled::Chunk(_)) = &r {
            self.processed_bytes = buffer.len();
        }
        r
    }

    /// Whether the answer `r` and the offset `after` are what a reader at
    /// offset `before` comes to when its look at the shared buffer found
    /// `found`: no new data while the writer holds the buffer, an error where
    /// the buffer is poisoned, and otherwise the poll of the copy found, with
    /// the offset at that copy's end where a chunk is handed out.
    pub open spec fn settles(
        before: usize,
        found: Glimpse,
        r: Result<Polled, StreamError>,
        after: usize,
    ) -> bool {
        match found {
            Glimpse::Busy => r matches Ok(Polled::NoNewData) && after == before,
            Glimpse::Poisoned => r == Err::<Polled, StreamError>(StreamError::Poisoned) && after
                == before,
            Glimpse::Held(buffer) => {
                &&& after == buffer@.next_offset(before as int)
                &&& match r {
                    Ok(polled) => Some(polled@) == buffer@.poll(before as int),
                    Err(e) => buffer@.poll(before as int) is None && e
                        == StreamError::Inconsistent(
                        ConsistencyError { offset: before, len: buffer@.bytes.len() as usize },
                    ),
                }
            },
        }
    }

    /// Answers a poll from what a look at the shared buffer found.
    pub fn settle(&mut self, found: Glimpse) -> (r: Result<Polled, StreamError>)
        ensures
            final(self).segment() == old(self).segment(),
            Self::settles(old(self).processed(), found, r, final(self).processed()),
    {
        match found {
            Glimpse::Busy => Ok(Polled::NoNewData),
            Glimpse::Poisoned => Err(StreamError::Poisoned),
            Glimpse::Held(buffer) => match self.advance(&buffer) {
                Ok(polled) => Ok(polled),
                Err(e) => Err(StreamError::Inconsistent(e)),
            },
        }
    }

    /// Polls the shared buffer without waiting for its writer. The answer is
    /// the one that `settle` gives for what the look found; which of them it
    /// is lies with the buffer and with the threads that hold it. Whatever
    /// was found, the offset never moves back, and it moves forward by
    /// exactly the bytes handed out.
    pub fn poll(&mut self) -> (r: Result<Polled, StreamError>)
        ensures
            final(self).segment() == old(self).segment(),
            exists|found: Glimpse|
                Self::settles(old(self).processed(), found, r, final(self).processed()),
            final(self).processed() >= old(self).processed(),
            match r {
                Ok(Polled::Chunk(b)) => bytes_contents(b).len() > 0 && final(self).processed()
                    == old(self).processed() + bytes_contents(b).len(),
                _ => final(self).processed() == old(self).processed(),
            },
    {
        let found = glimpse(&self.segment);
        let ghost seen = found;
        let r = self.settle(found);
        assert(Self::settles(old(self).processed(), seen, r, self.processed()));
        r
    }
}

impl From<Bytes> for LazyBytesStream {
    /// A reader, with nothing consumed, of a finished buffer that holds `bytes`.
    fn from(bytes: Bytes) -> (r: Self)
        ensures
            r.processed() == 0,
    {
        LazyBytesStream { processed_bytes: 0, segment: share(LazyBytes::complete(bytes)) }
    }
}

impl FromSpecImpl<Bytes> for LazyBytesStream {
    open spec fn obeys_from_spec() -> bool {
        false
    }

    open spec fn from_spec(v: Bytes) -> Self {
        arbitrary()
    }
}

impl From<String> for LazyBytesStream {
    /// A reader, with nothing consumed, of a finished buffer that holds the
    /// string's UTF-8 encoding.
    fn from(string: String) -> (r: Self)
        ensures
            r.processed() == 0,
    {
        LazyBytesStream {
            processed_bytes: 0,
            segment: share(LazyBytes::complete(bytes_from_string(string))),
        }
    }
}

impl FromSpecImpl<String> for LazyBytesStream {
    open spec fn obeys_from_spec() -> bool {
        false
    }

    open spec fn from_spec(v: String) -> Self {
        arbitrary()
    }
}

impl From<Vec<u8>> for LazyBytesStream {
    /// A reader, with nothing consumed, of a finished buffer that holds the
    /// vector's bytes.
    fn from(vec: Vec<u8>) -> (r: Self)
        ensures
            r.processed() == 0,
    {
        LazyBytesStream {
            processed_bytes: 0,
            segment: share(LazyBytes::complete(bytes_from_vec(vec))),
        }
    }
}

impl FromSpecImpl<Vec<u8>> for LazyBytesStream {
    open spec fn obeys_from_spec() -> bool {
        false
    }

    open spec fn from_spec(v: Vec<u8>) -> Self {
        arbitrary()
    }
}

} // verus!
