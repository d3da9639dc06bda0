//! The pull side of a large file's body: a byte stream fed by the chunk
//! channel.

use vstd::prelude::*;
use crate::channel::{channel_send, recv_message};
use crate::entry::{Message, TarEntry};

verus! {

/// Why a body could not be read to its end.
#[derive(Debug, Clone, PartialEq, Eq)]
pub enum StreamError {
    /// The end marker came after `got` bytes of a body announced as
    /// `expected` bytes.
    UnexpectedEof { expected: u64, got: u64 },
    /// A message that has no place inside a body.
    InvalidData,
    /// The chunk channel closed before the end marker.
    BrokenPipe,
    /// A reader reported a failure in place of a message.
    Upstream(String),
}

/// What a reader is, as mathematics.
pub struct ReaderState {
    /// Bytes received and not yet handed out.
    pub pending: Seq<u8>,
    /// Number of bytes handed out so far.
    pub delivered: nat,
    /// Size announced when the body was opened.
    pub expected: nat,
    /// Whether the end marker was seen.
    pub exhausted: bool,
}

/// What arrives at a reader that waits on the chunk channel: a message, or
/// `None` when the channel has closed.
pub type Arrival = Option<Message>;

impl ReaderState {
    /// Bytes received so far, handed out or not.
    pub open spec fn received(self) -> nat {
        self.delivered + self.pending.len()
    }

    /// The state after `n` pending bytes were handed out.
    pub open spec fn serve(self, n: nat) -> ReaderState {
        ReaderState {
            pending: self.pending.skip(n as int),
            delivered: self.delivered + n,
            ..self
        }
    }

    /// Whether a chunk of `len` bytes would push the count of received bytes
    /// past what 64 bits hold.
    pub open spec fn overflows(self, len: nat) -> bool {
        self.received() + len > u64::MAX
    }

    /// The failure that an arrival causes, if any.
    pub open spec fn failure(self, arrival: Arrival) -> Option<StreamError> {
        match arrival {
            Some(Ok(TarEntry::LargeFileChunk(bytes))) => if self.overflows(bytes@.len()) {
                Some(StreamError::InvalidData)
            } else {
                None
            },
            Some(Ok(TarEntry::LargeFileEnd)) => if self.delivered != self.expected {
                Some(
                    StreamError::UnexpectedEof {
                        expected: self.expected as u64,
                        got: self.delivered as u64,
                    },
                )
            } else {
                None
            },
            Some(Ok(_)) => Some(StreamError::InvalidData),
            Some(Err(reason)) => Some(StreamError::Upstream(reason)),
            None => Some(StreamError::BrokenPipe),
        }
    }

    /// The state after an arrival: a chunk becomes the pending bytes, the
    /// end marker exhausts the stream, anything else changes nothing.
    pub open spec fn accept(self, arrival: Arrival) -> ReaderState {
        match arrival {
            Some(Ok(TarEntry::LargeFileChunk(bytes))) => if self.overflows(bytes@.len()) {
                self
            } else {
                ReaderState { pending: bytes@, ..self }
            },
            Some(Ok(TarEntry::LargeFileEnd)) => ReaderState { exhausted: true, ..self },
            _ => self,
        }
    }
}

/// Number of bytes that one read hands out: what is pending, cut to the
/// room that the caller offers.
pub open spec fn spec_take(pending: nat, room: nat) -> nat {
    if pending <= room {
        pending
    } else {
        room
    }
}

/// The outcome of a read request that finds the stream open and nothing
/// pending, and therefore waits for `arrival`.
pub open spec fn spec_read_after(state: ReaderState, arrival: Arrival, room: nat) -> (
    ReaderState,
    Result<Option<usize>, StreamError>,
) {
    let next = state.accept(arrival);
    match state.failure(arrival) {
        Some(error) => (next, Err(error)),
        None => if next.exhausted {
            (next, Ok(Some(0usize)))
        } else if next.pending.len() == 0 {
            (next, Ok(None))
        } else {
            let n = spec_take(next.pending.len(), room);
            (next.serve(n), Ok(Some(n as usize)))
        },
    }
}

/// What the caller's buffer holds after a read request that waited for
/// `arrival` and ended with `result`: the bytes handed out in front, the
/// rest as it was.
pub open spec fn spec_filled(
    state: ReaderState,
    arrival: Arrival,
    result: Result<Option<usize>, StreamError>,
    before: Seq<u8>,
    after: Seq<u8>,
) -> bool {
    match result {
        Ok(Some(n)) => {
            &&& after.take(n as int) == state.accept(arrival).pending.take(n as int)
            &&& after.skip(n as int) == before.skip(n as int)
        },
        _ => after == before,
    }
}

/// Reads one large file's body from the chunk channel.
pub struct StreamingReader {
    buffer: Vec<u8>,
    cursor: usize,
    total_read: u64,
    expected: u64,
    exhausted: bool,
}

impl View for StreamingReader {
    type V = ReaderState;

    closed spec fn view(&self) -> ReaderState {
        ReaderState {
            pending: self.buffer@.skip(self.cursor as int),
            delivered: self.total_read as nat,
            expected: self.expected as nat,
            exhausted: self.exhausted,
        }
    }
}

impl StreamingReader {
    /// The cursor lies inside the buffer, and the bytes received fit in 64
    /// bits.
    pub closed spec fn wf(&self) -> bool {
        &&& self.cursor <= self.buffer@.len()
        &&& self.total_read + (self.buffer@.len() - self.cursor) <= u64::MAX
    }

    /// A reader for a body announced as `expected` bytes.
    pub fn new(expected: u64) -> (reader: Self)
        ensures
            reader.wf(),
            reader@ == (ReaderState {
                pending: Seq::empty(),
                delivered: 0,
                expected: expected as nat,
                exhausted: false,
            }),
    {
        let reader = StreamingReader {
            buffer: Vec::new(),
            cursor: 0,
            total_read: 0,
            expected,
            exhausted: false,
        };
        assert(reader@.pending =~= Seq::empty());
        reader
    }

    /// Number of bytes handed out so far.
    pub fn total_read(&self) -> (n: u64)
        ensures
            n == self@.delivered,
    {
        self.total_read
    }

    /// Size announced when the body was opened.
    pub fn expected(&self) -> (n: u64)
        ensures
            n == self@.expected,
    {
        self.expected
    }

    /// Whether the end marker was seen.
    pub fn is_exhausted(&self) -> (b: bool)
        ensures
            b == self@.exhausted,
    {
        self.exhausted
    }

    /// Number of bytes received and not yet handed out.
    pub fn pending_len(&self) -> (n: usize)
        requires
            self.wf(),
        ensures
            n == self@.pending.len(),
    {
        self.buffer.len() - self.cursor
    }

    /// Hands out pending bytes: as many as `out` has room for, copied to the
    /// front of `out`. A buffer that is drained goes back to the pool.
    pub fn serve(&mut self, pool: &crossbeam_channel::Sender<Vec<u8>>, out: &mut [u8]) -> (n: usize)
        requires
            old(self).wf(),
        ensures
            final(self).wf(),
            n == spec_take(old(self)@.pending.len(), old(out)@.len()),
            final(self)@ == old(self)@.serve(n as nat),
            final(out)@.len() == old(out)@.len(),
            final(out)@.take(n as int) == old(self)@.pending.take(n as int),
            final(out)@.skip(n as int) == old(out)@.skip(n as int),
    {
        let available = self.buffer.len() - self.cursor;
        let n = if available <= out.len() {
            available
        } else {
            out.len()
        };
        let ghost before = self@;
        let mut i: usize = 0;
        while i < n
            invariant
                i <= n,
                n <= out@.len(),
                out@.len() == old(out)@.len(),
                self.cursor + n <= self.buffer@.len() <= usize::MAX,
                self.wf(),
                self@ == before,
                forall|j: int| 0 <= j < i ==> out@[j] == self.buffer@[self.cursor + j],
                forall|j: int| i <= j < out@.len() ==> out@[j] == old(out)@[j],
            decreases n - i,
        {
            out[i] = self.buffer[self.cursor + i];
            i = i + 1;
        }
        self.cursor = self.cursor + n;
        self.total_read = self.total_read + n as u64;
        assert(self@.pending =~= before.pending.skip(n as int));
        assert(out@.take(n as int) =~= before.pending.take(n as int));
        assert(out@.skip(n as int) =~= old(out)@.skip(n as int));
        if n > 0 && self.cursor == self.buffer.len() {
            let mut drained = Vec::new();
            core::mem::swap(&mut self.buffer, &mut drained);
            self.cursor = 0;
            assert(self@.pending =~= before.pending.skip(n as int));
            let _ = channel_send(pool, drained);
        }
        n
    }

    /// Takes in what arrived while the stream was open and nothing was
    /// pending. A chunk becomes the pending bytes. The end marker exhausts
    /// the stream, and fails unless exactly the announced number of bytes
    /// was handed out. Any other entry, a reader's failure and a closed
    /// channel fail and change nothing; so does a chunk that would carry
    /// the count of bytes past what 64 bits hold, which is refused as
    /// invalid data.
    pub fn accept(&mut self, arrival: Arrival) -> (result: Result<(), StreamError>)
        requires
            old(self).wf(),
            old(self)@.pending.len() == 0,
        ensures
            final(self).wf(),
            final(self)@ == old(self)@.accept(arrival),
            match old(self)@.failure(arrival) {
                Some(error) => result == Err::<(), StreamError>(error),
                None => result is Ok,
            },
    {
        match arrival {
            Some(Ok(TarEntry::LargeFileChunk(bytes))) => {
                if bytes.len() as u64 > u64::MAX - self.total_read {
                    Err(StreamError::InvalidData)
                } else {
                    self.buffer = bytes;
                    self.cursor = 0;
                    assert(self@.pending =~= bytes@);
                    Ok(())
                }
            },
            Some(Ok(TarEntry::LargeFileEnd)) => {
                self.exhausted = true;
                if self.total_read != self.expected {
                    Err(
                        StreamError::UnexpectedEof {
                            expected: self.expected,
                            got: self.total_read,
                        },
                    )
                } else {
                    Ok(())
                }
            },
            Some(Ok(_)) => Err(StreamError::InvalidData),
            Some(Err(reason)) => Err(StreamError::Upstream(reason)),
            None => Err(StreamError::BrokenPipe),
        }
    }

    /// The rest of a read request, once the wait on the chunk channel has
    /// ended with `arrival`.
    pub fn read_after(
        &mut self,
        arrival: Arrival,
        pool: &crossbeam_channel::Sender<Vec<u8>>,
        out: &mut [u8],
    ) -> (result: Result<Option<usize>, StreamError>)
        requires
            old(self).wf(),
            old(self)@.pending.len() == 0,
        ensures
            final(self).wf(),
            final(out)@.len() == old(out)@.len(),
            final(self)@ == spec_read_after(old(self)@, arrival, old(out)@.len()).0,
            result == spec_read_after(old(self)@, arrival, old(out)@.len()).1,
            spec_filled(old(self)@, arrival, result, old(out)@, final(out)@),
    {
        match self.accept(arrival) {
            Err(error) => Err(error),
            Ok(()) => {
                if self.exhausted {
                    assert(out@.take(0) =~= self@.pending.take(0));
                    assert(out@.skip(0) =~= old(out)@.skip(0));
                    Ok(Some(0))
                } else if self.buffer.len() - self.cursor == 0 {
                    Ok(None)
                } else {
                    let n = self.serve(pool, out);
                    Ok(Some(n))
                }
            },
        }
    }

    /// One read request of up to `out.len()` bytes.
    ///
    /// An exhausted stream gives `Ok(Some(0))`. Pending bytes are handed out
    /// without a wait. Otherwise the call waits for the next message on the
    /// chunk channel and goes on as `read_after` says. `Ok(None)` tells the
    /// caller that an empty chunk arrived and the request is to be made
    /// again.
    pub fn read(
        &mut self,
        chunks: &crossbeam_channel::Receiver<Message>,
        pool: &crossbeam_channel::Sender<Vec<u8>>,
        out: &mut [u8],
    ) -> (result: Result<Option<usize>, StreamError>)
        requires
            old(self).wf(),
        ensures
            final(self).wf(),
            final(out)@.len() == old(out)@.len(),
            old(self)@.exhausted ==> result == Ok::<Option<usize>, StreamError>(Some(0usize))
                && final(self)@ == old(self)@ && final(out)@ == old(out)@,
            !old(self)@.exhausted && old(self)@.pending.len() > 0 ==> {
                let n = spec_take(old(self)@.pending.len(), old(out)@.len());
                &&& result == Ok::<Option<usize>, StreamError>(Some(n as usize))
                &&& final(self)@ == old(self)@.serve(n)
                &&& final(out)@.take(n as int) == old(self)@.pending.take(n as int)
                &&& final(out)@.skip(n as int) == old(out)@.skip(n as int)
            },
            !old(self)@.exhausted && old(self)@.pending.len() == 0 ==> exists|arrival: Arrival|
                {
                    &&& final(self)@ == spec_read_after(old(self)@, arrival, old(out)@.len()).0
                    &&& result == spec_read_after(old(self)@, arrival, old(out)@.len()).1
                    &&& spec_filled(old(self)@, arrival, result, old(out)@, final(out)@)
                },
    {
        if self.exhausted {
            return Ok(Some(0));
        }
        if self.cursor < self.buffer.len() {
            let n = self.serve(pool, out);
            return Ok(Some(n));
        }
        let arrival = recv_message(chunks);
        let ghost witness = arrival;
        let result = self.read_after(arrival, pool, out);
        assert(self@ == spec_read_after(old(self)@, witness, old(out)@.len()).0);
        assert(spec_filled(old(self)@, witness, result, old(out)@, out@));
        result
    }
}

/// The arrival of a body fragment.
pub open spec fn chunk_arrival(bytes: Vec<u8>) -> Arrival {
    Some(Ok(TarEntry::LargeFileChunk(bytes)))
}

/// The arrival of the end marker.
pub open spec fn end_arrival() -> Arrival {
    Some(Ok(TarEntry::LargeFileEnd))
}

/// The state of a reader that was just made.
pub open spec fn initial_state(expected: u64) -> ReaderState {
    ReaderState { pending: Seq::empty(), delivered: 0, expected: expected as nat, exhausted: false }
}

/// Number of bytes in all of `chunks`.
pub open spec fn total_len(chunks: Seq<Vec<u8>>) -> nat
    decreases chunks.len(),
{
    if chunks.len() == 0 {
        0
    } else {
        chunks[0]@.len() + total_len(chunks.skip(1))
    }
}

/// The state after `chunks` arrived one after the other, each handed out
/// to its last byte before the next was waited for.
pub open spec fn feed(state: ReaderState, chunks: Seq<Vec<u8>>) -> ReaderState
    decreases chunks.len(),
{
    if chunks.len() == 0 {
        state
    } else {
        let taken = state.accept(chunk_arrival(chunks[0]));
        feed(taken.serve(taken.pending.len()), chunks.skip(1))
    }
}

/// Handing out pending bytes in two requests leaves the reader where one
/// request for all of them leaves it.
pub proof fn lemma_serve_in_parts(state: ReaderState, first: nat, second: nat)
    requires
        first + second <= state.pending.len(),
    ensures
        state.serve(first).serve(second) == state.serve(first + second),
{
    assert(state.pending.skip(first as int).skip(second as int) =~= state.pending.skip(
        (first + second) as int,
    ));
}

/// A reader with nothing pending that takes in `chunks` has handed out all
/// their bytes, and nothing else about it has changed.
pub proof fn lemma_feed_counts_bytes(state: ReaderState, chunks: Seq<Vec<u8>>)
    requires
        state.pending.len() == 0,
        state.delivered + total_len(chunks) <= u64::MAX,
    ensures
        feed(state, chunks).pending.len() == 0,
        feed(state, chunks).delivered == state.delivered + total_len(chunks),
        feed(state, chunks).expected == state.expected,
        feed(state, chunks).exhausted == state.exhausted,
    decreases chunks.len(),
{
    if chunks.len() > 0 {
        let taken = state.accept(chunk_arrival(chunks[0]));
        assert(!state.overflows(chunks[0]@.len()));
        assert(taken.pending == chunks[0]@);
        lemma_feed_counts_bytes(taken.serve(taken.pending.len()), chunks.skip(1));
    }
}

/// The end marker is accepted exactly if the chunks since the start of the
/// body hold as many bytes as were announced. Otherwise the read fails as
/// an unexpected end, with the announced size and the number of bytes that
/// came. Either way the stream is exhausted afterwards.
pub proof fn lemma_end_checks_size(expected: u64, chunks: Seq<Vec<u8>>)
    requires
        total_len(chunks) <= u64::MAX,
    ensures
        total_len(chunks) == expected ==> feed(initial_state(expected), chunks).failure(
            end_arrival(),
        ) is None,
        total_len(chunks) != expected ==> feed(initial_state(expected), chunks).failure(
            end_arrival(),
        ) == Some(StreamError::UnexpectedEof { expected, got: total_len(chunks) as u64 }),
        feed(initial_state(expected), chunks).accept(end_arrival()).exhausted,
{
    lemma_feed_counts_bytes(initial_state(expected), chunks);
}

} // verus!
