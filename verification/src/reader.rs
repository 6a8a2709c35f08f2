use vstd::prelude::*;
use crate::accumulator::ByteAccumulator;
use crate::codec::{
    decoded_chunks, header_ok, le_word_at, CHUNK_HEADER_SIZE, CHUNK_PAYLOAD_SIZE, CHUNK_SIZE,
    DIRECTORY_SIZE, MAGIC_WORD_A, MAGIC_WORD_B,
};
use crate::world::{Chunk, World};

verus! {

/// The abstract state of one ingestion session: whether the one-time
/// directory record has been consumed, the bytes delivered but not yet framed
/// into a record, and the validated chunk payloads awaiting conversion.
#[verifier::ext_equal]
pub ghost struct IngestState {
    pub directory_loaded: bool,
    pub buffered: Seq<u8>,
    pub pending: Seq<Seq<u8>>,
}

impl IngestState {
    /// The state of a fresh session: nothing delivered, nothing decoded.
    pub open spec fn initial() -> IngestState {
        IngestState { directory_loaded: false, buffered: Seq::empty(), pending: Seq::empty() }
    }

    /// The same session with `bytes` appended to the unframed buffer.
    pub open spec fn with_bytes(self, bytes: Seq<u8>) -> IngestState {
        IngestState { directory_loaded: self.directory_loaded, buffered: self.buffered + bytes, pending: self.pending }
    }

    /// The directory record can be framed: it has not been consumed yet and
    /// enough bytes are buffered.
    pub open spec fn directory_ready(self) -> bool {
        !self.directory_loaded && self.buffered.len() >= DIRECTORY_SIZE
    }

    /// A chunk record can be framed and its header holds the magic words.
    pub open spec fn chunk_ready(self) -> bool {
        self.directory_loaded && self.buffered.len() >= CHUNK_SIZE && header_ok(self.buffered)
    }

    /// A full chunk record is buffered but its header does not hold the magic
    /// words: the session is corrupt, and stays so whatever arrives next.
    pub open spec fn corrupt(self) -> bool {
        self.directory_loaded && self.buffered.len() >= CHUNK_SIZE && !header_ok(self.buffered)
    }

    /// No record can be framed from the buffered bytes.
    pub open spec fn drained(self) -> bool {
        !self.directory_ready() && !self.chunk_ready()
    }

    /// Consume the directory record: its bytes are discarded and the mode
    /// flag flips, once and forever.
    pub open spec fn take_directory(self) -> IngestState
        recommends
            self.directory_ready(),
    {
        IngestState {
            directory_loaded: true,
            buffered: self.buffered.skip(DIRECTORY_SIZE as int),
            pending: self.pending,
        }
    }

    /// Consume one validated chunk record: the header is dropped and the
    /// payload joins the pending queue.
    pub open spec fn take_chunk(self) -> IngestState
        recommends
            self.chunk_ready(),
    {
        IngestState {
            directory_loaded: true,
            buffered: self.buffered.skip(CHUNK_SIZE as int),
            pending: self.pending.push(
                self.buffered.subrange(CHUNK_HEADER_SIZE as int, CHUNK_SIZE as int),
            ),
        }
    }

    /// Frame records from the buffer until none can be framed: the one-time
    /// directory record first, then chunk records, stopping at a corrupt
    /// record or when too few bytes remain.
    pub open spec fn drain(self) -> IngestState
        decreases self.buffered.len(),
    {
        if self.directory_ready() {
            self.take_directory().drain()
        } else if self.chunk_ready() {
            self.take_chunk().drain()
        } else {
            self
        }
    }

    /// The state after one delivery of `bytes`: append, then frame every
    /// record that became complete.
    pub open spec fn ingest(self, bytes: Seq<u8>) -> IngestState {
        self.with_bytes(bytes).drain()
    }
}

/// A chunk record whose framing header did not hold the two magic words.
/// The record stays at the front of the buffer, so the session makes no
/// further progress: there is no resynchronization protocol, and the host
/// decides whether to discard the session.
#[derive(Clone, Copy, Debug, PartialEq, Eq, Structural)]
pub struct FramingError {
    /// Offset in the delivered byte stream of the record that failed
    /// validation.
    pub offset: u64,
    /// The first 32-bit word found where `MAGIC_WORD_A` was required.
    pub found_a: u32,
    /// The second 32-bit word found where `MAGIC_WORD_B` was required.
    pub found_b: u32,
}

/// The framing error reported for a corrupt state, given the total number of
/// bytes delivered so far.
pub open spec fn corrupt_error(s: IngestState, total: u64) -> FramingError
    recommends
        s.corrupt(),
        s.buffered.len() <= total,
{
    FramingError {
        offset: (total - s.buffered.len()) as u64,
        found_a: le_word_at(s.buffered, 0) as u32,
        found_b: le_word_at(s.buffered, 4) as u32,
    }
}

/// The ingestion pipeline: owns the byte accumulator, the mode flag, the
/// running total of delivered bytes, and the queue of validated chunk
/// payloads awaiting conversion into a world.
pub struct ChunksReader {
    acc: ByteAccumulator,
    directory_loaded: bool,
    total_received: u64,
    pending: Vec<Vec<u8>>,
}

impl View for ChunksReader {
    type V = IngestState;

    closed spec fn view(&self) -> IngestState {
        IngestState {
            directory_loaded: self.directory_loaded,
            buffered: self.acc@,
            pending: self.pending@.map_values(|p: Vec<u8>| p@),
        }
    }
}

impl ChunksReader {
    /// Total bytes delivered through `handle_data` since construction.
    pub closed spec fn total(&self) -> u64 {
        self.total_received
    }

    /// The reader's invariant: every framable record has been framed (the
    /// buffer is drained), the buffer never holds more bytes than were
    /// delivered, and every pending payload has the exact payload size.
    pub open spec fn wf(&self) -> bool {
        &&& self@.drained()
        &&& self@.buffered.len() <= self.total()
        &&& forall|i: int|
            0 <= i < self@.pending.len() ==> (#[trigger] self@.pending[i]).len()
                == CHUNK_PAYLOAD_SIZE
    }

    /// A fresh reader: zero bytes received, empty buffer, directory not yet
    /// loaded, no pending payloads.
    pub fn new() -> (r: ChunksReader)
        ensures
            r@ == IngestState::initial(),
            r.total() == 0,
            r.wf(),
    {
        let r = ChunksReader {
            acc: ByteAccumulator::new(),
            directory_loaded: false,
            total_received: 0,
            pending: Vec::new(),
        };
        proof {
            assert(r@ =~= IngestState::initial());
        }
        r
    }

    /// Total bytes delivered so far (diagnostic; not the buffered length).
    pub fn size_sum(&self) -> (n: u64)
        ensures
            n == self.total(),
    {
        self.total_received
    }

    /// Whether the one-time directory record has been consumed.
    pub fn directory_loaded(&self) -> (b: bool)
        ensures
            b == self@.directory_loaded,
    {
        self.directory_loaded
    }

    /// Count of bytes delivered but not yet framed into a record.
    pub fn buffered_len(&self) -> (n: usize)
        ensures
            n == self@.buffered.len(),
    {
        self.acc.length()
    }

    /// Count of validated chunk payloads awaiting conversion.
    pub fn pending_count(&self) -> (n: usize)
        ensures
            n == self@.pending.len(),
    {
        self.pending.len()
    }

    /// The little-endian 32-bit word at offset `at` of the buffered bytes.
    fn read_word(&self, at: usize) -> (w: u32)
        requires
            at + 4 <= self@.buffered.len(),
            self@.buffered.len() <= usize::MAX,
        ensures
            w == le_word_at(self@.buffered, at as int),
    {
        let b0 = self.acc.get(at) as u32;
        let b1 = self.acc.get(at + 1) as u32;
        let b2 = self.acc.get(at + 2) as u32;
        let b3 = self.acc.get(at + 3) as u32;
        b0 + 0x100 * b1 + 0x1_0000 * b2 + 0x100_0000 * b3
    }

    /// Deliver the next slice of the byte stream. The slice is appended to
    /// the buffer and every record that became complete is framed: the
    /// one-time directory record is consumed and discarded, and each chunk
    /// record is validated and its payload enqueued. Returns the framing
    /// error exactly when the record at the front of the buffer is complete
    /// and corrupt; the session then makes no further progress.
    pub fn handle_data(&mut self, bytes: &[u8]) -> (r: Result<(), FramingError>)
        requires
            old(self).wf(),
            old(self).total() + bytes@.len() <= u64::MAX,
            old(self)@.buffered.len() + bytes@.len() <= usize::MAX,
        ensures
            final(self).wf(),
            final(self)@ == old(self)@.ingest(bytes@),
            final(self).total() == old(self).total() + bytes@.len(),
            final(self)@.corrupt() ==> r == Err::<(), FramingError>(
                corrupt_error(final(self)@, final(self).total()),
            ),
            !final(self)@.corrupt() ==> r == Ok::<(), FramingError>(()),
    {
        self.total_received = self.total_received + bytes.len() as u64;
        self.acc.append(bytes);
        let ghost start: IngestState = old(self)@.with_bytes(bytes@);
        proof {
            assert(self@ =~= start);
        }
        loop
            invariant
                start == old(self)@.with_bytes(bytes@),
                self@.drain() == start.drain(),
                self.total() == old(self).total() + bytes@.len(),
                self@.buffered.len() <= self.total(),
                forall|i: int|
                    0 <= i < self@.pending.len() ==> (#[trigger] self@.pending[i]).len()
                        == CHUNK_PAYLOAD_SIZE,
            decreases self@.buffered.len(),
        {
            let ghost prev: IngestState = self@;
            if !self.directory_loaded {
                if self.acc.length() >= DIRECTORY_SIZE {
                    let _directory = self.acc.split_front(DIRECTORY_SIZE);
                    self.directory_loaded = true;
                    proof {
                        assert(self@ =~= prev.take_directory());
                    }
                } else {
                    proof {
                        assert(self@.drained());
                        assert(self@.drain() == self@);
                    }
                    return Ok(());
                }
            } else {
                let buffered = self.acc.length();
                if buffered >= CHUNK_SIZE {
                    let found_a = self.read_word(0);
                    let found_b = self.read_word(4);
                    if found_a == MAGIC_WORD_A && found_b == MAGIC_WORD_B {
                        let _header = self.acc.split_front(CHUNK_HEADER_SIZE);
                        let payload = self.acc.split_front(CHUNK_PAYLOAD_SIZE);
                        proof {
                            assert(payload@ =~= prev.buffered.subrange(
                                CHUNK_HEADER_SIZE as int,
                                CHUNK_SIZE as int,
                            ));
                            assert(self.acc@ =~= prev.buffered.skip(CHUNK_SIZE as int));
                        }
                        self.pending.push(payload);
                        proof {
                            assert(self@.pending =~= prev.pending.push(payload@));
                            assert(self@ =~= prev.take_chunk());
                        }
                    } else {
                        let err = FramingError {
                            offset: self.total_received - buffered as u64,
                            found_a,
                            found_b,
                        };
                        proof {
                            assert(self@.corrupt());
                            assert(self@.drain() == self@);
                            assert(err == corrupt_error(self@, self.total()));
                        }
                        return Err(err);
                    }
                } else {
                    proof {
                        assert(self@.drained());
                        assert(self@.drain() == self@);
                    }
                    return Ok(());
                }
            }
        }
    }

    /// Drain all pending validated payloads, in FIFO order, into `world`:
    /// each payload decodes to one chunk appended at the end of the world's
    /// sequence. A no-op when no payloads are pending.
    pub fn to_world(&mut self, world: &mut World)
        requires
            old(self).wf(),
            old(world).wf(),
        ensures
            final(self).wf(),
            final(world).wf(),
            final(world)@ == old(world)@ + decoded_chunks(old(self)@.pending),
            final(self)@.pending == Seq::<Seq<u8>>::empty(),
            final(self)@.directory_loaded == old(self)@.directory_loaded,
            final(self)@.buffered == old(self)@.buffered,
            final(self).total() == old(self).total(),
    {
        let n = self.pending.len();
        let mut k: usize = 0;
        while k < n
            invariant
                k <= n,
                self == old(self),
                n == self@.pending.len(),
                old(self).wf(),
                world.wf(),
                world@ == old(world)@ + decoded_chunks(self@.pending.take(k as int)),
            decreases n - k,
        {
            proof {
                assert(self@.pending[k as int] == self.pending@[k as int]@);
            }
            let c = Chunk::from_payload(&self.pending[k]);
            world.push_chunk(c);
            k = k + 1;
            proof {
                assert(world@ =~= old(world)@ + decoded_chunks(self@.pending.take(k as int)));
            }
        }
        proof {
            assert(self@.pending.take(n as int) =~= self@.pending);
        }
        self.pending = Vec::new();
        proof {
            assert(self@.pending =~= Seq::<Seq<u8>>::empty());
            assert(self@.drained());
        }
    }
}

} // verus!
