use vstd::prelude::*;
use crate::codec::{
    decoded_chunks, header_ok, CHUNK_HEADER_SIZE, CHUNK_SIZE, DIRECTORY_SIZE,
};
use crate::reader::{corrupt_error, IngestState};

verus! {

/// The bytes of a sequence of deliveries, concatenated in delivery order.
pub open spec fn concat_frags(frags: Seq<Seq<u8>>) -> Seq<u8>
    decreases frags.len(),
{
    if frags.len() == 0 {
        Seq::empty()
    } else {
        frags.first() + concat_frags(frags.drop_first())
    }
}

/// The state reached by delivering each fragment in turn.
pub open spec fn ingest_all(s: IngestState, frags: Seq<Seq<u8>>) -> IngestState
    decreases frags.len(),
{
    if frags.len() == 0 {
        s
    } else {
        ingest_all(s.ingest(frags.first()), frags.drop_first())
    }
}

/// After draining, no further record can be framed.
pub proof fn lemma_drain_drained(s: IngestState)
    ensures
        s.drain().drained(),
    decreases s.buffered.len(),
{
    if s.directory_ready() {
        lemma_drain_drained(s.take_directory());
    } else if s.chunk_ready() {
        lemma_drain_drained(s.take_chunk());
    }
}

/// Draining commutes with appending bytes: bytes that arrive after a state
/// has been drained frame the same records as if they had been buffered all
/// along.
pub proof fn lemma_drain_extend(s: IngestState, ext: Seq<u8>)
    ensures
        s.drain().with_bytes(ext).drain() == s.with_bytes(ext).drain(),
    decreases s.buffered.len(),
{
    if s.directory_ready() {
        let t = s.take_directory();
        assert(s.with_bytes(ext).directory_ready());
        assert(s.with_bytes(ext).take_directory() =~= t.with_bytes(ext));
        lemma_drain_extend(t, ext);
    } else if s.chunk_ready() {
        let t = s.take_chunk();
        assert(forall|i: int|
            0 <= i < CHUNK_SIZE ==> s.with_bytes(ext).buffered[i] == s.buffered[i]);
        assert(s.with_bytes(ext).chunk_ready());
        assert(s.with_bytes(ext).buffered.subrange(CHUNK_HEADER_SIZE as int, CHUNK_SIZE as int)
            =~= s.buffered.subrange(CHUNK_HEADER_SIZE as int, CHUNK_SIZE as int));
        assert(s.with_bytes(ext).take_chunk() =~= t.with_bytes(ext));
        lemma_drain_extend(t, ext);
    } else {
        assert(s.drain() == s);
    }
}

/// Fragmentation invariance for a pair of deliveries: two `handle_data`
/// calls reach the same state as one call with the two slices concatenated.
pub proof fn lemma_ingest_split(s: IngestState, a: Seq<u8>, b: Seq<u8>)
    ensures
        s.ingest(a).ingest(b) == s.ingest(a + b),
{
    lemma_drain_extend(s.with_bytes(a), b);
    assert(s.with_bytes(a).with_bytes(b) =~= s.with_bytes(a + b));
}

/// A sequence of deliveries reaches the same state as one delivery of all
/// their bytes, from any state that has been drained.
pub proof fn lemma_ingest_all_concat(s: IngestState, frags: Seq<Seq<u8>>)
    requires
        s.drained(),
    ensures
        ingest_all(s, frags) == s.ingest(concat_frags(frags)),
    decreases frags.len(),
{
    if frags.len() == 0 {
        assert(s.with_bytes(Seq::empty()) =~= s);
    } else {
        let first = frags.first();
        let rest = frags.drop_first();
        lemma_drain_drained(s.with_bytes(first));
        lemma_ingest_all_concat(s.ingest(first), rest);
        lemma_ingest_split(s, first, concat_frags(rest));
    }
}

/// Fragmentation invariance: two sequences of deliveries whose concatenated
/// bytes are equal leave a fresh reader in the same state — the same mode
/// flag, the same unframed bytes, and the same decoded chunks — however the
/// stream was split across calls.
pub proof fn lemma_fragmentation_invariance(frags1: Seq<Seq<u8>>, frags2: Seq<Seq<u8>>)
    requires
        concat_frags(frags1) == concat_frags(frags2),
    ensures
        ingest_all(IngestState::initial(), frags1) == ingest_all(IngestState::initial(), frags2),
        decoded_chunks(ingest_all(IngestState::initial(), frags1).pending) == decoded_chunks(
            ingest_all(IngestState::initial(), frags2).pending,
        ),
{
    lemma_ingest_all_concat(IngestState::initial(), frags1);
    lemma_ingest_all_concat(IngestState::initial(), frags2);
}

/// Draining only appends to the pending queue: payloads already validated
/// stay, in place, in front of the newly framed ones.
pub proof fn lemma_drain_appends_pending(s: IngestState)
    ensures
        s.drain().pending.len() >= s.pending.len(),
        forall|i: int| 0 <= i < s.pending.len() ==> s.drain().pending[i] == s.pending[i],
    decreases s.buffered.len(),
{
    if s.directory_ready() {
        lemma_drain_appends_pending(s.take_directory());
    } else if s.chunk_ready() {
        let t = s.take_chunk();
        lemma_drain_appends_pending(t);
        assert(forall|i: int| 0 <= i < s.pending.len() ==> t.pending[i] == s.pending[i]);
    }
}

/// A delivery never reorders or discards validated payloads: the pending
/// queue before the call is a prefix of the pending queue after it, so
/// chunks reach the world in arrival order.
pub proof fn lemma_ingest_appends_pending(s: IngestState, bytes: Seq<u8>)
    ensures
        s.pending.is_prefix_of(s.ingest(bytes).pending),
{
    lemma_drain_appends_pending(s.with_bytes(bytes));
    assert(s.pending =~~= s.ingest(bytes).pending.take(s.pending.len() as int));
}

/// The mode flag never reverts: once the directory record has been consumed,
/// it stays consumed after any further delivery.
pub proof fn lemma_directory_flag_monotonic(s: IngestState, bytes: Seq<u8>)
    requires
        s.directory_loaded,
    ensures
        s.ingest(bytes).directory_loaded,
{
    lemma_drain_keeps_flag(s.with_bytes(bytes));
}

/// Draining never clears the mode flag.
pub proof fn lemma_drain_keeps_flag(s: IngestState)
    requires
        s.directory_loaded,
    ensures
        s.drain().directory_loaded,
    decreases s.buffered.len(),
{
    if s.chunk_ready() {
        lemma_drain_keeps_flag(s.take_chunk());
    }
}

/// Directory bytes are consumed exactly once: as soon as the total bytes
/// delivered to a fresh reader reach `DIRECTORY_SIZE`, the mode flag is true,
/// however the stream was fragmented.
pub proof fn lemma_directory_consumed(frags: Seq<Seq<u8>>)
    requires
        concat_frags(frags).len() >= DIRECTORY_SIZE,
    ensures
        ingest_all(IngestState::initial(), frags).directory_loaded,
{
    let init = IngestState::initial();
    let all = concat_frags(frags);
    lemma_ingest_all_concat(init, frags);
    let full = init.with_bytes(all);
    assert(full.buffered =~= all);
    assert(full.directory_ready());
    lemma_drain_keeps_flag(full.take_directory());
}

/// A chunk record whose header holds the magic words is accepted: delivered
/// to a reader that is past the directory and holds no unframed bytes, its
/// payload is enqueued at the end of the pending queue and the record's
/// bytes are fully consumed.
pub proof fn lemma_chunk_accepted(s: IngestState, rec: Seq<u8>)
    requires
        s.directory_loaded,
        s.buffered.len() == 0,
        rec.len() == CHUNK_SIZE,
        header_ok(rec),
    ensures
        s.ingest(rec) == (IngestState {
            directory_loaded: true,
            buffered: Seq::empty(),
            pending: s.pending.push(rec.subrange(CHUNK_HEADER_SIZE as int, CHUNK_SIZE as int)),
        }),
        !s.ingest(rec).corrupt(),
{
    let full = s.with_bytes(rec);
    assert(full.buffered =~= rec);
    assert(full.chunk_ready());
    let t = full.take_chunk();
    assert(t.buffered =~= Seq::<u8>::empty());
    assert(t.drained());
    assert(t.drain() == t);
    assert(t.pending =~~= s.pending.push(
        rec.subrange(CHUNK_HEADER_SIZE as int, CHUNK_SIZE as int),
    ));
}

/// A chunk record whose header does not hold the magic words is rejected:
/// nothing is enqueued, the record is not consumed, and the state is
/// corrupt, so `handle_data` reports a framing error.
pub proof fn lemma_chunk_rejected(s: IngestState, rec: Seq<u8>)
    requires
        s.directory_loaded,
        s.buffered.len() == 0,
        rec.len() == CHUNK_SIZE,
        !header_ok(rec),
    ensures
        s.ingest(rec).pending == s.pending,
        s.ingest(rec).buffered == rec,
        s.ingest(rec).corrupt(),
{
    let full = s.with_bytes(rec);
    assert(full.buffered =~= rec);
    assert(full.drained());
    assert(full.drain() == full);
}

/// A corrupt session stays corrupt: there is no resynchronization protocol,
/// so whatever arrives after a record fails validation, nothing further is
/// enqueued and the same framing error is reported, with the same offset and
/// the same words found.
pub proof fn lemma_corrupt_is_sticky(s: IngestState, bytes: Seq<u8>, total: u64)
    requires
        s.corrupt(),
        s.buffered.len() <= total,
        total + bytes.len() <= u64::MAX,
    ensures
        s.ingest(bytes).corrupt(),
        s.ingest(bytes).pending == s.pending,
        s.ingest(bytes).buffered == s.buffered + bytes,
        corrupt_error(s.ingest(bytes), (total + bytes.len()) as u64) == corrupt_error(s, total),
{
    let full = s.with_bytes(bytes);
    assert(forall|i: int| 0 <= i < CHUNK_SIZE ==> full.buffered[i] == s.buffered[i]);
    assert(full.corrupt());
    assert(full.drained());
    assert(full.drain() == full);
}

/// Converting with an empty pending queue grows the world by nothing: the
/// world after `to_world` equals the world before.
pub proof fn lemma_to_world_empty_identity(world: Seq<Seq<u32>>, pending: Seq<Seq<u8>>)
    requires
        pending.len() == 0,
    ensures
        world + decoded_chunks(pending) == world,
{
    assert(world + decoded_chunks(pending) =~= world);
}

} // verus!
