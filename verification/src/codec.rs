use vstd::prelude::*;

verus! {

/// Size in bytes of the one-time directory record that precedes the chunk
/// stream. Its contents are reserved for future chunk-index metadata and are
/// ignored, but the bytes must still be consumed to keep framing aligned.
pub const DIRECTORY_SIZE: usize = 786444;

/// Size in bytes of every chunk record.
pub const CHUNK_SIZE: usize = 263184;

/// Bytes of framing header at the front of every chunk record: two
/// little-endian 32-bit magic words.
pub const CHUNK_HEADER_SIZE: usize = 8;

/// Payload bytes that follow the framing header of a chunk record.
pub const CHUNK_PAYLOAD_SIZE: usize = 263176;

/// Block identifiers held by one decoded chunk.
pub const BLOCKS_PER_CHUNK: usize = 65536;

/// Bytes of the payload that encode block identifiers. The payload is larger
/// than this: its trailing `CHUNK_RESERVED_SIZE` bytes are reserved per-chunk
/// metadata and are ignored by the decoder.
pub const BLOCK_ARRAY_SIZE: usize = 262144;

/// Trailing payload bytes reserved for per-chunk metadata, ignored here.
pub const CHUNK_RESERVED_SIZE: usize = 1032;

/// First magic word required at the front of every chunk record.
pub const MAGIC_WORD_A: u32 = 0xDEAD_BEEF;

/// Second magic word required at the front of every chunk record.
pub const MAGIC_WORD_B: u32 = 0xFFFF_FFFE;

/// The little-endian unsigned 32-bit word spelled by the four bytes of `s`
/// starting at offset `i`.
pub open spec fn le_word_at(s: Seq<u8>, i: int) -> int
    recommends
        0 <= i,
        i + 4 <= s.len(),
{
    s[i] + 0x100 * s[i + 1] + 0x1_0000 * s[i + 2] + 0x100_0000 * s[i + 3]
}

/// A chunk record is well framed when its first eight bytes spell the two
/// magic words, little-endian.
pub open spec fn header_ok(rec: Seq<u8>) -> bool
    recommends
        CHUNK_HEADER_SIZE <= rec.len(),
{
    &&& le_word_at(rec, 0) == MAGIC_WORD_A
    &&& le_word_at(rec, 4) == MAGIC_WORD_B
}

/// The block identifiers encoded by a validated chunk payload: the first
/// `BLOCK_ARRAY_SIZE` bytes, read as `BLOCKS_PER_CHUNK` little-endian 32-bit
/// words. The trailing `CHUNK_RESERVED_SIZE` bytes are reserved metadata.
pub open spec fn payload_blocks(payload: Seq<u8>) -> Seq<u32>
    recommends
        payload.len() == CHUNK_PAYLOAD_SIZE,
{
    Seq::new(BLOCKS_PER_CHUNK as nat, |i: int| le_word_at(payload, 4 * i) as u32)
}

/// The chunks that a queue of pending validated payloads decodes to, in FIFO
/// order.
pub open spec fn decoded_chunks(pending: Seq<Seq<u8>>) -> Seq<Seq<u32>> {
    pending.map_values(|p: Seq<u8>| payload_blocks(p))
}

} // verus!
