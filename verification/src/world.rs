use vstd::prelude::*;
use crate::codec::{payload_blocks, BLOCKS_PER_CHUNK, CHUNK_PAYLOAD_SIZE};

verus! {

/// One decoded cube of the world: a fixed-size flat array of block
/// identifiers. Immutable once created.
pub struct Chunk {
    blocks: Vec<u32>,
}

impl View for Chunk {
    type V = Seq<u32>;

    closed spec fn view(&self) -> Seq<u32> {
        self.blocks@
    }
}

impl Chunk {
    /// A chunk always holds exactly `BLOCKS_PER_CHUNK` block identifiers.
    pub open spec fn wf(&self) -> bool {
        self@.len() == BLOCKS_PER_CHUNK
    }

    /// Decode a validated chunk record payload into a chunk: the first
    /// `BLOCK_ARRAY_SIZE` payload bytes are read as little-endian 32-bit
    /// block identifiers; the trailing reserved bytes are ignored.
    pub fn from_payload(payload: &Vec<u8>) -> (c: Chunk)
        requires
            payload@.len() == CHUNK_PAYLOAD_SIZE,
        ensures
            c@ == payload_blocks(payload@),
            c.wf(),
    {
        let mut blocks: Vec<u32> = Vec::new();
        let mut i: usize = 0;
        while i < BLOCKS_PER_CHUNK
            invariant
                i <= BLOCKS_PER_CHUNK,
                payload@.len() == CHUNK_PAYLOAD_SIZE,
                blocks@.len() == i,
                forall|j: int| 0 <= j < i ==> blocks@[j] == payload_blocks(payload@)[j],
            decreases BLOCKS_PER_CHUNK - i,
        {
            let base = 4 * i;
            let b0 = payload[base] as u32;
            let b1 = payload[base + 1] as u32;
            let b2 = payload[base + 2] as u32;
            let b3 = payload[base + 3] as u32;
            let word = b0 + 0x100 * b1 + 0x1_0000 * b2 + 0x100_0000 * b3;
            blocks.push(word);
            i = i + 1;
        }
        let c = Chunk { blocks };
        proof {
            assert(c@ =~= payload_blocks(payload@));
        }
        c
    }

    /// Number of block identifiers in the chunk.
    pub fn len(&self) -> (n: usize)
        ensures
            n == self@.len(),
    {
        self.blocks.len()
    }

    /// The block identifier at position `i`.
    pub fn block(&self, i: usize) -> (b: u32)
        requires
            i < self@.len(),
        ensures
            b == self@[i as int],
    {
        self.blocks[i]
    }
}

/// The decoded destination: an ordered sequence of chunks, insertion order
/// equal to decode order. Chunks are only ever appended, never removed.
pub struct World {
    chunks: Vec<Chunk>,
}

impl View for World {
    type V = Seq<Seq<u32>>;

    closed spec fn view(&self) -> Seq<Seq<u32>> {
        self.chunks@.map_values(|c: Chunk| c@)
    }
}

impl World {
    /// Every chunk of a well-formed world holds exactly `BLOCKS_PER_CHUNK`
    /// block identifiers.
    pub open spec fn wf(&self) -> bool {
        forall|i: int| 0 <= i < self@.len() ==> (#[trigger] self@[i]).len() == BLOCKS_PER_CHUNK
    }

    /// A fresh, empty world.
    pub fn init() -> (w: World)
        ensures
            w@ == Seq::<Seq<u32>>::empty(),
            w.wf(),
    {
        let w = World { chunks: Vec::new() };
        proof {
            assert(w@ =~= Seq::<Seq<u32>>::empty());
        }
        w
    }

    /// Append a decoded chunk at the end of the world's sequence.
    pub(crate) fn push_chunk(&mut self, c: Chunk)
        ensures
            final(self)@ == old(self)@.push(c@),
    {
        self.chunks.push(c);
        proof {
            assert(self@ =~= old(self)@.push(c@));
        }
    }

    /// Number of chunks decoded into the world so far.
    pub fn num_chunks(&self) -> (n: usize)
        ensures
            n == self@.len(),
    {
        self.chunks.len()
    }

    /// The chunk at position `i` in decode order.
    pub fn chunk(&self, i: usize) -> (c: &Chunk)
        requires
            i < self@.len(),
        ensures
            c@ == self@[i as int],
    {
        &self.chunks[i]
    }
}

} // verus!
