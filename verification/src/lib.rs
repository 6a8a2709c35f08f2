//! Incremental decoder for a binary voxel chunk stream.
//!
//! The host delivers an arbitrarily fragmented byte stream; the decoder
//! reassembles it into fixed-size records (a one-time directory record
//! followed by chunk records), validates each chunk record's framing header,
//! and converts the validated payloads into an in-memory world of chunks.

use vstd::prelude::*;

pub mod accumulator;
pub mod codec;
pub mod laws;
pub mod reader;
pub mod viewport;
pub mod world;

verus! {

/// Host-facing handle that owns the decoded world for one session.
pub struct Model {
    world: world::World,
}

impl Model {
    /// The chunks decoded into the model's world.
    pub closed spec fn world_view(&self) -> Seq<Seq<u32>> {
        self.world@
    }

    /// A fresh model with an empty world.
    pub fn init() -> (m: Model)
        ensures
            m.world_view() == Seq::<Seq<u32>>::empty(),
    {
        Model { world: world::World::init() }
    }

    /// Advance one host tick; the model does not change without new data.
    pub fn update(&mut self)
        ensures
            *final(self) == *old(self),
    {
    }

    /// Borrow the decoded world.
    pub fn world(&self) -> (w: &world::World)
        ensures
            w@ == self.world_view(),
    {
        &self.world
    }
}

} // verus!
