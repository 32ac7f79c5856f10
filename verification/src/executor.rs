//! Executor: the one component that turns a resolved `SoundId` into playback.
use crate::audio::{AudioEngine, EngineCall};
use crate::domain::SoundId;
use vstd::prelude::*;

verus! {

/// Plays sounds through the audio engine it owns.
pub struct Executor<E: AudioEngine> {
    engine: E,
}

impl<E: AudioEngine> Executor<E> {
    /// The engine this executor plays through.
    pub closed spec fn engine(&self) -> E {
        self.engine
    }

    pub fn new(engine: E) -> (r: Executor<E>)
        ensures
            r.engine() == engine,
    {
        Executor { engine }
    }

    /// Play the sound bound to `id`: the engine receives exactly one call,
    /// `play(id)`; the engine handles a missing id as a no-op.
    pub fn play(&mut self, id: SoundId)
        ensures
            final(self).engine().records_calls() == old(self).engine().records_calls(),
            old(self).engine().records_calls() ==> final(self).engine().calls() == old(
                self,
            ).engine().calls().push(EngineCall::Play(id)),
    {
        self.engine.play(id);
    }
}

} // verus!
