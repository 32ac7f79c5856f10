//! Audio: the engine seam the executor plays through.
//!
//! `AudioEngine` is a trait so the playback backend is swappable without
//! touching the pipeline. Each engine keeps, in specification, the sequence of
//! calls it has received; that is how the library states which sounds reach
//! the engine and in what order.
use crate::domain::SoundId;
use vstd::prelude::*;

pub mod rodio_engine;

verus! {

/// One call received by an engine.
#[derive(Debug, Clone, Copy, PartialEq, Eq, Structural)]
pub enum EngineCall {
    Play(SoundId),
    Stop,
}

/// A swappable audio backend.
///
/// The engine's specification follows the calls it receives: when
/// `records_calls()` holds, `calls()` is the sequence of `play` and `stop`
/// calls the engine has received, oldest first, and each method appends its
/// own call and nothing else. An engine that does not define the model (the
/// default) promises nothing.
pub trait AudioEngine: Send + Sync {
    /// This engine keeps the call model below.
    closed spec fn records_calls(&self) -> bool {
        false
    }

    /// The calls this engine has received.
    closed spec fn calls(&self) -> Seq<EngineCall> {
        Seq::empty()
    }

    /// Play the sound bound to `id`. No-op if the id is unset or invalid.
    fn play(&mut self, id: SoundId)
        ensures
            final(self).records_calls() == old(self).records_calls(),
            old(self).records_calls() ==> final(self).calls() == old(self).calls().push(
                EngineCall::Play(id),
            ),
    ;

    /// Tear down the output. Called on shutdown.
    fn stop(&mut self)
        ensures
            final(self).records_calls() == old(self).records_calls(),
            old(self).records_calls() ==> final(self).calls() == old(self).calls().push(
                EngineCall::Stop,
            ),
    ;
}

/// The calls that play `ids`, in order.
pub open spec fn play_calls(ids: Seq<SoundId>) -> Seq<EngineCall> {
    ids.map_values(|id: SoundId| EngineCall::Play(id))
}

} // verus!
