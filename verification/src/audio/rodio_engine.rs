//! The decisions of the playback engine that do not touch the audio device.
use vstd::prelude::*;

verus! {

/// Errors from opening the output or having nothing to play.
///
/// Per-file decode failures are not errors: they leave that slot empty.
#[derive(Debug)]
pub enum AudioError {
    /// The output could not be opened; the message says why.
    Rodio(String),
    /// No slot holds a decoded sound.
    NoSounds,
}

/// An engine is only worth opening when at least one slot decoded:
/// `Err(NoSounds)` exactly when every slot is empty.
pub fn require_sounds(decoded: &Vec<bool>) -> (r: Result<(), AudioError>)
    ensures
        r is Ok <==> exists|i: int| 0 <= i < decoded@.len() && decoded@[i],
        r matches Err(e) ==> e is NoSounds,
{
    let mut i: usize = 0;
    while i < decoded.len()
        invariant
            i <= decoded@.len(),
            forall|j: int| 0 <= j < i ==> !decoded@[j],
        decreases decoded@.len() - i,
    {
        if decoded[i] {
            return Ok(());
        }
        i = i + 1;
    }
    Err(AudioError::NoSounds)
}

} // verus!
