//! The capability contract a codec backend must satisfy to serve writes.

use vstd::prelude::*;

use crate::sample::Sample;
use crate::write::WriteBlock;

verus! {

/// Per-channel concatenation: what has been written so far, extended by
/// the frames of one more block.
pub open spec fn append_frames<S>(w: Seq<Seq<S>>, b: Seq<Seq<S>>) -> Seq<Seq<S>> {
    Seq::new(w.len(), |c: int| w[c] + b[c])
}

/// An encoding backend: the write engine's sole window onto the file.
///
/// An encoder stands for the frames it has persisted so far (`written`,
/// one sequence per channel, one entry of `written` per channel even
/// before anything was written). `encode` appends one block of frames;
/// `finalize` flushes and closes, exactly once. Only unrecoverable
/// faults surface, as `Err`, after which the stream that owns the
/// encoder shuts down.
pub trait Encoder: Sized {
    /// The sample type the encoder accepts.
    type T: Sample;

    /// The backend's unrecoverable mid-stream error.
    type FatalError;

    /// The frames persisted so far, one sequence per channel.
    spec fn written(&self) -> Seq<Seq<Self::T>>;

    /// Whether `finalize` has been called.
    spec fn finalized(&self) -> bool;

    /// Backend-internal well-formedness.
    spec fn inv(&self) -> bool;

    /// Appends the frames of `block` — whose channels must match the
    /// file's and be of equal length — to the persisted signal.
    fn encode(&mut self, block: &WriteBlock<Self::T>) -> (r: Result<(), Self::FatalError>)
        requires
            old(self).inv(),
            !old(self).finalized(),
            block.channels@.len() == old(self).written().len(),
            forall|c: int|
                0 <= c < block.channels@.len() ==> (#[trigger] block.channels@[c]).len()
                    == block.channels@[0].len(),
        ensures
            final(self).finalized() == old(self).finalized(),
            final(self).written().len() == old(self).written().len(),
            r is Ok ==> {
                &&& final(self).inv()
                &&& final(self).written() == append_frames(old(self).written(), block.frames())
            },
    ;

    /// Flushes and closes the file. Called exactly once, also on
    /// teardown after a fault.
    fn finalize(&mut self) -> (r: Result<(), Self::FatalError>)
        requires
            old(self).inv(),
            !old(self).finalized(),
        ensures
            final(self).finalized(),
            final(self).written().len() == old(self).written().len(),
            r is Ok ==> {
                &&& final(self).inv()
                &&& final(self).written() == old(self).written()
            },
    ;
}

} // verus!
