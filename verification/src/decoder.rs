//! The capability contract a codec backend must satisfy to serve reads.

use vstd::prelude::*;

use crate::block::{min_frame, sig_channels, sig_frames, signal_wf, sample_at, DataBlock};
use crate::sample::Sample;

verus! {

/// The precision a consumer asks of a seek. A backend may only be able to
/// reposition to a nearby earlier frame; with `Accurate` it must absorb
/// the difference internally so that the next decode starts exactly at the
/// requested frame, with `Nearest` it may do the cheapest repositioning
/// it can. Either way the frames a backend reports as decoded must match
/// the frames it hands out.
#[derive(Clone, Copy, Debug, PartialEq, Eq, Structural)]
pub enum SeekMode {
    /// The next decode must begin exactly at the requested frame.
    Accurate,
    /// The backend may choose the nearest position it can seek to cheaply.
    Nearest,
}

/// A decoding backend: the engine's sole window onto the file.
///
/// A decoder stands for a fixed signal (`signal`) and a playhead
/// (`playhead`): the frame its next decode will produce. `decode` fills a
/// whole block from the playhead onward, padding with silence past the end
/// of the file and clamping the playhead there; `seek` repositions the
/// playhead. Transient per-packet trouble is the backend's own business
/// and must be absorbed internally; only unrecoverable faults surface, as
/// `Err`, after which the stream that owns the decoder shuts down.
pub trait Decoder: Sized {
    /// The sample type the decoder produces.
    type T: Sample;

    /// Additional info the backend attaches to `FileInfo`.
    type FileParams;

    /// The backend's unrecoverable mid-stream error.
    type FatalError;

    /// The decoded signal this decoder yields, one sequence per channel.
    /// The default says nothing: a backend outside the verified world
    /// may leave it be, and nothing is then known of what it decodes.
    open spec fn signal(&self) -> Seq<Seq<Self::T>> {
        Seq::empty()
    }

    /// The frame index the next decode will produce.
    open spec fn playhead(&self) -> nat {
        0
    }

    /// Backend-internal well-formedness. The default is `false`: a
    /// backend that does not say what it maintains promises nothing.
    open spec fn inv(&self) -> bool {
        false
    }

    /// Repositions the playhead to `frame`, clamped to the end of the
    /// file. An implementation whose container can only land on an
    /// earlier frame must remember the difference and skip that many
    /// frames in subsequent decodes before exposing output.
    fn seek(&mut self, frame: usize, mode: SeekMode) -> (r: Result<(), Self::FatalError>)
        requires
            old(self).inv(),
            signal_wf(old(self).signal()),
        ensures
            final(self).signal() == old(self).signal(),
            r is Ok ==> {
                &&& final(self).inv()
                &&& final(self).playhead() == min_frame(
                    frame as int,
                    sig_frames(old(self).signal()) as int,
                )
            },
    ;

    /// Fills every channel of `block` with the frames starting at the
    /// playhead, silence past the end of the file, and advances the
    /// playhead by the block length, clamped to the end of the file.
    /// The block's tags and shape are left for the caller to manage.
    fn decode(&mut self, block: &mut DataBlock<Self::T>) -> (r: Result<(), Self::FatalError>)
        requires
            old(self).inv(),
            signal_wf(old(self).signal()),
            sig_channels(old(self).signal()) >= 1,
            old(self).playhead() <= sig_frames(old(self).signal()),
            old(block).channels@.len() == sig_channels(old(self).signal()),
            forall|c: int|
                0 <= c < old(block).channels@.len() ==> (#[trigger] old(block).channels@[c]).len()
                    == old(block).channels@[0].len(),
        ensures
            final(self).signal() == old(self).signal(),
            final(block).start_frame == old(block).start_frame,
            final(block).end_of_file == old(block).end_of_file,
            final(block).channels@.len() == old(block).channels@.len(),
            forall|c: int|
                0 <= c < final(block).channels@.len() ==> (#[trigger] final(block).channels@[c]).len()
                    == old(block).channels@[c].len(),
            r is Ok ==> {
                &&& final(self).inv()
                &&& final(self).playhead() == min_frame(
                    old(self).playhead() + old(block).channels@[0].len(),
                    sig_frames(old(self).signal()) as int,
                )
                &&& forall|c: int, i: int|
                    0 <= c < old(block).channels@.len() && 0 <= i < old(block).channels@[0].len()
                        ==> final(block).frames()[c][i] == sample_at(
                        old(self).signal(),
                        c,
                        old(self).playhead() + i,
                    )
            },
    ;

    /// The frame index the next decode will produce.
    fn playhead_frame(&self) -> (r: usize)
        requires
            self.inv(),
        ensures
            r as nat == self.playhead(),
    ;
}

} // verus!
