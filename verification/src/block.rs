//! Fixed-size blocks of per-channel samples, and the mathematical model of
//! a decoded signal.
//!
//! A signal is modelled as a sequence of channels, each channel a sequence
//! of samples of equal length. Reads past the end of the signal see the
//! silence value, which `sample_at` makes precise.

use vstd::prelude::*;

use crate::sample::Sample;

verus! {

/// A signal is well formed when every channel has the same length.
pub open spec fn signal_wf<S>(sig: Seq<Seq<S>>) -> bool {
    forall|c: int| 0 <= c < sig.len() ==> (#[trigger] sig[c]).len() == sig[0].len()
}

/// The number of channels of a signal.
pub open spec fn sig_channels<S>(sig: Seq<Seq<S>>) -> nat {
    sig.len()
}

/// The number of frames of a signal (the common channel length).
pub open spec fn sig_frames<S>(sig: Seq<Seq<S>>) -> nat {
    if sig.len() == 0 {
        0
    } else {
        sig[0].len()
    }
}

/// The smaller of two frame positions.
pub open spec fn min_frame(a: int, b: int) -> int {
    if a <= b {
        a
    } else {
        b
    }
}

/// The sample of channel `c` at frame `f`, silence beyond the end.
pub open spec fn sample_at<S: Sample>(sig: Seq<Seq<S>>, c: int, f: int) -> S {
    if 0 <= f < sig_frames(sig) {
        sig[c][f]
    } else {
        S::silence_spec()
    }
}

/// The span of `n` frames starting at `start`, per channel, with silence
/// past the end of the signal. This is what a consumer sees when it reads.
pub open spec fn read_span<S: Sample>(sig: Seq<Seq<S>>, start: int, n: nat) -> Seq<Seq<S>> {
    Seq::new(sig.len(), |c: int| Seq::new(n, |i: int| sample_at(sig, c, start + i)))
}

/// How many frames the next copy step of a block fill moves: as many
/// as still fit in the destination block and remain in the decoded
/// source buffer, whichever is smaller. A backend walking decoded
/// packets into blocks repeats this step until the block is full.
pub fn copy_extent(dst_len: usize, dst_filled: usize, src_len: usize, src_taken: usize) -> (r:
    usize)
    requires
        dst_filled <= dst_len,
        src_taken <= src_len,
    ensures
        r as int == min_frame((dst_len - dst_filled) as int, (src_len - src_taken) as int),
        dst_filled + r <= dst_len,
        src_taken + r <= src_len,
{
    let fits = dst_len - dst_filled;
    let remains = src_len - src_taken;
    if fits <= remains {
        fits
    } else {
        remains
    }
}

/// A fixed-capacity buffer of decoded samples: the unit of transfer
/// between the codec side and the consumer side.
pub struct DataBlock<S> {
    /// The samples, one equal-length buffer per channel.
    pub channels: Vec<Vec<S>>,
    /// The frame index in the file of the first sample of this block.
    pub start_frame: usize,
    /// Whether this block reaches the last frame of the file.
    pub end_of_file: bool,
}

impl<S: Sample> DataBlock<S> {
    /// The block's contents, one sequence per channel.
    pub open spec fn frames(&self) -> Seq<Seq<S>> {
        self.channels@.map_values(|v: Vec<S>| v@)
    }

    /// The block has `num_channels` buffers of `block_frames` samples each.
    pub open spec fn shape_wf(&self, num_channels: int, block_frames: int) -> bool {
        &&& self.channels@.len() == num_channels
        &&& forall|c: int|
            0 <= c < num_channels ==> (#[trigger] self.channels@[c]).len() == block_frames
    }

    /// A block of silence with the given shape, starting at frame 0.
    pub fn silent(num_channels: usize, block_frames: usize) -> (r: Self)
        ensures
            r.shape_wf(num_channels as int, block_frames as int),
            r.start_frame == 0,
            r.end_of_file == false,
            forall|c: int, i: int|
                0 <= c < num_channels && 0 <= i < block_frames ==> r.frames()[c][i]
                    == S::silence_spec(),
    {
        let mut channels: Vec<Vec<S>> = Vec::new();
        let mut c: usize = 0;
        while c < num_channels
            invariant
                c <= num_channels,
                channels@.len() == c,
                forall|k: int|
                    0 <= k < c ==> (#[trigger] channels@[k]).len() == block_frames,
                forall|k: int, i: int|
                    0 <= k < c && 0 <= i < block_frames ==> channels@[k]@[i] == S::silence_spec(),
            decreases num_channels - c,
        {
            let mut ch: Vec<S> = Vec::new();
            let mut i: usize = 0;
            while i < block_frames
                invariant
                    i <= block_frames,
                    ch@.len() == i,
                    forall|j: int| 0 <= j < i ==> ch@[j] == S::silence_spec(),
                decreases block_frames - i,
            {
                ch.push(S::silence());
                i = i + 1;
            }
            channels.push(ch);
            c = c + 1;
        }
        DataBlock { channels, start_frame: 0, end_of_file: false }
    }
}

} // verus!
