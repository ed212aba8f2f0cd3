//! An in-memory codec backend: a decoder over a signal held in memory,
//! with controllable seek inaccuracy and fault injection, and the
//! matching encoder that collects what is written. The pair drives the
//! engine in tests and closes the loop for round trips.

use vstd::prelude::*;

use crate::block::{min_frame, signal_wf, DataBlock};
use crate::decoder::{Decoder, SeekMode};
use crate::delta::DeltaAbsorber;
use crate::encoder::{append_frames, Encoder};
use crate::sample::Sample;
use crate::write::WriteBlock;

verus! {

/// The injected unrecoverable fault of the in-memory backend.
#[derive(Clone, Copy, Debug, PartialEq, Eq, Structural)]
pub struct MemoryFault;

/// A decoder whose whole signal sits in memory.
///
/// Its container can only land on frames that are multiples of
/// `seek_step`, and it decodes in packets of `packet_frames` frames, so
/// an inaccurate seek leaves a delta that decoding absorbs packet by
/// packet before exposing output — exactly what a real container-backed
/// decoder has to do. `fail_seeks` / `fail_decodes` make the respective
/// operation report a fault, for exercising the engine's error paths.
pub struct MemoryDecoder<S: Sample> {
    frames: Vec<Vec<S>>,
    num_frames: usize,
    playhead: usize,
    base_frame: usize,
    seek_step: usize,
    packet_frames: usize,
    /// When true, every seek reports a fault.
    pub fail_seeks: bool,
    /// When true, every decode reports a fault.
    pub fail_decodes: bool,
}

impl<S: Sample> MemoryDecoder<S> {
    /// Whether every seek is made to report a fault.
    pub closed spec fn fail_seeks_spec(&self) -> bool {
        self.fail_seeks
    }

    /// Whether every decode is made to report a fault.
    pub closed spec fn fail_decodes_spec(&self) -> bool {
        self.fail_decodes
    }

    /// Builds a decoder over `frames` (one buffer per channel, all of
    /// equal length), positioned at `start_frame` (clamped), landing
    /// seeks only on multiples of `seek_step` and decoding in packets of
    /// `packet_frames`.
    pub fn new(frames: Vec<Vec<S>>, start_frame: usize, seek_step: usize, packet_frames: usize)
        -> (r: Self)
        requires
            frames@.len() >= 1,
            signal_wf(frames@.map_values(|v: Vec<S>| v@)),
            seek_step >= 1,
            packet_frames >= 1,
        ensures
            r.inv(),
            r.signal() == frames@.map_values(|v: Vec<S>| v@),
            r.playhead() == min_frame(start_frame as int, frames@[0].len() as int),
            !r.fail_seeks_spec(),
            !r.fail_decodes_spec(),
    {
        let num_frames = frames[0].len();
        let playhead = if start_frame >= num_frames {
            num_frames
        } else {
            start_frame
        };
        MemoryDecoder {
            frames,
            num_frames,
            playhead,
            base_frame: playhead,
            seek_step,
            packet_frames,
            fail_seeks: false,
            fail_decodes: false,
        }
    }
}

impl<S: Sample> Decoder for MemoryDecoder<S> {
    type T = S;

    type FileParams = ();

    type FatalError = MemoryFault;

    closed spec fn signal(&self) -> Seq<Seq<S>> {
        self.frames@.map_values(|v: Vec<S>| v@)
    }

    closed spec fn playhead(&self) -> nat {
        self.playhead as nat
    }

    closed spec fn inv(&self) -> bool {
        &&& self.frames@.len() >= 1
        &&& signal_wf(self.signal())
        &&& self.num_frames == self.frames@[0].len()
        &&& self.playhead <= self.num_frames
        &&& self.base_frame <= self.playhead
        &&& self.seek_step >= 1
        &&& self.packet_frames >= 1
    }

    fn seek(&mut self, frame: usize, mode: SeekMode) -> (r: Result<(), MemoryFault>)
        ensures
            r is Err <==> old(self).fail_seeks_spec(),
            final(self).fail_seeks_spec() == old(self).fail_seeks_spec(),
            final(self).fail_decodes_spec() == old(self).fail_decodes_spec(),
    {
        if self.fail_seeks {
            return Err(MemoryFault);
        }
        let nf = self.num_frames;
        let target = if frame >= nf {
            nf
        } else {
            frame
        };
        // the container lands on the nearest earlier multiple of the
        // step, whatever the requested precision; decoding absorbs the
        // difference either way
        proof {
            lemma_mod_le(target as int, self.seek_step as int);
        }
        let landed = match mode {
            SeekMode::Accurate => target - (target % self.seek_step),
            SeekMode::Nearest => target - (target % self.seek_step),
        };
        self.playhead = target;
        self.base_frame = landed;
        Ok(())
    }

    fn decode(&mut self, block: &mut DataBlock<S>) -> (r: Result<(), MemoryFault>)
        ensures
            r is Err <==> old(self).fail_decodes_spec(),
            final(self).fail_seeks_spec() == old(self).fail_seeks_spec(),
            final(self).fail_decodes_spec() == old(self).fail_decodes_spec(),
    {
        if self.fail_decodes {
            return Err(MemoryFault);
        }
        let ghost sig = self.signal();
        let nf = self.num_frames;
        let block_frames = block.channels[0].len();
        let nc = self.frames.len();
        // absorb any pending seek delta packet by packet, as a container
        // would: whole packets are skipped until one straddles the target
        let mut pos = self.base_frame;
        let mut absorber = DeltaAbsorber::new(self.playhead, self.base_frame);
        while absorber.remaining() >= self.packet_frames
            invariant
                self.packet_frames >= 1,
                pos + absorber.remaining_spec() == self.playhead,
            decreases absorber.remaining_spec(),
        {
            match absorber.on_packet(self.packet_frames) {
                None => {
                    pos = pos + self.packet_frames;
                },
                Some(_) => {
                    proof {
                        assert(false);
                    }
                },
            }
        }
        let start = match absorber.on_packet(self.packet_frames) {
            Some(offset) => pos + offset,
            None => {
                proof {
                    assert(false);
                }
                pos
            },
        };
        assert(start == self.playhead);
        copy_span_into(&self.frames, block, start, nf);
        // the container now stands exactly where output stopped
        let advanced = if block_frames >= nf - start {
            nf
        } else {
            start + block_frames
        };
        self.playhead = advanced;
        self.base_frame = advanced;
        Ok(())
    }

    fn playhead_frame(&self) -> usize {
        self.playhead
    }
}

/// Fills every channel of `block` with the frames of `frames` starting
/// at `start`, silence from `nf` on.
fn copy_span_into<S: Sample>(frames: &Vec<Vec<S>>, block: &mut DataBlock<S>, start: usize, nf: usize)
    requires
        frames@.len() >= 1,
        signal_wf(frames@.map_values(|v: Vec<S>| v@)),
        nf == frames@[0].len(),
        start <= nf,
        old(block).channels@.len() == frames@.len(),
        forall|c: int|
            0 <= c < old(block).channels@.len() ==> (#[trigger] old(block).channels@[c]).len()
                == old(block).channels@[0].len(),
    ensures
        final(block).start_frame == old(block).start_frame,
        final(block).end_of_file == old(block).end_of_file,
        final(block).channels@.len() == old(block).channels@.len(),
        forall|c: int|
            0 <= c < final(block).channels@.len() ==> (#[trigger] final(block).channels@[c]).len()
                == old(block).channels@[c].len(),
        forall|c: int, i: int|
            0 <= c < old(block).channels@.len() && 0 <= i < old(block).channels@[0].len()
                ==> final(block).frames()[c][i] == crate::block::sample_at(
                frames@.map_values(|v: Vec<S>| v@),
                c,
                start + i,
            ),
{
    let ghost sig = frames@.map_values(|v: Vec<S>| v@);
    let nc = frames.len();
    let block_frames = block.channels[0].len();
    let mut c: usize = 0;
    while c < nc
        invariant
            frames@.len() == nc,
            signal_wf(sig),
            sig == frames@.map_values(|v: Vec<S>| v@),
            nf == frames@[0].len(),
            start <= nf,
            c <= nc,
            block.start_frame == old(block).start_frame,
            block.end_of_file == old(block).end_of_file,
            block.channels@.len() == old(block).channels@.len(),
            block.channels@.len() == nc,
            forall|k: int|
                0 <= k < block.channels@.len() ==> (#[trigger] block.channels@[k]).len()
                    == block_frames,
            block_frames == old(block).channels@[0].len(),
            forall|k: int, i: int|
                0 <= k < c && 0 <= i < block_frames ==> block.frames()[k][i]
                    == crate::block::sample_at(sig, k, start + i),
        decreases nc - c,
    {
        let ghost btop = *block;
        let mut ch: Vec<S> = Vec::new();
        let mut i: usize = 0;
        while i < block_frames
            invariant
                frames@.len() == nc,
                signal_wf(sig),
                sig == frames@.map_values(|v: Vec<S>| v@),
                nf == frames@[0].len(),
                c < nc,
                start <= nf,
                i <= block_frames,
                ch@.len() == i,
                forall|j: int|
                    0 <= j < i ==> ch@[j] == crate::block::sample_at(sig, c as int, start + j),
            decreases block_frames - i,
        {
            let v: S = if nf - start > i {
                proof {
                    assert(sig[c as int].len() == nf);
                }
                frames[c][start + i]
            } else {
                S::silence()
            };
            ch.push(v);
            i = i + 1;
        }
        let ghost pre_channels = block.channels@;
        block.channels.set(c, ch);
        proof {
            assert forall|k: int, i: int|
                0 <= k < c + 1 && 0 <= i < block_frames implies block.frames()[k][i]
                == crate::block::sample_at(sig, k, start + i) by {
                if k == c {
                    assert(block.channels@[k] == ch);
                    assert(block.frames()[k] == ch@);
                    assert(ch@[i] == crate::block::sample_at(sig, c as int, start + i));
                } else {
                    assert(btop.frames()[k][i] == crate::block::sample_at(sig, k, start + i));
                    assert(btop.frames()[k] == pre_channels[k]@);
                    assert(block.channels@[k] == pre_channels[k]);
                    assert(block.frames()[k] == pre_channels[k]@);
                }
            }
        }
        c = c + 1;
    }
}

/// An encoder that collects everything written into memory, one buffer
/// per channel. Feeding what it collected to a `MemoryDecoder` closes a
/// round trip through the engine. `fail_encodes` / `fail_finalize` make
/// the respective operation report a fault.
pub struct MemoryEncoder<S: Sample> {
    frames: Vec<Vec<S>>,
    finalized: bool,
    /// When true, every encode reports a fault.
    pub fail_encodes: bool,
    /// When true, finalizing reports a fault.
    pub fail_finalize: bool,
}

impl<S: Sample> MemoryEncoder<S> {
    /// Whether every encode is made to report a fault.
    pub closed spec fn fail_encodes_spec(&self) -> bool {
        self.fail_encodes
    }

    /// Whether finalizing is made to report a fault.
    pub closed spec fn fail_finalize_spec(&self) -> bool {
        self.fail_finalize
    }

    /// A fresh encoder for a file of `num_channels` channels.
    pub fn new(num_channels: usize) -> (r: Self)
        requires
            num_channels >= 1,
        ensures
            r.inv(),
            !r.finalized(),
            r.written().len() == num_channels,
            forall|c: int| 0 <= c < num_channels ==> r.written()[c].len() == 0,
            !r.fail_encodes_spec(),
            !r.fail_finalize_spec(),
    {
        let mut frames: Vec<Vec<S>> = Vec::new();
        let mut c: usize = 0;
        while c < num_channels
            invariant
                c <= num_channels,
                frames@.len() == c,
                forall|k: int| 0 <= k < c ==> (#[trigger] frames@[k]).len() == 0,
            decreases num_channels - c,
        {
            frames.push(Vec::new());
            c = c + 1;
        }
        MemoryEncoder { frames, finalized: false, fail_encodes: false, fail_finalize: false }
    }

    /// Hands out the collected frames, one buffer per channel.
    pub fn into_frames(self) -> (r: Vec<Vec<S>>)
        ensures
            r@.map_values(|v: Vec<S>| v@) == self.written(),
    {
        self.frames
    }
}

impl<S: Sample> Encoder for MemoryEncoder<S> {
    type T = S;

    type FatalError = MemoryFault;

    closed spec fn written(&self) -> Seq<Seq<S>> {
        self.frames@.map_values(|v: Vec<S>| v@)
    }

    closed spec fn finalized(&self) -> bool {
        self.finalized
    }

    closed spec fn inv(&self) -> bool {
        self.frames@.len() >= 1
    }

    fn encode(&mut self, block: &WriteBlock<S>) -> (r: Result<(), MemoryFault>)
        ensures
            r is Err <==> old(self).fail_encodes_spec(),
            final(self).fail_encodes_spec() == old(self).fail_encodes_spec(),
            final(self).fail_finalize_spec() == old(self).fail_finalize_spec(),
    {
        if self.fail_encodes {
            return Err(MemoryFault);
        }
        let ghost wpre = self.written();
        let nc = self.frames.len();
        let mut c: usize = 0;
        while c < nc
            invariant
                nc == self.frames@.len(),
                block.channels@.len() == nc,
                c <= nc,
                self.finalized == old(self).finalized,
                self.fail_encodes == old(self).fail_encodes,
                self.fail_finalize == old(self).fail_finalize,
                wpre.len() == nc,
                forall|k: int|
                    c <= k < nc ==> (#[trigger] self.frames@[k])@ == wpre[k],
                forall|k: int|
                    0 <= k < c ==> (#[trigger] self.frames@[k])@ == wpre[k] + block.frames()[k],
            decreases nc - c,
        {
            let mut ch: Vec<S> = Vec::new();
            let ghost target = wpre[c as int] + block.frames()[c as int];
            {
                let src = &self.frames[c];
                let mut i: usize = 0;
                while i < src.len()
                    invariant
                        i <= src@.len(),
                        ch@.len() == i,
                        forall|j: int| 0 <= j < i ==> ch@[j] == src@[j],
                    decreases src@.len() - i,
                {
                    ch.push(src[i]);
                    i = i + 1;
                }
            }
            {
                let add_src = &block.channels[c];
                let ghost base = ch@;
                let mut i: usize = 0;
                while i < add_src.len()
                    invariant
                        i <= add_src@.len(),
                        ch@.len() == base.len() + i,
                        forall|j: int| 0 <= j < base.len() ==> ch@[j] == base[j],
                        forall|j: int| 0 <= j < i ==> ch@[base.len() + j] == add_src@[j],
                    decreases add_src@.len() - i,
                {
                    ch.push(add_src[i]);
                    i = i + 1;
                }
            }
            proof {
                assert(ch@ =~= target);
            }
            let ghost fpre = self.frames@;
            self.frames.set(c, ch);
            proof {
                assert forall|k: int| 0 <= k < nc implies #[trigger] self.frames@[k] == (if k
                    == c {
                    ch
                } else {
                    fpre[k]
                }) by {}
            }
            c = c + 1;
        }
        proof {
            assert(self.written() =~= append_frames(wpre, block.frames()));
        }
        Ok(())
    }

    fn finalize(&mut self) -> (r: Result<(), MemoryFault>)
        ensures
            r is Err <==> old(self).fail_finalize_spec(),
            final(self).fail_encodes_spec() == old(self).fail_encodes_spec(),
            final(self).fail_finalize_spec() == old(self).fail_finalize_spec(),
    {
        self.finalized = true;
        if self.fail_finalize {
            Err(MemoryFault)
        } else {
            Ok(())
        }
    }
}

/// The remainder after division by a positive step is no more than the
/// dividend.
proof fn lemma_mod_le(a: int, b: int)
    by (nonlinear_arith)
    requires
        a >= 0,
        b >= 1,
    ensures
        0 <= a % b <= a,
{
}

} // verus!
