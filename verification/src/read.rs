//! The read side of the engine: a stream client backed by a decoder, a
//! bounded look-ahead queue of prefetched blocks, and a bounded cache of
//! recently consumed blocks.
//!
//! `read`, `seek`, `is_ready` and the getters never touch the decoder:
//! they complete in time independent of any decode or I/O latency. All
//! decoding happens in `poll`, the body of the background server loop,
//! which refills the look-ahead queue and handles pending seek requests —
//! serving a seek from the cache when the target lies in the cache window,
//! and only otherwise asking the decoder to reposition.

use vstd::prelude::*;

use crate::block::{
    min_frame, read_span, sample_at, sig_channels, sig_frames, signal_wf, DataBlock,
};
use crate::decoder::{Decoder, SeekMode};
use crate::sample::Sample;
use crate::FileInfo;

verus! {

/// Configuration of a read stream.
#[derive(Clone, Copy, Debug)]
pub struct ReadStreamOptions {
    /// The number of frames in a prefetched block.
    pub block_frames: usize,
    /// How many consumed blocks are retained for backward seeks.
    pub num_cache_blocks: usize,
    /// How many blocks are decoded ahead of the playhead.
    pub num_look_ahead_blocks: usize,
    /// How long the server loop sleeps between polls, in milliseconds.
    pub poll_interval_ms: u64,
}

impl Default for ReadStreamOptions {
    /// A medium block size, no cache, and a short look-ahead.
    fn default() -> (r: Self)
        ensures
            r.block_frames == 16384,
            r.num_cache_blocks == 0,
            r.num_look_ahead_blocks == 8,
            r.poll_interval_ms == 1,
    {
        ReadStreamOptions {
            block_frames: 16384,
            num_cache_blocks: 0,
            num_look_ahead_blocks: 8,
            poll_interval_ms: 1,
        }
    }
}

/// Why a read stream could not be constructed. These are the recoverable,
/// construction-time failures; mid-stream decoder faults surface later
/// through the status of the stream instead.
#[derive(Clone, Copy, Debug, PartialEq, Eq, Structural)]
pub enum OpenError {
    /// `block_frames` was zero.
    BlockFramesZero,
    /// `num_look_ahead_blocks` was zero: nothing could ever be prefetched.
    LookAheadBlocksZero,
    /// The file reports no channels.
    NumChannelsZero,
    /// The file is so long that prefetch positions would not fit in `usize`.
    FileTooLong,
    /// The requested start frame lies beyond the end of the file.
    StartFrameOutOfRange,
}

/// A contiguous span of frames handed to the consumer by `read`.
pub struct ReadData<S> {
    /// The samples, one buffer per channel, silence past the end of the file.
    pub channels: Vec<Vec<S>>,
    /// The frame index of the first returned sample.
    pub start_frame: usize,
    /// Whether the playhead reached the end of the file with this read.
    pub end_of_file: bool,
}

impl<S: Sample> ReadData<S> {
    /// The returned samples, one sequence per channel.
    pub open spec fn frames(&self) -> Seq<Seq<S>> {
        self.channels@.map_values(|v: Vec<S>| v@)
    }
}

/// One retained or prefetched block is well formed for the stream: right
/// shape, truthful end-of-file tag, starting at or before the end of the
/// file, and carrying exactly the signal's frames for its range.
pub(crate) open spec fn block_ok<S: Sample>(
    b: DataBlock<S>,
    sig: Seq<Seq<S>>,
    nc: int,
    bf: int,
) -> bool {
    &&& b.shape_wf(nc, bf)
    &&& b.start_frame <= sig_frames(sig)
    &&& b.end_of_file == (b.start_frame + bf >= sig_frames(sig))
    &&& forall|c: int, i: int|
        0 <= c < nc && 0 <= i < bf ==> b.frames()[c][i] == sample_at(sig, c, b.start_frame + i)
}

/// Every block of the sequence is well formed.
pub(crate) open spec fn blocks_ok<S: Sample>(
    blocks: Seq<DataBlock<S>>,
    sig: Seq<Seq<S>>,
    nc: int,
    bf: int,
) -> bool {
    forall|i: int| 0 <= i < blocks.len() ==> block_ok(#[trigger] blocks[i], sig, nc, bf)
}

/// The blocks are frame-contiguous: block `i` starts `i` blocks after
/// block 0, with no gaps.
pub(crate) open spec fn blocks_indexed<S: Sample>(blocks: Seq<DataBlock<S>>, bf: int) -> bool {
    forall|i: int|
        0 <= i < blocks.len() ==> (#[trigger] blocks[i]).start_frame == blocks[0].start_frame + i
            * bf
}

/// The consumer-facing handle of a read stream.
///
/// The stream owns the decoder, but only `poll` — the server side — ever
/// invokes it. The consumer-side operations work entirely on blocks
/// already decoded into the look-ahead queue.
pub struct ReadDiskStream<D: Decoder> {
    decoder: D,
    info: FileInfo<D::FileParams>,
    num_frames: usize,
    num_channels: usize,
    block_frames: usize,
    cache_blocks: usize,
    look_ahead_blocks: usize,
    poll_interval_ms: u64,
    lookahead: Vec<DataBlock<D::T>>,
    cache: Vec<DataBlock<D::T>>,
    pool: Vec<DataBlock<D::T>>,
    playhead: usize,
    fill_frame: usize,
    pending: Option<SeekMode>,
    error: Option<D::FatalError>,
    codec_seeks: Ghost<nat>,
}

impl<D: Decoder> ReadDiskStream<D> {
    /// The decoded signal the stream serves, one sequence per channel.
    pub closed spec fn model(&self) -> Seq<Seq<D::T>> {
        self.decoder.signal()
    }

    /// The decoder in its current state.
    pub closed spec fn codec(&self) -> D {
        self.decoder
    }

    /// How many times the stream has asked the decoder to seek.
    pub closed spec fn codec_seek_count(&self) -> nat {
        self.codec_seeks@
    }

    /// The next frame the consumer will read.
    pub closed spec fn playhead_spec(&self) -> nat {
        self.playhead as nat
    }

    /// The total number of frames of the file.
    pub closed spec fn num_frames_spec(&self) -> nat {
        self.num_frames as nat
    }

    /// The number of channels of the file.
    pub closed spec fn num_channels_spec(&self) -> nat {
        self.num_channels as nat
    }

    /// The number of frames per prefetched block.
    pub closed spec fn block_frames_spec(&self) -> nat {
        self.block_frames as nat
    }

    /// The info the stream was opened with.
    pub closed spec fn info_spec(&self) -> FileInfo<D::FileParams> {
        self.info
    }

    /// How many blocks the look-ahead queue aims to hold.
    pub closed spec fn look_ahead_capacity(&self) -> nat {
        self.look_ahead_blocks as nat
    }

    /// How many consumed blocks the cache retains.
    pub closed spec fn cache_capacity(&self) -> nat {
        self.cache_blocks as nat
    }

    /// The configured server poll period, in milliseconds.
    pub closed spec fn poll_interval_ms_spec(&self) -> u64 {
        self.poll_interval_ms
    }

    /// The decoder fault recorded against the stream, if any.
    pub closed spec fn fault_spec(&self) -> Option<D::FatalError> {
        self.error
    }

    /// Whether a seek request awaits the server.
    pub closed spec fn seek_pending(&self) -> bool {
        self.pending is Some
    }

    /// Whether the decoder reported an unrecoverable fault.
    pub closed spec fn failed(&self) -> bool {
        self.error is Some
    }

    /// The first frame not yet covered by the look-ahead queue.
    pub closed spec fn buffered_to(&self) -> int {
        if self.lookahead@.len() == 0 {
            self.playhead as int
        } else {
            self.lookahead@[0].start_frame + self.lookahead@.len() * self.block_frames
        }
    }

    /// Whether a read of one frame would succeed right now.
    pub closed spec fn is_ready_spec(&self) -> bool {
        &&& !self.failed()
        &&& !self.seek_pending()
        &&& (self.lookahead@.len() > 0 || self.playhead >= self.num_frames)
    }

    /// Whether a read of `n` frames would succeed right now: either the
    /// playhead is at the end of the file (the read is all silence), or
    /// the look-ahead queue covers the requested span, or it covers the
    /// whole rest of the file (the remainder is silence).
    pub closed spec fn ready_for(&self, n: nat) -> bool {
        &&& !self.failed()
        &&& !self.seek_pending()
        &&& (self.playhead >= self.num_frames || (self.lookahead@.len() > 0 && (self.playhead + n
            <= self.buffered_to() || self.buffered_to() >= self.num_frames)))
    }

    /// Whether frame `f` lies in the window of retained consumed blocks:
    /// a seek there is served from the cache, without the decoder.
    pub closed spec fn cache_window_contains(&self, f: int) -> bool {
        &&& self.cache@.len() > 0
        &&& self.cache@[0].start_frame <= f
        &&& f < self.cache@[0].start_frame + self.cache@.len() * self.block_frames
    }

    /// Where the playhead sits relative to the look-ahead queue when no
    /// seek is pending: inside the first queued block, or exactly at the
    /// fill position when nothing is queued.
    pub(crate) closed spec fn playhead_located(&self) -> bool {
        if self.lookahead@.len() > 0 {
            self.lookahead@[0].start_frame <= self.playhead < self.lookahead@[0].start_frame
                + self.block_frames
        } else {
            self.playhead as int == min_frame(self.fill_frame as int, self.num_frames as int)
        }
    }

    /// The stream invariant.
    pub closed spec fn wf(&self) -> bool {
        &&& self.wf_core()
        &&& (self.pending is None ==> self.playhead_located())
    }

    /// The parts of the invariant that hold even while the playhead is
    /// being moved: everything but its location in the queue.
    pub(crate) closed spec fn wf_core(&self) -> bool {
        let sig = self.decoder.signal();
        let nf = self.num_frames as int;
        let nc = self.num_channels as int;
        let bf = self.block_frames as int;
        &&& (self.error is None ==> self.decoder.inv())
        &&& signal_wf(sig)
        &&& sig.len() == nc
        &&& sig_frames(sig) == nf
        &&& self.info.num_frames == self.num_frames
        &&& self.info.num_channels as int == nc
        &&& nc >= 1
        &&& bf >= 1
        &&& self.look_ahead_blocks >= 1
        &&& self.num_frames + self.block_frames <= usize::MAX
        &&& self.playhead <= nf
        &&& self.fill_frame <= nf + bf
        &&& (self.error is None ==> self.decoder.playhead() == min_frame(
            self.fill_frame as int,
            nf,
        ))
        &&& blocks_ok(self.lookahead@, sig, nc, bf)
        &&& blocks_indexed(self.lookahead@, bf)
        &&& (self.lookahead@.len() > 0 ==> self.lookahead@[0].start_frame + self.lookahead@.len()
            * bf == self.fill_frame)
        &&& self.lookahead@.len() + self.cache@.len() <= self.look_ahead_blocks
            + self.cache_blocks
        &&& self.cache@.len() <= self.cache_blocks
        &&& blocks_ok(self.cache@, sig, nc, bf)
        &&& blocks_indexed(self.cache@, bf)
        &&& (self.cache@.len() > 0 ==> self.cache@[0].start_frame + self.cache@.len() * bf == (
        if self.lookahead@.len() > 0 {
            self.lookahead@[0].start_frame as int
        } else {
            self.fill_frame as int
        }))
        &&& (forall|i: int|
            0 <= i < self.pool@.len() ==> (#[trigger] self.pool@[i]).shape_wf(nc, bf))
    }

    /// Builds a stream over a decoder already positioned at `start_frame`,
    /// validating the options against the file. Opening performs no
    /// decoding: the stream is not ready until the server has polled.
    pub fn new(
        decoder: D,
        info: FileInfo<D::FileParams>,
        start_frame: usize,
        options: ReadStreamOptions,
    ) -> (r: Result<Self, OpenError>)
        requires
            decoder.inv(),
            signal_wf(decoder.signal()),
            sig_channels(decoder.signal()) == info.num_channels as nat,
            sig_frames(decoder.signal()) == info.num_frames as nat,
            decoder.playhead() == min_frame(start_frame as int, info.num_frames as int),
        ensures
            r is Err <==> (options.block_frames == 0 || options.num_look_ahead_blocks == 0
                || info.num_channels == 0 || info.num_frames > usize::MAX - options.block_frames
                || start_frame > info.num_frames),
            r == Result::<Self, OpenError>::Err(OpenError::BlockFramesZero) <==> options.block_frames == 0,
            r == Result::<Self, OpenError>::Err(OpenError::LookAheadBlocksZero) <==> (options.block_frames != 0
                && options.num_look_ahead_blocks == 0),
            r == Result::<Self, OpenError>::Err(OpenError::NumChannelsZero) <==> (options.block_frames != 0
                && options.num_look_ahead_blocks != 0 && info.num_channels == 0),
            r == Result::<Self, OpenError>::Err(OpenError::FileTooLong) <==> (options.block_frames != 0
                && options.num_look_ahead_blocks != 0 && info.num_channels != 0
                && info.num_frames > usize::MAX - options.block_frames),
            r == Result::<Self, OpenError>::Err(OpenError::StartFrameOutOfRange) <==> (options.block_frames
                != 0 && options.num_look_ahead_blocks != 0 && info.num_channels != 0
                && info.num_frames <= usize::MAX - options.block_frames && start_frame
                > info.num_frames),
            match r {
                Ok(s) => {
                    &&& s.wf()
                    &&& s.model() == decoder.signal()
                    &&& s.codec() == decoder
                    &&& s.codec_seek_count() == 0
                    &&& s.playhead_spec() == start_frame as nat
                    &&& s.info_spec() == info
                    &&& s.num_frames_spec() == info.num_frames as nat
                    &&& s.num_channels_spec() == info.num_channels as nat
                    &&& s.block_frames_spec() == options.block_frames as nat
                    &&& s.look_ahead_capacity() == options.num_look_ahead_blocks as nat
                    &&& s.cache_capacity() == options.num_cache_blocks as nat
                    &&& s.poll_interval_ms_spec() == options.poll_interval_ms
                    &&& !s.seek_pending()
                    &&& !s.failed()
                    &&& !s.is_ready_spec() || start_frame == info.num_frames
                },
                Err(_) => true,
            },
    {
        if options.block_frames == 0 {
            return Err(OpenError::BlockFramesZero);
        }
        if options.num_look_ahead_blocks == 0 {
            return Err(OpenError::LookAheadBlocksZero);
        }
        if info.num_channels == 0 {
            return Err(OpenError::NumChannelsZero);
        }
        if info.num_frames > usize::MAX - options.block_frames {
            return Err(OpenError::FileTooLong);
        }
        if start_frame > info.num_frames {
            return Err(OpenError::StartFrameOutOfRange);
        }
        let num_frames = info.num_frames;
        let num_channels = info.num_channels as usize;
        Ok(
            ReadDiskStream {
                decoder,
                info,
                num_frames,
                num_channels,
                block_frames: options.block_frames,
                cache_blocks: options.num_cache_blocks,
                look_ahead_blocks: options.num_look_ahead_blocks,
                poll_interval_ms: options.poll_interval_ms,
                lookahead: Vec::new(),
                cache: Vec::new(),
                pool: Vec::new(),
                playhead: start_frame,
                fill_frame: start_frame,
                pending: None,
                error: None,
                codec_seeks: Ghost(0),
            },
        )
    }

    /// Info about the file the stream serves.
    pub fn info(&self) -> (r: &FileInfo<D::FileParams>)
        ensures
            *r == self.info_spec(),
    {
        &self.info
    }

    /// The next frame the consumer will read.
    pub fn playhead_frame(&self) -> (r: usize)
        ensures
            r as nat == self.playhead_spec(),
    {
        self.playhead
    }

    /// Whether a read of one frame would succeed right now. Never touches
    /// the decoder.
    pub fn is_ready(&self) -> (r: bool)
        ensures
            r == self.is_ready_spec(),
    {
        self.error.is_none() && self.pending.is_none() && (self.lookahead.len() > 0
            || self.playhead >= self.num_frames)
    }

    /// The total number of frames of the file.
    pub fn num_frames(&self) -> (r: usize)
        ensures
            r as nat == self.num_frames_spec(),
    {
        self.num_frames
    }

    /// The number of channels of the file.
    pub fn num_channels(&self) -> (r: usize)
        ensures
            r as nat == self.num_channels_spec(),
    {
        self.num_channels
    }

    /// The number of frames per prefetched block.
    pub fn block_frames(&self) -> (r: usize)
        ensures
            r as nat == self.block_frames_spec(),
    {
        self.block_frames
    }

    /// The decoder fault that ended the stream, if any, exactly as the
    /// decoder reported it.
    pub fn fatal_error(&self) -> (r: &Option<D::FatalError>)
        ensures
            *r == self.fault_spec(),
            r is Some <==> self.failed(),
    {
        &self.error
    }

    /// How long the server loop should sleep between polls, in
    /// milliseconds.
    pub fn poll_interval_ms(&self) -> (r: u64)
        ensures
            r == self.poll_interval_ms_spec(),
    {
        self.poll_interval_ms
    }

    /// Requests repositioning to `frame` (clamped to the end of the file)
    /// and returns at once; the request is served by the next poll, and
    /// reads report not-ready until then. Never touches the decoder, and
    /// the most recent request supersedes any unserved one.
    pub fn seek(&mut self, frame: usize, mode: SeekMode)
        requires
            old(self).wf(),
        ensures
            final(self).wf(),
            final(self).model() == old(self).model(),
            final(self).codec() == old(self).codec(),
            final(self).codec_seek_count() == old(self).codec_seek_count(),
            final(self).info_spec() == old(self).info_spec(),
            final(self).num_frames_spec() == old(self).num_frames_spec(),
            final(self).num_channels_spec() == old(self).num_channels_spec(),
            final(self).block_frames_spec() == old(self).block_frames_spec(),
            final(self).look_ahead_capacity() == old(self).look_ahead_capacity(),
            final(self).cache_capacity() == old(self).cache_capacity(),
            final(self).playhead_spec() == min_frame(
                frame as int,
                old(self).num_frames_spec() as int,
            ),
            final(self).seek_pending(),
            !final(self).is_ready_spec(),
            final(self).failed() == old(self).failed(),
            final(self).cache_window_contains(final(self).playhead_spec() as int)
                == old(self).cache_window_contains(final(self).playhead_spec() as int),
    {
        let nf = self.num_frames;
        self.playhead = if frame >= nf {
            nf
        } else {
            frame
        };
        self.pending = Some(mode);
    }

    /// Collects `n` frames of channel `c` from the look-ahead queue,
    /// silence past the end of the file, without consuming anything.
    fn collect_channel(&self, c: usize, n: usize) -> (out: Vec<D::T>)
        requires
            self.wf(),
            self.ready_for(n as nat),
            (c as int) < self.num_channels as int,
            self.playhead + n <= usize::MAX,
        ensures
            out@.len() == n,
            forall|j: int|
                0 <= j < n ==> out@[j] == sample_at(
                    self.decoder.signal(),
                    c as int,
                    self.playhead + j,
                ),
    {
        let ghost sig = self.decoder.signal();
        let nf = self.num_frames;
        let bf = self.block_frames;
        let ph = self.playhead;
        let mut out: Vec<D::T> = Vec::new();
        let mut i: usize = 0;
        let mut bi: usize = 0;
        while i < n
            invariant
                self.wf(),
                self.ready_for(n as nat),
                sig == self.decoder.signal(),
                nf == self.num_frames,
                bf == self.block_frames,
                ph == self.playhead,
                ph + n <= usize::MAX,
                (c as int) < self.num_channels as int,
                i <= n,
                out@.len() == i,
                forall|j: int| 0 <= j < i ==> out@[j] == sample_at(sig, c as int, ph + j),
                bi <= self.lookahead@.len(),
                (i < n && ph + i < nf) ==> bi < self.lookahead@.len()
                    && self.lookahead@[bi as int].start_frame <= ph + i < self.lookahead@[
                    bi as int].start_frame + bf,
            decreases n - i,
        {
            let f = ph + i;
            if f >= nf {
                out.push(<D::T as Sample>::silence());
            } else {
                let b = &self.lookahead[bi];
                let off = f - b.start_frame;
                out.push(b.channels[c][off]);
                proof {
                    assert(block_ok(
                        self.lookahead@[bi as int],
                        sig,
                        self.num_channels as int,
                        bf as int,
                    ));
                    assert(b.frames()[c as int][off as int] == sample_at(sig, c as int, f as int));
                }
                if f + 1 >= b.start_frame + bf {
                    let la_len = self.lookahead.len();
                    assert(bi < la_len);
                    proof {
                        let len = self.lookahead@.len() as int;
                        lemma_mul_step(bi as int, bf as int);
                        if bi as int == len - 1 {
                            lemma_mul_step(len - 1, bf as int);
                            assert(self.lookahead@[len - 1].start_frame == self.lookahead@[
                                0].start_frame + (len - 1) * bf);
                            assert(f + 1 == self.buffered_to());
                        }
                    }
                    bi = bi + 1;
                }
            }
            i = i + 1;
        }
        out
    }

    /// Returns the next `frames` frames if they are already buffered —
    /// never blocking, never touching the decoder — and advances the
    /// playhead past them, clamped to the end of the file; frames past the
    /// end read as silence. Returns `None`, changing nothing, when the
    /// data is not ready (or a seek is still pending, or the stream
    /// failed): the caller retries after the server has polled.
    pub fn read(&mut self, frames: usize) -> (r: Option<ReadData<D::T>>)
        requires
            old(self).wf(),
            old(self).playhead_spec() + frames <= usize::MAX,
        ensures
            final(self).wf(),
            final(self).model() == old(self).model(),
            final(self).codec() == old(self).codec(),
            final(self).codec_seek_count() == old(self).codec_seek_count(),
            final(self).info_spec() == old(self).info_spec(),
            final(self).num_frames_spec() == old(self).num_frames_spec(),
            final(self).num_channels_spec() == old(self).num_channels_spec(),
            final(self).block_frames_spec() == old(self).block_frames_spec(),
            final(self).look_ahead_capacity() == old(self).look_ahead_capacity(),
            final(self).cache_capacity() == old(self).cache_capacity(),
            final(self).failed() == old(self).failed(),
            final(self).seek_pending() == old(self).seek_pending(),
            r is Some <==> old(self).ready_for(frames as nat),
            match r {
                Some(d) => {
                    &&& d.frames() == read_span(
                        old(self).model(),
                        old(self).playhead_spec() as int,
                        frames as nat,
                    )
                    &&& d.start_frame as nat == old(self).playhead_spec()
                    &&& final(self).playhead_spec() as int == min_frame(
                        old(self).playhead_spec() + frames,
                        old(self).num_frames_spec() as int,
                    )
                    &&& (d.end_of_file <==> final(self).playhead_spec()
                        == final(self).num_frames_spec())
                },
                None => final(self).playhead_spec() == old(self).playhead_spec(),
            },
    {
        let ghost sig = self.decoder.signal();
        if self.error.is_some() || self.pending.is_some() {
            return None;
        }
        let nf = self.num_frames;
        let bf = self.block_frames;
        let available: bool = if self.playhead >= nf {
            true
        } else if self.lookahead.len() > 0 {
            let last = self.lookahead.len() - 1;
            proof {
                lemma_mul_step(last as int, bf as int);
            }
            let la_end = self.lookahead[last].start_frame + bf;
            proof {
                assert(la_end == self.buffered_to());
            }
            self.playhead + frames <= la_end || la_end >= nf
        } else {
            false
        };
        if !available {
            return None;
        }
        assert(self.ready_for(frames as nat));
        // assemble the output, channel by channel
        let mut out_channels: Vec<Vec<D::T>> = Vec::new();
        let mut c: usize = 0;
        while c < self.num_channels
            invariant
                self.wf(),
                self.ready_for(frames as nat),
                sig == self.decoder.signal(),
                nf == self.num_frames,
                bf == self.block_frames,
                self.playhead + frames <= usize::MAX,
                c <= self.num_channels,
                out_channels@.len() == c,
                forall|k: int, j: int|
                    0 <= k < c && 0 <= j < frames ==> out_channels@[k]@[j] == sample_at(
                        sig,
                        k,
                        self.playhead + j,
                    ),
                forall|k: int| 0 <= k < c ==> (#[trigger] out_channels@[k]@).len() == frames,
            decreases self.num_channels - c,
        {
            let ch = self.collect_channel(c, frames);
            out_channels.push(ch);
            c = c + 1;
        }
        let start = self.playhead;
        let data = ReadData {
            channels: out_channels,
            start_frame: start,
            end_of_file: false,
        };
        proof {
            let spanned = read_span(sig, start as int, frames as nat);
            assert forall|k: int| 0 <= k < self.num_channels implies data.frames()[k]
                =~= spanned[k] by {
                assert(data.frames()[k] == data.channels@[k]@);
            }
            assert(data.frames() =~= spanned);
        }
        // advance the playhead, clamped to the end of the file
        let end = start + frames;
        let new_ph = if end >= nf {
            nf
        } else {
            end
        };
        self.playhead = new_ph;
        proof {
            let len = self.lookahead@.len() as int;
            if len > 0 {
                lemma_mul_step(len - 1, bf as int);
                lemma_mul_nonneg(len - 1, bf as int);
                assert(self.lookahead@[len - 1].start_frame == self.lookahead@[0].start_frame + (
                len - 1) * bf);
            }
        }
        // retire consumed blocks into the cache, oldest evicted first
        while self.lookahead.len() > 0 && self.lookahead[0].start_frame + self.block_frames
            <= self.playhead
            invariant
                self.wf_core(),
                self.decoder == old(self).decoder,
                self.codec_seeks == old(self).codec_seeks,
                self.info == old(self).info,
                self.num_channels == old(self).num_channels,
                self.look_ahead_blocks == old(self).look_ahead_blocks,
                self.cache_blocks == old(self).cache_blocks,
                sig == self.decoder.signal(),
                nf == self.num_frames,
                bf == self.block_frames,
                self.playhead == new_ph,
                self.pending is None,
                self.error is Some <==> old(self).failed(),
                self.playhead <= nf,
                self.lookahead@.len() > 0 ==> self.lookahead@[0].start_frame <= self.playhead,
                self.playhead <= self.fill_frame || self.fill_frame >= nf,
                self.lookahead@.len() == 0 ==> self.playhead as int == min_frame(
                    self.fill_frame as int,
                    nf as int,
                ),
            decreases self.lookahead@.len(),
        {
            let ghost pre = *self;
            let b = self.lookahead.remove(0);
            proof {
                assert forall|i: int|
                    0 <= i < self.lookahead@.len() implies (#[trigger] self.lookahead@[
                    i]).start_frame == self.lookahead@[0].start_frame + i * bf by {
                    lemma_mul_step(i, bf as int);
                    assert(pre.lookahead@[i + 1].start_frame == pre.lookahead@[0].start_frame + (i
                        + 1) * bf);
                    assert(pre.lookahead@[1].start_frame == pre.lookahead@[0].start_frame + 1
                        * bf);
                }
                if self.lookahead@.len() > 0 {
                    lemma_mul_step(self.lookahead@.len() as int, bf as int);
                    assert(pre.lookahead@[0].start_frame + pre.lookahead@.len() * bf == self
                        .lookahead@[0].start_frame + self.lookahead@.len() * bf);
                }
            }
            if self.cache_blocks == 0 {
                self.pool.push(b);
            } else {
                if self.cache.len() >= self.cache_blocks {
                    let ghost cpre = self.cache@;
                    let evicted = self.cache.remove(0);
                    self.pool.push(evicted);
                    proof {
                        assert forall|i: int|
                            0 <= i < self.cache@.len() implies (#[trigger] self.cache@[
                            i]).start_frame == self.cache@[0].start_frame + i * bf by {
                            lemma_mul_step(i, bf as int);
                            assert(cpre[i + 1].start_frame == cpre[0].start_frame + (i + 1) * bf);
                            assert(cpre[1].start_frame == cpre[0].start_frame + 1 * bf);
                        }
                        if self.cache@.len() > 0 {
                            lemma_mul_step(self.cache@.len() as int, bf as int);
                            assert(cpre[0].start_frame + cpre.len() * bf == self.cache@[
                                0].start_frame + self.cache@.len() * bf);
                        }
                    }
                }
                let ghost cpre = self.cache@;
                self.cache.push(b);
                proof {
                    lemma_mul_step(cpre.len() as int, bf as int);
                    if cpre.len() > 0 {
                        assert(b.start_frame == cpre[0].start_frame + cpre.len() * bf);
                    }
                    assert forall|i: int|
                        0 <= i < self.cache@.len() implies (#[trigger] self.cache@[i]).start_frame
                        == self.cache@[0].start_frame + i * bf by {
                        if i < cpre.len() as int {
                        } else {
                            assert(self.cache@[i] == b);
                        }
                    }
                }
            }
        }
        proof {
            assert(self.wf());
        }
        Some(
            ReadData {
                channels: data.channels,
                start_frame: data.start_frame,
                end_of_file: new_ph >= nf,
            },
        )
    }

    /// One iteration of the background server: serves a pending seek
    /// request — from the cache when the target lies in the window of
    /// retained blocks, asking the decoder to reposition only otherwise —
    /// and then decodes ahead until the look-ahead queue is full or the
    /// end of the file is reached. A decoder fault is recorded and ends
    /// the stream; after a fault polling changes nothing.
    #[verifier::loop_isolation(false)]
    #[verifier::rlimit(60)]
    pub fn poll(&mut self)
        requires
            old(self).wf(),
        ensures
            final(self).wf(),
            final(self).model() == old(self).model(),
            final(self).info_spec() == old(self).info_spec(),
            final(self).num_frames_spec() == old(self).num_frames_spec(),
            final(self).num_channels_spec() == old(self).num_channels_spec(),
            final(self).block_frames_spec() == old(self).block_frames_spec(),
            final(self).look_ahead_capacity() == old(self).look_ahead_capacity(),
            final(self).cache_capacity() == old(self).cache_capacity(),
            final(self).playhead_spec() == old(self).playhead_spec(),
            old(self).failed() ==> *final(self) == *old(self),
            !final(self).failed() ==> !final(self).seek_pending(),
            !final(self).failed() ==> final(self).is_ready_spec(),
            !final(self).failed() && final(self).look_ahead_capacity() >= 2 ==> forall|n: nat|
                n <= final(self).block_frames_spec() ==> final(self).ready_for(n),
            (old(self).seek_pending() && old(self).cache_window_contains(
                old(self).playhead_spec() as int,
            )) ==> final(self).codec_seek_count() == old(self).codec_seek_count(),
            (old(self).seek_pending() && !old(self).cache_window_contains(
                old(self).playhead_spec() as int,
            ) && !old(self).failed()) ==> final(self).codec_seek_count()
                == old(self).codec_seek_count() + 1,
            !old(self).seek_pending() ==> final(self).codec_seek_count()
                == old(self).codec_seek_count(),
    {
        if self.error.is_some() {
            return ;
        }
        let ghost sig = self.decoder.signal();
        let nf = self.num_frames;
        let bf = self.block_frames;
        if self.pending.is_some() {
            let mode = match &self.pending {
                Some(m) => *m,
                None => SeekMode::Accurate,
            };
            let hit: bool = if self.cache.len() > 0 {
                let clast = self.cache.len() - 1;
                proof {
                    lemma_mul_step(clast as int, bf as int);
                }
                let c_end = self.cache[clast].start_frame + bf;
                self.cache[0].start_frame <= self.playhead && self.playhead < c_end
            } else {
                false
            };
            assert(hit == self.cache_window_contains(self.playhead as int));
            if hit {
                // promote the retained blocks from the target onward back
                // into the look-ahead queue; the decoder is not involved
                while self.cache.len() > 0 && self.cache[self.cache.len() - 1].start_frame
                    + self.block_frames > self.playhead
                    invariant
                        self.wf_core(),
                        self.decoder == old(self).decoder,
                        self.codec_seeks == old(self).codec_seeks,
                        self.info == old(self).info,
                        self.num_frames == old(self).num_frames,
                        self.num_channels == old(self).num_channels,
                        self.block_frames == old(self).block_frames,
                        self.look_ahead_blocks == old(self).look_ahead_blocks,
                        self.cache_blocks == old(self).cache_blocks,
                        self.playhead == old(self).playhead,
                        self.pool == old(self).pool,
                        sig == self.decoder.signal(),
                        nf == self.num_frames,
                        bf == self.block_frames,
                        self.pending is Some,
                        self.error is None,
                        self.lookahead@.len() > 0 ==> self.playhead < self.lookahead@[
                            0].start_frame + bf,
                        (self.lookahead@.len() > 0 && self.lookahead@[0].start_frame
                            <= self.playhead) || (self.cache@.len() > 0 && self.cache@[
                            0].start_frame <= self.playhead && self.playhead < self.cache@[
                            self.cache@.len() - 1].start_frame + bf),
                    decreases self.cache@.len(),
                {
                    let ghost pre = *self;
                    let clast = self.cache.len() - 1;
                    proof {
                        lemma_mul_step(clast as int, bf as int);
                        if clast > 0 {
                            lemma_mul_step(clast as int - 1, bf as int);
                        }
                    }
                    let b = match self.cache.pop() {
                        Some(b) => b,
                        None => DataBlock::silent(0, 0),
                    };
                    let ghost lpre = self.lookahead@;
                    self.lookahead.insert(0, b);
                    proof {
                        assert(self.lookahead@[0] == b);
                        assert forall|i: int|
                            0 <= i < self.lookahead@.len() implies (#[trigger] self.lookahead@[
                        i]).start_frame == self.lookahead@[0].start_frame + i * bf by {
                            if i > 0 {
                                lemma_mul_step(i - 1, bf as int);
                                assert(self.lookahead@[i] == lpre[i - 1]);
                                assert(lpre[i - 1].start_frame == lpre[0].start_frame + (i - 1)
                                    * bf);
                            }
                        }
                        if lpre.len() > 0 {
                            lemma_mul_step(lpre.len() as int, bf as int);
                            assert(lpre[0].start_frame + lpre.len() * bf == self.lookahead@[
                                0].start_frame + self.lookahead@.len() * bf);
                        }
                        let nc = self.num_channels as int;
                        assert(blocks_ok(self.lookahead@, sig, nc, bf as int));
                        assert(blocks_indexed(self.lookahead@, bf as int));
                        assert(self.lookahead@[0].start_frame + self.lookahead@.len() * (
                        bf as int) == self.fill_frame);
                        assert(blocks_ok(self.cache@, sig, nc, bf as int));
                        assert(blocks_indexed(self.cache@, bf as int));
                        assert(self.cache@.len() > 0 ==> self.cache@[0].start_frame
                            + self.cache@.len() * (bf as int) == self.lookahead@[
                            0].start_frame as int);
                        assert(self.lookahead@.len() + self.cache@.len()
                            <= self.look_ahead_blocks + self.cache_blocks);
                        assert(self.cache@.len() <= self.cache_blocks);
                        assert(forall|i: int|
                            0 <= i < self.pool@.len() ==> (#[trigger] self.pool@[i]).shape_wf(
                                nc,
                                bf as int,
                            ));
                    }
                }
                self.pending = None;
            } else {
                // outside the window: drop the stale queue and cache and
                // ask the decoder to reposition
                while self.lookahead.len() > 0
                    invariant
                        self.decoder == old(self).decoder,
                        self.codec_seeks == old(self).codec_seeks,
                        self.info == old(self).info,
                        self.num_frames == old(self).num_frames,
                        self.num_channels == old(self).num_channels,
                        self.block_frames == old(self).block_frames,
                        self.look_ahead_blocks == old(self).look_ahead_blocks,
                        self.cache_blocks == old(self).cache_blocks,
                        self.playhead == old(self).playhead,
                        self.fill_frame == old(self).fill_frame,
                        self.cache == old(self).cache,
                        sig == self.decoder.signal(),
                        self.pending is Some,
                        self.error is None,
                        forall|i: int|
                            0 <= i < self.lookahead@.len() ==> (#[trigger] self.lookahead@[
                            i]).shape_wf(self.num_channels as int, self.block_frames as int),
                        forall|i: int|
                            0 <= i < self.pool@.len() ==> (#[trigger] self.pool@[i]).shape_wf(
                                self.num_channels as int,
                                self.block_frames as int,
                            ),
                    decreases self.lookahead@.len(),
                {
                    let b = match self.lookahead.pop() {
                        Some(b) => b,
                        None => DataBlock::silent(0, 0),
                    };
                    self.pool.push(b);
                }
                while self.cache.len() > 0
                    invariant
                        self.decoder == old(self).decoder,
                        self.codec_seeks == old(self).codec_seeks,
                        self.info == old(self).info,
                        self.num_frames == old(self).num_frames,
                        self.num_channels == old(self).num_channels,
                        self.block_frames == old(self).block_frames,
                        self.look_ahead_blocks == old(self).look_ahead_blocks,
                        self.cache_blocks == old(self).cache_blocks,
                        self.playhead == old(self).playhead,
                        self.fill_frame == old(self).fill_frame,
                        self.lookahead@.len() == 0,
                        sig == self.decoder.signal(),
                        self.pending is Some,
                        self.error is None,
                        forall|i: int|
                            0 <= i < self.cache@.len() ==> (#[trigger] self.cache@[i]).shape_wf(
                                self.num_channels as int,
                                self.block_frames as int,
                            ),
                        forall|i: int|
                            0 <= i < self.pool@.len() ==> (#[trigger] self.pool@[i]).shape_wf(
                                self.num_channels as int,
                                self.block_frames as int,
                            ),
                    decreases self.cache@.len(),
                {
                    let b = match self.cache.pop() {
                        Some(b) => b,
                        None => DataBlock::silent(0, 0),
                    };
                    self.pool.push(b);
                }
                let target = self.playhead;
                self.codec_seeks = Ghost(self.codec_seeks@ + 1);
                match self.decoder.seek(target, mode) {
                    Ok(()) => {
                        self.fill_frame = target;
                        self.pending = None;
                    },
                    Err(e) => {
                        self.fill_frame = target;
                        self.error = Some(e);
                        self.pending = None;
                        return ;
                    },
                }
            }
        }
        let ghost cs_entry = self.codec_seeks@;
        let ghost err_entry = self.error;
        // decode ahead until the queue is full or the file is exhausted
        while self.lookahead.len() < self.look_ahead_blocks && self.fill_frame < self.num_frames
            invariant
                self.wf(),
                self.codec_seeks@ == cs_entry,
                self.info == old(self).info,
                self.num_frames == old(self).num_frames,
                self.num_channels == old(self).num_channels,
                self.block_frames == old(self).block_frames,
                self.look_ahead_blocks == old(self).look_ahead_blocks,
                self.cache_blocks == old(self).cache_blocks,
                self.playhead == old(self).playhead,
                sig == self.decoder.signal(),
                nf == self.num_frames,
                bf == self.block_frames,
                self.pending is None,
                self.error is None,
            decreases self.num_frames + self.block_frames - self.fill_frame,
        {
            let mut b = match self.pool.pop() {
                Some(b) => b,
                None => DataBlock::silent(self.num_channels, self.block_frames),
            };
            b.start_frame = self.fill_frame;
            b.end_of_file = self.fill_frame + bf >= nf;
            let ghost fstart = self.fill_frame as int;
            let ghost dec0 = self.decoder;
            proof {
                assert(dec0.playhead() == fstart);
            }
            match self.decoder.decode(&mut b) {
                Ok(()) => {
                    let ghost lpre = self.lookahead@;
                    proof {
                        lemma_mul_step(lpre.len() as int, bf as int);
                    }
                    self.lookahead.push(b);
                    self.fill_frame = self.fill_frame + bf;
                    proof {
                        let nc = self.num_channels as int;
                        assert forall|c: int, i: int|
                            0 <= c < nc && 0 <= i < bf implies b.frames()[c][i] == sample_at(
                            sig,
                            c,
                            b.start_frame + i,
                        ) by {
                            assert(b.channels@[c].len() == bf);
                            assert(b.frames()[c][i] == sample_at(dec0.signal(), c, dec0.playhead()
                                + i));
                        }
                        assert(block_ok(b, sig, nc, bf as int));
                        assert forall|i: int|
                            0 <= i < self.lookahead@.len() implies (#[trigger] self.lookahead@[
                        i]).start_frame == self.lookahead@[0].start_frame + i * bf by {
                            if i < lpre.len() as int {
                            } else {
                                assert(self.lookahead@[i] == b);
                            }
                        }
                    }
                },
                Err(e) => {
                    self.pool.push(b);
                    self.error = Some(e);
                    return ;
                },
            }
        }
        proof {
            if self.look_ahead_blocks >= 2 && self.lookahead@.len() >= 2 {
                let len = self.lookahead@.len() as int;
                lemma_mul_step(len - 1, bf as int);
                lemma_mul_step(len - 2, bf as int);
                lemma_mul_nonneg(len - 2, bf as int);
            }
        }
    }
}

/// One block further along is one block's worth of frames further along.
proof fn lemma_mul_step(i: int, bf: int)
    by (nonlinear_arith)
    ensures
        (i + 1) * bf == i * bf + bf,
{
}

/// A count of blocks covers a non-negative number of frames.
proof fn lemma_mul_nonneg(a: int, b: int)
    by (nonlinear_arith)
    requires
        a >= 0,
        b >= 0,
    ensures
        a * b >= 0,
{
}

} // verus!
