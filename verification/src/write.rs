//! The write side of the engine: a stream client that queues filled
//! blocks toward a background server, which drains them into an encoder.
//!
//! `write` never touches the encoder: it only queues (or, when the
//! bounded queue is full, applies the configured backpressure policy).
//! All encoding happens in `poll`, the body of the background server
//! loop; `finalize` drains what is queued and closes the encoder exactly
//! once.

use vstd::prelude::*;

use crate::encoder::{append_frames, Encoder};
use crate::sample::Sample;

verus! {

/// A block of frames filled by the writer: one buffer per channel, all
/// of equal length (a final block may be shorter than the rest).
pub struct WriteBlock<S> {
    /// The samples to persist, one buffer per channel.
    pub channels: Vec<Vec<S>>,
}

impl<S: Sample> WriteBlock<S> {
    /// The block's contents, one sequence per channel.
    pub open spec fn frames(&self) -> Seq<Seq<S>> {
        self.channels@.map_values(|v: Vec<S>| v@)
    }
}

/// What to do when a block is written while the queue toward the server
/// is full because the server has fallen behind.
#[derive(Clone, Copy, Debug, PartialEq, Eq, Structural)]
pub enum BackpressureMode {
    /// Refuse the block and report `Backpressure`; nothing is lost.
    SurfaceError,
    /// Drop the oldest queued block to make room; the new block wins.
    DropOldest,
}

/// Configuration of a write stream.
#[derive(Clone, Copy, Debug)]
pub struct WriteStreamOptions {
    /// The largest number of frames accepted per written block.
    pub block_frames: usize,
    /// How many blocks the queue toward the server holds.
    pub num_queue_blocks: usize,
    /// What to do when the queue is full.
    pub backpressure: BackpressureMode,
    /// How long the server loop sleeps between polls, in milliseconds.
    pub poll_interval_ms: u64,
}

impl Default for WriteStreamOptions {
    /// A medium block size, a short queue, and lossless backpressure.
    fn default() -> (r: Self)
        ensures
            r.block_frames == 16384,
            r.num_queue_blocks == 8,
            r.backpressure == BackpressureMode::SurfaceError,
            r.poll_interval_ms == 1,
    {
        WriteStreamOptions {
            block_frames: 16384,
            num_queue_blocks: 8,
            backpressure: BackpressureMode::SurfaceError,
            poll_interval_ms: 1,
        }
    }
}

/// The outcome of a write-side operation, as the server reports it.
#[derive(Clone, Copy, Debug, PartialEq, Eq, Structural)]
pub enum WriteStatus {
    /// The operation took effect.
    Accepted,
    /// The queue is full and the policy refuses to drop data.
    Backpressure,
    /// The encoder reported an unrecoverable fault, or the stream is
    /// already closed; the caller must stop writing.
    FatalError,
}

/// Why a write stream could not be constructed.
#[derive(Clone, Copy, Debug, PartialEq, Eq, Structural)]
pub enum WriteOpenError {
    /// `block_frames` was zero.
    BlockFramesZero,
    /// `num_queue_blocks` was zero: nothing could ever be handed over.
    QueueBlocksZero,
    /// The encoder reports no channels.
    NumChannelsZero,
}

/// What a queue of pending blocks amounts to once drained into frames
/// already persisted: each block's channels appended in order.
pub open spec fn queue_model<S>(w: Seq<Seq<S>>, q: Seq<Seq<Seq<S>>>) -> Seq<Seq<S>>
    decreases q.len(),
{
    if q.len() == 0 {
        w
    } else {
        queue_model(append_frames(w, q[0]), q.drop_first())
    }
}

/// Draining a queue extended by one block persists that block last.
pub proof fn lemma_queue_model_push<S>(w: Seq<Seq<S>>, q: Seq<Seq<Seq<S>>>, b: Seq<Seq<S>>)
    ensures
        queue_model(w, q.push(b)) == append_frames(queue_model(w, q), b),
    decreases q.len(),
{
    if q.len() == 0 {
        assert(q.push(b)[0] == b);
        assert(q.push(b).drop_first() =~= Seq::<Seq<Seq<S>>>::empty());
        assert(queue_model(append_frames(w, b), Seq::<Seq<Seq<S>>>::empty()) == append_frames(
            w,
            b,
        ));
        assert(queue_model(w, q.push(b)) == append_frames(w, b));
    } else {
        assert(q.push(b).drop_first() =~= q.drop_first().push(b));
        assert(q.push(b)[0] == q[0]);
        lemma_queue_model_push(append_frames(w, q[0]), q.drop_first(), b);
    }
}

/// The consumer-facing handle of a write stream.
pub struct WriteDiskStream<E: Encoder> {
    encoder: E,
    num_channels: usize,
    block_frames: usize,
    queue_blocks: usize,
    backpressure: BackpressureMode,
    poll_interval_ms: u64,
    queue: Vec<WriteBlock<E::T>>,
    finalized: bool,
    error: Option<E::FatalError>,
}

impl<E: Encoder> WriteDiskStream<E> {
    /// The encoder in its current state.
    pub closed spec fn codec(&self) -> E {
        self.encoder
    }

    /// The frames the encoder has persisted so far.
    pub closed spec fn flushed(&self) -> Seq<Seq<E::T>> {
        self.encoder.written()
    }

    /// The contents of the blocks still queued toward the server.
    pub closed spec fn queued(&self) -> Seq<Seq<Seq<E::T>>> {
        self.queue@.map_values(|b: WriteBlock<E::T>| b.frames())
    }

    /// Everything written through the stream: what is persisted plus
    /// what is still queued, in order.
    pub closed spec fn written_model(&self) -> Seq<Seq<E::T>> {
        queue_model(self.flushed(), self.queued())
    }

    /// The number of channels of the file.
    pub closed spec fn num_channels_spec(&self) -> nat {
        self.num_channels as nat
    }

    /// The largest number of frames accepted per written block.
    pub closed spec fn block_frames_spec(&self) -> nat {
        self.block_frames as nat
    }

    /// How many blocks the queue holds at most.
    pub closed spec fn queue_capacity(&self) -> nat {
        self.queue_blocks as nat
    }

    /// The configured backpressure policy.
    pub closed spec fn backpressure_spec(&self) -> BackpressureMode {
        self.backpressure
    }

    /// How many blocks are queued.
    pub closed spec fn queued_len(&self) -> nat {
        self.queue@.len()
    }

    /// Whether the encoder reported an unrecoverable fault.
    pub closed spec fn failed(&self) -> bool {
        self.error is Some
    }

    /// Whether the stream has been finalized.
    pub closed spec fn finalized_spec(&self) -> bool {
        self.finalized
    }

    /// The configured server poll period, in milliseconds.
    pub closed spec fn poll_interval_ms_spec(&self) -> u64 {
        self.poll_interval_ms
    }

    /// The encoder fault recorded against the stream, if any.
    pub closed spec fn fault_spec(&self) -> Option<E::FatalError> {
        self.error
    }

    /// The stream invariant.
    pub closed spec fn wf(&self) -> bool {
        &&& (self.error is None ==> self.encoder.inv())
        &&& (self.error is None ==> self.finalized == self.encoder.finalized())
        &&& self.encoder.written().len() == self.num_channels
        &&& self.num_channels >= 1
        &&& self.block_frames >= 1
        &&& self.queue_blocks >= 1
        &&& self.queue@.len() <= self.queue_blocks
        &&& (self.finalized && self.error is None ==> self.queue@.len() == 0)
        &&& forall|i: int|
            0 <= i < self.queue@.len() ==> wblock_ok(
                #[trigger] self.queue@[i],
                self.num_channels as int,
                self.block_frames as int,
            )
    }

    /// Builds a stream over a fresh encoder, validating the options.
    pub fn new(encoder: E, num_channels: usize, options: WriteStreamOptions) -> (r: Result<
        Self,
        WriteOpenError,
    >)
        requires
            encoder.inv(),
            !encoder.finalized(),
            encoder.written().len() == num_channels as nat,
        ensures
            r is Err <==> (options.block_frames == 0 || options.num_queue_blocks == 0
                || num_channels == 0),
            r == Result::<Self, WriteOpenError>::Err(WriteOpenError::BlockFramesZero)
                <==> options.block_frames == 0,
            r == Result::<Self, WriteOpenError>::Err(WriteOpenError::QueueBlocksZero) <==> (
            options.block_frames != 0 && options.num_queue_blocks == 0),
            r == Result::<Self, WriteOpenError>::Err(WriteOpenError::NumChannelsZero) <==> (
            options.block_frames != 0 && options.num_queue_blocks != 0 && num_channels == 0),
            match r {
                Ok(s) => {
                    &&& s.wf()
                    &&& s.flushed() == encoder.written()
                    &&& s.written_model() == encoder.written()
                    &&& s.queued() == Seq::<Seq<Seq<E::T>>>::empty()
                    &&& s.num_channels_spec() == num_channels as nat
                    &&& s.block_frames_spec() == options.block_frames as nat
                    &&& s.queue_capacity() == options.num_queue_blocks as nat
                    &&& s.backpressure_spec() == options.backpressure
                    &&& s.poll_interval_ms_spec() == options.poll_interval_ms
                    &&& !s.failed()
                    &&& !s.finalized_spec()
                },
                Err(_) => true,
            },
    {
        if options.block_frames == 0 {
            return Err(WriteOpenError::BlockFramesZero);
        }
        if options.num_queue_blocks == 0 {
            return Err(WriteOpenError::QueueBlocksZero);
        }
        if num_channels == 0 {
            return Err(WriteOpenError::NumChannelsZero);
        }
        let s = WriteDiskStream {
            encoder,
            num_channels,
            block_frames: options.block_frames,
            queue_blocks: options.num_queue_blocks,
            backpressure: options.backpressure,
            poll_interval_ms: options.poll_interval_ms,
            queue: Vec::new(),
            finalized: false,
            error: None,
        };
        proof {
            assert(s.queued() =~= Seq::<Seq<Seq<E::T>>>::empty());
        }
        Ok(s)
    }

    /// Queues one filled block of frames toward the server and returns
    /// at once, never touching the encoder. When the queue is full the
    /// configured policy decides: refuse the block (`Backpressure`) or
    /// drop the oldest queued block to make room. After a fault or
    /// after `finalize`, writes report `FatalError` and change nothing.
    pub fn write(&mut self, data: &Vec<Vec<E::T>>) -> (r: WriteStatus)
        requires
            old(self).wf(),
            data@.len() == old(self).num_channels_spec(),
            forall|c: int|
                0 <= c < data@.len() ==> (#[trigger] data@[c]).len() == data@[0].len(),
            data@[0].len() <= old(self).block_frames_spec(),
        ensures
            final(self).wf(),
            final(self).num_channels_spec() == old(self).num_channels_spec(),
            final(self).block_frames_spec() == old(self).block_frames_spec(),
            final(self).queue_capacity() == old(self).queue_capacity(),
            final(self).backpressure_spec() == old(self).backpressure_spec(),
            final(self).flushed() == old(self).flushed(),
            final(self).failed() == old(self).failed(),
            final(self).finalized_spec() == old(self).finalized_spec(),
            r == WriteStatus::FatalError <==> (old(self).failed() || old(self).finalized_spec()),
            r == WriteStatus::Backpressure <==> (!old(self).failed() && !old(self).finalized_spec() && old(self).queued_len() == old(self).queue_capacity() && old(self).backpressure_spec() == BackpressureMode::SurfaceError),
            r == WriteStatus::FatalError || r == WriteStatus::Backpressure ==> *final(self)
                == *old(self),
            r == WriteStatus::Accepted && old(self).queued_len() < old(self).queue_capacity() ==> {
                &&& final(self).queued() == old(self).queued().push(
                    data@.map_values(|v: Vec<E::T>| v@),
                )
                &&& final(self).written_model() == append_frames(
                    old(self).written_model(),
                    data@.map_values(|v: Vec<E::T>| v@),
                )
            },
            r == WriteStatus::Accepted && old(self).queued_len() == old(self).queue_capacity() ==> final(self).queued() == old(self).queued().drop_first().push(
                data@.map_values(|v: Vec<E::T>| v@),
            ),
    {
        if self.error.is_some() || self.finalized {
            return WriteStatus::FatalError;
        }
        let ghost qpre = self.queued();
        if self.queue.len() >= self.queue_blocks {
            match self.backpressure {
                BackpressureMode::SurfaceError => {
                    return WriteStatus::Backpressure;
                },
                BackpressureMode::DropOldest => {
                    let _dropped = self.queue.remove(0);
                    proof {
                        assert(self.queued() =~= qpre.drop_first());
                    }
                },
            }
        }
        let block = WriteBlock { channels: copy_frames(data) };
        let ghost qmid = self.queued();
        let ghost wpre = self.flushed();
        self.queue.push(block);
        proof {
            assert(block.frames() =~= data@.map_values(|v: Vec<E::T>| v@));
            assert(self.queued() =~= qmid.push(block.frames()));
            if qmid == qpre {
                lemma_queue_model_push(wpre, qpre, block.frames());
            }
        }
        WriteStatus::Accepted
    }

    /// One iteration of the background server: drains the queued blocks
    /// into the encoder, oldest first, until the queue is empty or the
    /// encoder reports a fault, which is recorded and ends the stream.
    #[verifier::loop_isolation(false)]
    pub fn poll(&mut self)
        requires
            old(self).wf(),
        ensures
            final(self).wf(),
            final(self).num_channels_spec() == old(self).num_channels_spec(),
            final(self).block_frames_spec() == old(self).block_frames_spec(),
            final(self).queue_capacity() == old(self).queue_capacity(),
            final(self).backpressure_spec() == old(self).backpressure_spec(),
            final(self).finalized_spec() == old(self).finalized_spec(),
            old(self).failed() ==> *final(self) == *old(self),
            !final(self).failed() ==> {
                &&& final(self).queued_len() == 0
                &&& final(self).flushed() == old(self).written_model()
                &&& final(self).written_model() == old(self).written_model()
            },
    {
        if self.error.is_some() || self.finalized {
            return ;
        }
        while self.queue.len() > 0
            invariant
                self.wf(),
                self.num_channels == old(self).num_channels,
                self.block_frames == old(self).block_frames,
                self.queue_blocks == old(self).queue_blocks,
                self.backpressure == old(self).backpressure,
                self.poll_interval_ms == old(self).poll_interval_ms,
                self.finalized == old(self).finalized,
                self.error is None,
                !self.finalized,
                self.written_model() == old(self).written_model(),
            decreases self.queue@.len(),
        {
            let ghost qpre = self.queued();
            let ghost wpre = self.flushed();
            let status = self.encoder.encode(&self.queue[0]);
            match status {
                Ok(()) => {
                    let _done = self.queue.remove(0);
                    proof {
                        assert(self.queued() =~= qpre.drop_first());
                        assert(self.flushed() == append_frames(wpre, qpre[0]));
                    }
                },
                Err(e) => {
                    self.error = Some(e);
                    return ;
                },
            }
        }
    }

    /// Drains everything still queued and closes the encoder, exactly
    /// once; later calls (and calls after a fault) report `FatalError`
    /// and change nothing. On success everything written through the
    /// stream has been persisted.
    pub fn finalize(&mut self) -> (r: WriteStatus)
        requires
            old(self).wf(),
        ensures
            final(self).wf(),
            final(self).num_channels_spec() == old(self).num_channels_spec(),
            final(self).block_frames_spec() == old(self).block_frames_spec(),
            r == WriteStatus::FatalError <==> (old(self).failed() || old(self).finalized_spec()
                || final(self).failed()),
            old(self).failed() || old(self).finalized_spec() ==> *final(self) == *old(self),
            !old(self).failed() && !old(self).finalized_spec() ==> final(self).finalized_spec(),
            r == WriteStatus::Accepted <==> (!old(self).failed() && !old(self).finalized_spec()
                && !final(self).failed()),
            r == WriteStatus::Accepted ==> final(self).flushed() == old(self).written_model(),
    {
        if self.error.is_some() || self.finalized {
            return WriteStatus::FatalError;
        }
        self.poll();
        if self.error.is_some() {
            // the stream is torn down regardless: close the encoder, once
            self.finalized = true;
            return WriteStatus::FatalError;
        }
        let status = self.encoder.finalize();
        self.finalized = true;
        match status {
            Ok(()) => WriteStatus::Accepted,
            Err(e) => {
                self.error = Some(e);
                WriteStatus::FatalError
            },
        }
    }

    /// Gives the encoder back, as it stands; for reading back what a
    /// finished stream persisted.
    pub fn into_encoder(self) -> (r: E)
        ensures
            r == self.codec(),
    {
        self.encoder
    }

    /// The server's current report: a fault (or a closed stream), a
    /// full queue, or all clear.
    pub fn status(&self) -> (r: WriteStatus)
        requires
            self.wf(),
        ensures
            r == WriteStatus::FatalError <==> (self.failed() || self.finalized_spec()),
            r == WriteStatus::Backpressure <==> (!self.failed() && !self.finalized_spec()
                && self.queued_len() == self.queue_capacity()),
            r == WriteStatus::Accepted <==> (!self.failed() && !self.finalized_spec()
                && self.queued_len() < self.queue_capacity()),
    {
        if self.error.is_some() || self.finalized {
            WriteStatus::FatalError
        } else if self.queue.len() >= self.queue_blocks {
            WriteStatus::Backpressure
        } else {
            WriteStatus::Accepted
        }
    }

    /// How many blocks are queued toward the server.
    pub fn num_queued(&self) -> (r: usize)
        ensures
            r as nat == self.queued_len(),
    {
        self.queue.len()
    }

    /// Whether the stream has been finalized.
    pub fn is_finalized(&self) -> (r: bool)
        ensures
            r == self.finalized_spec(),
    {
        self.finalized
    }

    /// The encoder fault that ended the stream, if any, exactly as the
    /// encoder reported it.
    pub fn fatal_error(&self) -> (r: &Option<E::FatalError>)
        ensures
            *r == self.fault_spec(),
            r is Some <==> self.failed(),
    {
        &self.error
    }

    /// How long the server loop should sleep between polls, in
    /// milliseconds.
    pub fn poll_interval_ms(&self) -> (r: u64)
        ensures
            r == self.poll_interval_ms_spec(),
    {
        self.poll_interval_ms
    }
}

/// A pending block is well formed: the right channels, of equal length,
/// no longer than a block.
pub(crate) open spec fn wblock_ok<S: Sample>(b: WriteBlock<S>, nc: int, bf: int) -> bool {
    &&& b.channels@.len() == nc
    &&& forall|c: int|
        0 <= c < nc ==> (#[trigger] b.channels@[c]).len() == b.channels@[0].len()
    &&& b.channels@[0].len() <= bf
}

/// Copies per-channel sample buffers into owned storage.
fn copy_frames<S: Sample>(data: &Vec<Vec<S>>) -> (r: Vec<Vec<S>>)
    ensures
        r@.len() == data@.len(),
        forall|c: int| 0 <= c < data@.len() ==> (#[trigger] r@[c])@ == data@[c]@,
{
    let mut r: Vec<Vec<S>> = Vec::new();
    let mut c: usize = 0;
    while c < data.len()
        invariant
            c <= data@.len(),
            r@.len() == c,
            forall|k: int| 0 <= k < c ==> (#[trigger] r@[k])@ == data@[k]@,
        decreases data@.len() - c,
    {
        let src = &data[c];
        let mut ch: Vec<S> = Vec::new();
        let mut i: usize = 0;
        while i < src.len()
            invariant
                i <= src@.len(),
                ch@.len() == i,
                forall|j: int| 0 <= j < i ==> ch@[j] == src@[j],
            decreases src@.len() - i,
        {
            ch.push(src[i]);
            i = i + 1;
        }
        proof {
            assert(ch@ =~= src@);
        }
        r.push(ch);
        c = c + 1;
    }
    r
}

} // verus!
