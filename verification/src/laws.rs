//! Properties that hold across the engine's operations, stated and
//! proved once, over the same models that the operations' contracts use.

use vstd::prelude::*;

use crate::block::{read_span, sig_frames, signal_wf};
use crate::decoder::Decoder;
use crate::encoder::append_frames;
use crate::read::ReadDiskStream;
use crate::sample::Sample;
use crate::write::queue_model;

verus! {

/// What a read returns is determined by the signal and the playhead
/// alone: two streams over the same signal at the same position hand out
/// the same frames, whatever their caches, look-ahead queues or
/// decoders' internal positions hold. With `seek`'s guarantee that the
/// playhead lands exactly on the clamped target, repeated seeks to the
/// same frame therefore yield bit-identical subsequent sample sequences.
pub proof fn lemma_read_deterministic<D: Decoder>(
    a: ReadDiskStream<D>,
    b: ReadDiskStream<D>,
    n: nat,
)
    requires
        a.model() == b.model(),
        a.playhead_spec() == b.playhead_spec(),
    ensures
        read_span(a.model(), a.playhead_spec() as int, n) == read_span(
            b.model(),
            b.playhead_spec() as int,
            n,
        ),
{
}

/// Round trip: reading a whole signal from its start reproduces it
/// exactly. Together with the write stream's guarantee that finalizing
/// persists precisely the frames written through it, writing a sequence
/// of blocks and reading them back through a backend over the persisted
/// frames reproduces the original sample values.
pub proof fn lemma_round_trip<S: Sample>(sig: Seq<Seq<S>>)
    requires
        signal_wf(sig),
    ensures
        read_span(sig, 0, sig_frames(sig)) == sig,
{
    assert forall|c: int| 0 <= c < sig.len() implies read_span(sig, 0, sig_frames(sig))[c]
        =~= sig[c] by {
        assert(sig[c].len() == sig_frames(sig));
    }
    assert(read_span(sig, 0, sig_frames(sig)) =~= sig);
}

/// Every frame requested at or beyond the end of the file reads as
/// silence, whatever the span's length.
pub proof fn lemma_past_end_silence<S: Sample>(sig: Seq<Seq<S>>, start: int, n: nat)
    requires
        start >= sig_frames(sig),
    ensures
        forall|c: int, i: int|
            0 <= c < sig.len() && 0 <= i < n ==> read_span(sig, start, n)[c][i]
                == S::silence_spec(),
{
}

/// Draining a queue of blocks never rewrites what was already
/// persisted: the channel count is kept and each channel keeps what it
/// held, at the same indices, as a prefix of the result.
proof fn lemma_queue_model_prefix<S>(w: Seq<Seq<S>>, q: Seq<Seq<Seq<S>>>)
    ensures
        queue_model(w, q).len() == w.len(),
        forall|c: int|
            0 <= c < w.len() ==> (#[trigger] queue_model(w, q)[c]).len() >= w[c].len(),
        forall|c: int, i: int|
            0 <= c < w.len() && 0 <= i < w[c].len() ==> queue_model(w, q)[c][i] == w[c][i],
    decreases q.len(),
{
    if q.len() > 0 {
        let w1 = append_frames(w, q[0]);
        let q1 = q.drop_first();
        lemma_queue_model_prefix(w1, q1);
        assert(queue_model(w, q) == queue_model(w1, q1));
        assert forall|c: int|
            0 <= c < w.len() implies (#[trigger] queue_model(w, q)[c]).len() >= w[c].len() by {
            assert(w1[c].len() == w[c].len() + q[0][c].len());
            assert(queue_model(w1, q1)[c].len() >= w1[c].len());
        }
        assert forall|c: int, i: int|
            0 <= c < w.len() && 0 <= i < w[c].len() implies queue_model(w, q)[c][i] == w[c][
            i] by {
            assert(w1[c][i] == w[c][i]);
            assert(queue_model(w1, q1)[c][i] == w1[c][i]);
        }
    }
}

/// One block further down the queue is one block's worth of frames
/// further into the drained signal.
proof fn lemma_block_offset(k: int, bf: int)
    by (nonlinear_arith)
    ensures
        k * bf == (k - 1) * bf + bf,
        0 * bf == 0,
{
}

/// Round trip in full, for any number of equal-length blocks: the write
/// stream's contracts fix the persisted signal as `queue_model` of what
/// was already persisted and the queued blocks, in order; in that
/// signal, sample `i` of channel `c` of the `k`-th block stands at frame
/// `k·bf + i` past what was already persisted, unchanged. Reading the
/// signal back then reproduces those samples exactly (`lemma_round_trip`
/// and `read`'s contract).
pub proof fn lemma_written_blocks_round_trip<S>(
    w: Seq<Seq<S>>,
    q: Seq<Seq<Seq<S>>>,
    bf: nat,
    k: int,
    c: int,
    i: int,
)
    requires
        forall|j: int| 0 <= j < q.len() ==> (#[trigger] q[j]).len() == w.len(),
        forall|j: int, ch: int|
            0 <= j < q.len() && 0 <= ch < w.len() ==> (#[trigger] q[j][ch]).len() == bf,
        0 <= c < w.len(),
        0 <= k < q.len(),
        0 <= i < bf,
    ensures
        queue_model(w, q)[c][w[c].len() + k * bf + i] == q[k][c][i],
    decreases k,
{
    let w1 = append_frames(w, q[0]);
    let q1 = q.drop_first();
    assert(queue_model(w, q) == queue_model(w1, q1));
    lemma_block_offset(k, bf as int);
    if k == 0 {
        assert(w1[c][w[c].len() + i] == q[0][c][i]);
        lemma_queue_model_prefix(w1, q1);
        assert(queue_model(w1, q1)[c][w[c].len() + i] == w1[c][w[c].len() + i]);
    } else {
        assert forall|j: int| 0 <= j < q1.len() implies (#[trigger] q1[j]).len() == w1.len() by {
            assert(q1[j] == q[j + 1]);
        }
        assert forall|j: int, ch: int|
            0 <= j < q1.len() && 0 <= ch < w1.len() implies (#[trigger] q1[j][ch]).len()
            == bf by {
            assert(q1[j] == q[j + 1]);
        }
        lemma_written_blocks_round_trip(w1, q1, bf, k - 1, c, i);
        assert(w1[c].len() == w[c].len() + bf);
        assert(q1[k - 1] == q[k]);
    }
}

} // verus!
