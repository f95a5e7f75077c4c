//! Audio hand-off buffer: carries decoded audio frames from the decode
//! thread to the real-time audio callback.
//!
//! The producer hands whole frames over; the consumer drains samples
//! through a partial-consumption cursor, one frame fully delivered before
//! the next begins. When the device asks for more samples than are pending
//! — an underrun, or a drain after the producer closed — the remainder of
//! the output is silence, never a blocking wait: the buffer itself does no
//! waiting of any kind, so the real-time thread's deadline is safe.

use vstd::prelude::*;

verus! {

/// One decoded audio frame: its samples in delivery order, 16-bit signed,
/// in the layout negotiated with the audio device.
pub struct AudioFrame {
    pub samples: Vec<i16>,
}

/// The samples of a run of frames, concatenated in order.
pub open spec fn frames_samples(fs: Seq<AudioFrame>) -> Seq<i16>
    decreases fs.len(),
{
    if fs.len() == 0 {
        Seq::empty()
    } else {
        fs.first().samples@ + frames_samples(fs.drop_first())
    }
}

/// Appending a frame to a run appends its samples to the concatenation.
pub proof fn lemma_frames_samples_push(fs: Seq<AudioFrame>, f: AudioFrame)
    ensures
        frames_samples(fs.push(f)) == frames_samples(fs) + f.samples@,
    decreases fs.len(),
{
    if fs.len() == 0 {
        assert(fs.push(f).drop_first() =~= Seq::<AudioFrame>::empty());
        assert(fs.push(f).first() == f);
        assert(frames_samples(Seq::<AudioFrame>::empty()) =~= Seq::<i16>::empty());
        assert(frames_samples(fs.push(f)) =~= frames_samples(fs) + f.samples@);
    } else {
        lemma_frames_samples_push(fs.drop_first(), f);
        assert(fs.push(f).drop_first() =~= fs.drop_first().push(f));
        assert(frames_samples(fs.push(f)) =~= frames_samples(fs) + f.samples@);
    }
}

/// `n` samples of silence.
pub open spec fn zeros(n: int) -> Seq<i16> {
    Seq::new(n as nat, |i: int| 0i16)
}

/// What one drain of `out_len` samples delivers when `avail` is pending:
/// the first `out_len` pending samples, padded with silence when fewer are
/// pending.
pub open spec fn filled(avail: Seq<i16>, out_len: int) -> Seq<i16> {
    if avail.len() >= out_len {
        avail.take(out_len)
    } else {
        avail + zeros(out_len - avail.len())
    }
}

/// The single-producer/single-consumer hand-off buffer together with the
/// consumer's partial-consumption cursor. The producer side appends whole
/// frames with `push` and announces the end of the stream with `close`;
/// the consumer side drains fixed-size output buffers with `fill`.
///
/// Capacity is unbounded, so a `push` never blocks the decode thread: the
/// decode thread is already throttled by video pacing, which keeps the
/// backlog near the natural audio lead, and occasional growth is preferred
/// to stalling decode behind the audio device.
pub struct AudioBuffer {
    /// Frames handed off and not yet begun, oldest first.
    pub queue: Vec<AudioFrame>,
    /// The samples of the frame being consumed.
    pub current: Vec<i16>,
    /// The cursor: samples of `current` before `pos` were delivered.
    pub pos: usize,
    /// The producer promised that no more frames will arrive.
    pub closed: bool,
}

impl AudioBuffer {
    /// The cursor never passes the end of the current frame.
    pub open spec fn wf(self) -> bool {
        self.pos <= self.current@.len()
    }

    /// Every sample handed off and not yet delivered, in delivery order.
    pub open spec fn pending(self) -> Seq<i16> {
        self.current@.skip(self.pos as int) + frames_samples(self.queue@)
    }

    /// An empty, open buffer.
    pub fn new() -> (b: AudioBuffer)
        ensures
            b.wf(),
            b.pending() == Seq::<i16>::empty(),
            !b.closed,
    {
        let b = AudioBuffer { queue: Vec::new(), current: Vec::new(), pos: 0, closed: false };
        proof {
            assert(b.pending() =~= Seq::<i16>::empty());
        }
        b
    }

    /// Producer side: hands one decoded frame over. The frame's samples
    /// join the end of the pending sequence; nothing already pending moves.
    pub fn push(&mut self, frame: AudioFrame)
        requires
            old(self).wf(),
            !old(self).closed,
        ensures
            final(self).wf(),
            !final(self).closed,
            final(self).pending() == old(self).pending() + frame.samples@,
    {
        proof {
            lemma_frames_samples_push(self.queue@, frame);
        }
        let ghost fsam = frame.samples@;
        self.queue.push(frame);
        proof {
            assert(self.pending() =~= old(self).pending() + fsam);
        }
    }

    /// Producer side: promises that no more frames will arrive. What is
    /// already pending stays and can still be drained.
    pub fn close(&mut self)
        requires
            old(self).wf(),
        ensures
            final(self).wf(),
            final(self).closed,
            final(self).pending() == old(self).pending(),
    {
        self.closed = true;
    }

    /// Consumer side, called from the real-time audio callback: produces
    /// exactly `out_len` samples. The pending samples come out in order,
    /// across frame boundaries, and whatever the pending sequence cannot
    /// cover is silence — an empty buffer (underrun, or drained after
    /// `close`) yields pure silence. The call never waits: it hands back
    /// what is there and returns.
    pub fn fill(&mut self, out_len: usize) -> (out: Vec<i16>)
        requires
            old(self).wf(),
        ensures
            final(self).wf(),
            final(self).closed == old(self).closed,
            out@.len() == out_len as int,
            out@ == filled(old(self).pending(), out_len as int),
            final(self).pending() == old(self).pending().skip(
                vstd::math::min(out_len as int, old(self).pending().len() as int),
            ),
            old(self).pending().len() == 0 ==> out@ == zeros(out_len as int),
    {
        let ghost orig: Seq<i16> = self.pending();
        let mut out: Vec<i16> = Vec::new();
        proof {
            assert(out@ =~= orig.take(0));
            assert(self.pending() =~= orig.skip(0));
        }
        while out.len() < out_len && (self.pos < self.current.len() || self.queue.len() > 0)
            invariant
                self.wf(),
                self.closed == old(self).closed,
                out@.len() <= out_len as int,
                out@.len() <= orig.len(),
                out@ == orig.take(out@.len() as int),
                self.pending() == orig.skip(out@.len() as int),
            decreases out_len - out@.len(), self.queue@.len(),
        {
            if self.pos == self.current.len() {
                let ghost prev = self.pending();
                let ghost old_q = self.queue@;
                let f = self.queue.remove(0);
                self.current = f.samples;
                self.pos = 0;
                proof {
                    assert(self.queue@ =~= old_q.drop_first());
                    assert(self.pending() =~= prev);
                }
            } else {
                let ghost n = out@.len() as int;
                let ghost cur = self.current@;
                let ghost p = self.pos as int;
                let ghost rest = frames_samples(self.queue@);
                proof {
                    assert(cur.skip(p).len() > 0);
                    assert(self.pending().len() > 0);
                    assert(n < orig.len());
                    assert((cur.skip(p) + rest)[0] == cur.skip(p)[0]);
                    assert(cur.skip(p)[0] == cur[p]);
                    assert(orig.skip(n)[0] == orig[n]);
                    assert(cur[p] == orig[n]);
                }
                let s = self.current[self.pos];
                out.push(s);
                self.pos = self.pos + 1;
                proof {
                    assert(s == orig[n]);
                    assert(out@ =~= orig.take(n + 1));
                    assert forall|j: int| 0 <= j < self.pending().len() implies self.pending()[j]
                        == orig.skip(n)[j + 1] by {
                        if j < cur.len() - (p + 1) {
                            assert((cur.skip(p + 1) + rest)[j] == cur.skip(p + 1)[j]);
                            assert(cur.skip(p + 1)[j] == cur[p + 1 + j]);
                            assert((cur.skip(p) + rest)[j + 1] == cur.skip(p)[j + 1]);
                            assert(cur.skip(p)[j + 1] == cur[p + 1 + j]);
                        } else {
                            assert((cur.skip(p + 1) + rest)[j] == rest[j - (cur.len() - (p
                                + 1))]);
                            assert((cur.skip(p) + rest)[j + 1] == rest[j + 1 - (cur.len() - p)]);
                        }
                        assert(orig.skip(n)[j + 1] == (cur.skip(p) + rest)[j + 1]);
                    }
                    assert forall|j: int| 0 <= j < self.pending().len() implies self.pending()[j]
                        == orig.skip(n + 1)[j] by {
                        assert(self.pending()[j] == orig.skip(n)[j + 1]);
                        assert(orig.skip(n)[j + 1] == orig[n + 1 + j]);
                        assert(orig.skip(n + 1)[j] == orig[n + 1 + j]);
                    }
                    assert(self.pending() =~= orig.skip(n + 1));
                }
            }
        }
        let ghost k = vstd::math::min(out_len as int, orig.len() as int);
        proof {
            if out@.len() < out_len as int {
                assert(self.pending().len() == 0);
            }
            assert(out@.len() == k);
        }
        while out.len() < out_len
            invariant
                self.wf(),
                self.closed == old(self).closed,
                self.pending() == orig.skip(k),
                k <= out@.len() <= out_len as int,
                out@ == orig.take(k) + zeros(out@.len() - k),
            decreases out_len - out@.len(),
        {
            out.push(0i16);
            proof {
                assert(out@ =~= orig.take(k) + zeros(out@.len() - k));
            }
        }
        proof {
            assert(out@ =~= filled(orig, out_len as int));
            if orig.len() == 0 {
                assert(out@ =~= zeros(out_len as int));
            }
        }
        out
    }
}

/// Successive drains reproduce the hand-off stream with no gap, repeat or
/// reordering: the samples that two consecutive drains deliver — a prefix
/// of the pending sequence, then a prefix of what that drain left — are
/// together one contiguous prefix of that same pending sequence.
pub proof fn lemma_consecutive_drains_concatenate(s: Seq<i16>, a: int, b: int)
    requires
        0 <= a,
        0 <= b,
        a + b <= s.len(),
    ensures
        s.take(a) + s.skip(a).take(b) == s.take(a + b),
{
    assert(s.take(a) + s.skip(a).take(b) =~= s.take(a + b));
}

} // verus!
