//! Decode-dispatch decisions: stream selection at startup and the
//! per-packet logic of the decode loop.
//!
//! The loop itself lives with the caller, which demuxes, decodes, renders
//! and sleeps; what is verified here is every decision between those
//! calls: which packet outcome renders a frame, which updates the pacing
//! clock, which feeds the audio hand-off buffer, and that a failed decode
//! is counted and skipped — never allowed to abort playback.

use crate::audio::AudioBuffer;
use crate::audio::AudioFrame;
use crate::clock::pts_nanos;
use crate::clock::pts_to_ns;
use crate::clock::sleep_needed;
use crate::clock::Clock;
use vstd::prelude::*;

verus! {

/// A fatal startup failure: the container offers no stream of a kind that
/// playback cannot do without.
#[derive(Clone, Copy, PartialEq, Eq, Structural, Debug)]
pub enum PlayerError {
    StreamNotFound,
}

/// The streams playback will use: the video stream is mandatory, the
/// audio stream optional — a container without audio plays silently.
#[derive(Clone, Copy, PartialEq, Eq, Structural, Debug)]
pub struct StreamPlan {
    pub video_index: usize,
    pub audio_index: Option<usize>,
}

/// Decides the playback plan from the demuxer's best-stream queries.
/// Succeeds exactly when a video stream exists; a missing audio stream is
/// tolerated by leaving the audio path disabled.
pub fn plan_streams(video: Option<usize>, audio: Option<usize>) -> (r: Result<
    StreamPlan,
    PlayerError,
>)
    ensures
        r is Ok <==> video is Some,
        r matches Ok(plan) ==> plan.video_index == video->0 && plan.audio_index == audio,
        r matches Err(e) ==> e == PlayerError::StreamNotFound,
{
    match video {
        Some(v) => Ok(StreamPlan { video_index: v, audio_index: audio }),
        None => Err(PlayerError::StreamNotFound),
    }
}

/// What one demuxed packet turned into at the decoder: the loop's input.
pub enum PacketOutcome {
    /// A video packet decoded into a frame carrying this timestamp
    /// (timestamps may be absent).
    VideoDecoded { pts: Option<i64> },
    /// A video packet the decoder accepted while emitting no frame
    /// (decoders may buffer internally).
    VideoSkipped,
    /// A video packet the decoder rejected.
    VideoFailed,
    /// An audio packet decoded into a frame of these samples.
    AudioDecoded { samples: Vec<i16> },
    /// An audio packet the decoder rejected.
    AudioFailed,
    /// A packet of neither selected stream.
    Ignored,
}

/// 1 when the outcome presents a video frame.
pub open spec fn renders(p: PacketOutcome) -> int {
    if p is VideoDecoded {
        1
    } else {
        0
    }
}

/// 1 when the outcome is a decode failure the loop tolerates.
pub open spec fn fails(p: PacketOutcome) -> int {
    if p is VideoFailed || p is AudioFailed {
        1
    } else {
        0
    }
}

/// The audio samples the outcome hands off (none for video outcomes).
pub open spec fn samples_of(p: PacketOutcome) -> Seq<i16> {
    match p {
        PacketOutcome::AudioDecoded { samples } => samples@,
        _ => Seq::empty(),
    }
}

/// How many of a run of outcomes present a video frame.
pub open spec fn rendered_of(ps: Seq<PacketOutcome>) -> int
    decreases ps.len(),
{
    if ps.len() == 0 {
        0
    } else {
        rendered_of(ps.drop_last()) + renders(ps.last())
    }
}

/// How many of a run of outcomes are tolerated decode failures.
pub open spec fn errors_of(ps: Seq<PacketOutcome>) -> int
    decreases ps.len(),
{
    if ps.len() == 0 {
        0
    } else {
        errors_of(ps.drop_last()) + fails(ps.last())
    }
}

/// All audio samples a run of outcomes hands off, in packet order.
pub open spec fn audio_of(ps: Seq<PacketOutcome>) -> Seq<i16>
    decreases ps.len(),
{
    if ps.len() == 0 {
        Seq::empty()
    } else {
        audio_of(ps.drop_last()) + samples_of(ps.last())
    }
}

/// The counts over any run stay within its length.
pub proof fn lemma_counts_bounds(ps: Seq<PacketOutcome>)
    ensures
        0 <= rendered_of(ps) <= ps.len(),
        0 <= errors_of(ps) <= ps.len(),
    decreases ps.len(),
{
    if ps.len() > 0 {
        lemma_counts_bounds(ps.drop_last());
    }
}

/// Extending a prefix by one outcome extends each aggregate by that
/// outcome's contribution.
pub proof fn lemma_outcome_prefix_step(ps: Seq<PacketOutcome>, i: int)
    requires
        0 <= i < ps.len(),
    ensures
        rendered_of(ps.take(i + 1)) == rendered_of(ps.take(i)) + renders(ps[i]),
        errors_of(ps.take(i + 1)) == errors_of(ps.take(i)) + fails(ps[i]),
        audio_of(ps.take(i + 1)) == audio_of(ps.take(i)) + samples_of(ps[i]),
{
    assert(ps.take(i + 1).drop_last() =~= ps.take(i));
    assert(ps.take(i + 1).last() == ps[i]);
}

/// Copies a frame's samples so a borrowed outcome can be handed off.
fn clone_samples(v: &Vec<i16>) -> (r: Vec<i16>)
    ensures
        r@ == v@,
{
    let mut r: Vec<i16> = Vec::new();
    let mut i: usize = 0;
    while i < v.len()
        invariant
            i <= v@.len(),
            r@ == v@.take(i as int),
        decreases v@.len() - i,
    {
        let s = v[i];
        r.push(s);
        i = i + 1;
        proof {
            assert(r@ =~= v@.take(i as int));
        }
    }
    proof {
        assert(v@.take(v@.len() as int) =~= v@);
    }
    r
}

/// The state the decode loop carries between packets: the pacing clock,
/// the audio hand-off buffer, the stream's fixed time base, and the
/// counters of frames presented and failures tolerated.
pub struct Pipeline {
    pub clock: Clock,
    pub audio: AudioBuffer,
    pub tb_num: i32,
    pub tb_den: i32,
    pub frames_rendered: u64,
    pub decode_errors: u64,
}

impl Pipeline {
    /// The time base is a valid rational and both halves are well formed.
    pub open spec fn wf(self) -> bool {
        self.tb_den > 0 && self.clock.wf() && self.audio.wf()
    }

    /// A fresh pipeline for a stream with time base `tb_num / tb_den`.
    pub fn new(tb_num: i32, tb_den: i32) -> (p: Pipeline)
        requires
            tb_den > 0,
        ensures
            p.wf(),
            p.tb_num == tb_num,
            p.tb_den == tb_den,
            p.clock.prev is None,
            p.audio.pending() == Seq::<i16>::empty(),
            !p.audio.closed,
            p.frames_rendered == 0,
            p.decode_errors == 0,
    {
        Pipeline {
            clock: Clock::new(),
            audio: AudioBuffer::new(),
            tb_num,
            tb_den,
            frames_rendered: 0,
            decode_errors: 0,
        }
    }

    /// A successfully decoded video frame: it is presented (the render
    /// count grows) and, when it carries a timestamp, the clock paces it —
    /// the returned wait is what `sleep_needed` asks for, and the clock is
    /// re-based on the frame's time. A frame without a timestamp cannot be
    /// paced: it is presented at once and the clock is left untouched, so
    /// the next timestamped frame paces against the last paced one.
    pub fn handle_video_frame(&mut self, pts: Option<i64>, elapsed_ns: u128) -> (sleep_ns: u128)
        requires
            old(self).wf(),
            old(self).frames_rendered < u64::MAX,
        ensures
            final(self).wf(),
            final(self).frames_rendered == old(self).frames_rendered + 1,
            final(self).decode_errors == old(self).decode_errors,
            final(self).audio == old(self).audio,
            final(self).tb_num == old(self).tb_num,
            final(self).tb_den == old(self).tb_den,
            pts matches Some(t) ==> {
                let ns = pts_nanos(t as int, old(self).tb_num as int, old(self).tb_den as int);
                &&& final(self).clock.prev == Some(ns as i128)
                &&& sleep_ns as int == sleep_needed(old(self).clock.prev, ns as i128, elapsed_ns)
            },
            pts is None ==> final(self).clock == old(self).clock && sleep_ns == 0,
    {
        self.frames_rendered = self.frames_rendered + 1;
        match pts {
            Some(t) => {
                let ns = pts_to_ns(t, self.tb_num, self.tb_den);
                self.clock.pace(ns, elapsed_ns)
            },
            None => 0,
        }
    }

    /// A packet whose decode failed: counted and skipped. Nothing else of
    /// the state moves — the loop goes on with the next packet.
    pub fn handle_decode_error(&mut self)
        requires
            old(self).wf(),
            old(self).decode_errors < u64::MAX,
        ensures
            final(self).wf(),
            final(self).decode_errors == old(self).decode_errors + 1,
            final(self).frames_rendered == old(self).frames_rendered,
            final(self).audio == old(self).audio,
            final(self).clock == old(self).clock,
            final(self).tb_num == old(self).tb_num,
            final(self).tb_den == old(self).tb_den,
    {
        self.decode_errors = self.decode_errors + 1;
    }

    /// A successfully decoded audio frame: its samples join the hand-off
    /// buffer, behind everything already pending.
    pub fn handle_audio_samples(&mut self, samples: Vec<i16>)
        requires
            old(self).wf(),
            !old(self).audio.closed,
        ensures
            final(self).wf(),
            !final(self).audio.closed,
            final(self).audio.pending() == old(self).audio.pending() + samples@,
            final(self).clock == old(self).clock,
            final(self).frames_rendered == old(self).frames_rendered,
            final(self).decode_errors == old(self).decode_errors,
            final(self).tb_num == old(self).tb_num,
            final(self).tb_den == old(self).tb_den,
    {
        self.audio.push(AudioFrame { samples });
    }

    /// The end of the packet sequence: the producer side of the hand-off
    /// buffer closes, so the audio consumer drains what is pending and
    /// then receives silence.
    pub fn end_of_stream(&mut self)
        requires
            old(self).wf(),
        ensures
            final(self).wf(),
            final(self).audio.closed,
            final(self).audio.pending() == old(self).audio.pending(),
            final(self).clock == old(self).clock,
            final(self).frames_rendered == old(self).frames_rendered,
            final(self).decode_errors == old(self).decode_errors,
            final(self).tb_num == old(self).tb_num,
            final(self).tb_den == old(self).tb_den,
    {
        self.audio.close();
    }

    /// One iteration of the decode loop, given what the decoder made of
    /// the packet: a decoded video frame is presented and paced, a decoded
    /// audio frame is handed off, a failure of either decoder is counted
    /// and tolerated, and anything else is ignored. Only a paced video
    /// frame can ask the caller to sleep.
    pub fn handle_packet(&mut self, packet: &PacketOutcome, elapsed_ns: u128) -> (sleep_ns: u128)
        requires
            old(self).wf(),
            old(self).frames_rendered < u64::MAX,
            old(self).decode_errors < u64::MAX,
            !old(self).audio.closed,
        ensures
            final(self).wf(),
            !final(self).audio.closed,
            final(self).tb_num == old(self).tb_num,
            final(self).tb_den == old(self).tb_den,
            final(self).frames_rendered == old(self).frames_rendered + renders(*packet),
            final(self).decode_errors == old(self).decode_errors + fails(*packet),
            final(self).audio.pending() == old(self).audio.pending() + samples_of(*packet),
            packet matches PacketOutcome::VideoDecoded { pts } ==> {
                &&& pts matches Some(t) ==> {
                    let ns = pts_nanos(
                        t as int,
                        old(self).tb_num as int,
                        old(self).tb_den as int,
                    );
                    &&& final(self).clock.prev == Some(ns as i128)
                    &&& sleep_ns as int == sleep_needed(
                        old(self).clock.prev,
                        ns as i128,
                        elapsed_ns,
                    )
                }
                &&& pts is None ==> final(self).clock == old(self).clock && sleep_ns == 0
            },
            !(*packet is VideoDecoded) ==> final(self).clock == old(self).clock && sleep_ns
                == 0,
    {
        let ghost pend = self.audio.pending();
        let sleep: u128 = match packet {
            PacketOutcome::VideoDecoded { pts } => self.handle_video_frame(*pts, elapsed_ns),
            PacketOutcome::VideoSkipped => 0,
            PacketOutcome::VideoFailed => {
                self.handle_decode_error();
                0
            },
            PacketOutcome::AudioDecoded { samples } => {
                let copied = clone_samples(samples);
                self.handle_audio_samples(copied);
                0
            },
            PacketOutcome::AudioFailed => {
                self.handle_decode_error();
                0
            },
            PacketOutcome::Ignored => 0,
        };
        proof {
            assert(self.audio.pending() =~= pend + samples_of(*packet));
        }
        sleep
    }

    /// The decode loop over a whole run of packet outcomes, as the caller
    /// drives it once per demuxed packet (the caller measures the elapsed
    /// wall-clock time for each step; a batch processed here spends none).
    /// Exactly the decoded video frames are presented and exactly the
    /// decode failures are counted — a corrupt packet among any number of
    /// valid ones costs nothing but its own frame, and the loop never
    /// aborts. The audio hand-off receives every decoded sample, in packet
    /// order.
    pub fn run(&mut self, packets: &Vec<PacketOutcome>)
        requires
            old(self).wf(),
            !old(self).audio.closed,
            old(self).frames_rendered + packets@.len() <= u64::MAX,
            old(self).decode_errors + packets@.len() <= u64::MAX,
        ensures
            final(self).wf(),
            !final(self).audio.closed,
            final(self).tb_num == old(self).tb_num,
            final(self).tb_den == old(self).tb_den,
            final(self).frames_rendered == old(self).frames_rendered + rendered_of(packets@),
            final(self).decode_errors == old(self).decode_errors + errors_of(packets@),
            final(self).audio.pending() == old(self).audio.pending() + audio_of(packets@),
    {
        let mut i: usize = 0;
        proof {
            assert(packets@.take(0) =~= Seq::<PacketOutcome>::empty());
            assert(self.audio.pending() =~= old(self).audio.pending() + audio_of(
                packets@.take(0),
            ));
        }
        while i < packets.len()
            invariant
                self.wf(),
                !self.audio.closed,
                self.tb_num == old(self).tb_num,
                self.tb_den == old(self).tb_den,
                i <= packets@.len(),
                old(self).frames_rendered + packets@.len() <= u64::MAX,
                old(self).decode_errors + packets@.len() <= u64::MAX,
                self.frames_rendered == old(self).frames_rendered + rendered_of(
                    packets@.take(i as int),
                ),
                self.decode_errors == old(self).decode_errors + errors_of(
                    packets@.take(i as int),
                ),
                self.audio.pending() == old(self).audio.pending() + audio_of(
                    packets@.take(i as int),
                ),
            decreases packets@.len() - i,
        {
            proof {
                lemma_counts_bounds(packets@.take(i as int));
                lemma_outcome_prefix_step(packets@, i as int);
            }
            let _ = self.handle_packet(&packets[i], 0);
            i = i + 1;
            proof {
                assert(self.audio.pending() =~= old(self).audio.pending() + audio_of(
                    packets@.take(i as int),
                ));
            }
        }
        proof {
            assert(packets@.take(packets@.len() as int) =~= packets@);
        }
    }
}

} // verus!
