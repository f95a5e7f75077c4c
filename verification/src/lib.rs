//! Verified core of a media playback pipeline.
//!
//! A player decodes a container file and presents two independently paced
//! streams: video frames shown at the times their packet timestamps encode,
//! and audio samples pulled by a real-time device callback. Demuxing,
//! decoding, pixel presentation and device I/O belong to external
//! collaborators; this crate holds the logic between them, proved correct:
//!
//! * [`clock`] — exact conversion of stream timestamps to nanoseconds and
//!   the pacing decision that throttles video to its encoded rate;
//! * [`audio`] — the hand-off buffer that carries decoded audio frames from
//!   the decode thread to the real-time callback, with a partial-consumption
//!   cursor and silence on underrun;
//! * [`dispatch`] — stream selection and the per-packet decisions of the
//!   decode loop: routing, error tolerance, and the pacing state update.

pub mod audio;
pub mod clock;
pub mod dispatch;
