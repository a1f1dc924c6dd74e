//! Planning and accounting for the audio decode core.
//!
//! The codec library's probing and per-packet decoding happen outside;
//! their observations arrive here as plain values. This module decides how
//! a decode session is constructed, classifies every packet-loop event, and
//! accounts exactly for the mono samples the downmix emits: one sample per
//! input frame, whatever the channel count.

use vstd::prelude::*;

verus! {

/// Why construction or decoding of an audio buffer failed.
#[derive(Debug, Clone, Copy, PartialEq, Eq, Structural)]
pub enum DecodeErrorKind {
    /// No container format probe matched the buffer.
    UnknownFormat,
    /// The container exposes no default audio track.
    NoDefaultTrack,
    /// The track's codec parameters declare no sample rate.
    MissingSampleRate,
    /// The track's codec parameters declare no channel layout.
    MissingChannelLayout,
    /// No decoder is registered for the track's codec.
    UnsupportedCodec,
    /// The packet source failed other than by a clean end of stream.
    FatalIo,
    /// The decoder failed other than on a single malformed packet.
    FatalDecode,
}

/// What the default track declares, as plain values.
#[derive(Debug, Clone, Copy, PartialEq, Eq)]
pub struct TrackFacts {
    /// The container's identifier for the track.
    pub track_id: u32,
    /// The declared sample rate, when present.
    pub sample_rate: Option<u32>,
    /// The declared number of channels, when present.
    pub channel_count: Option<u32>,
    /// A decoder is registered for the track's codec.
    pub codec_supported: bool,
}

/// What probing the container reported, as plain values.
#[derive(Debug, Clone, Copy, PartialEq, Eq)]
pub struct ProbeFacts {
    /// A container format matched the buffer.
    pub format_known: bool,
    /// The default audio track, when the container exposes one.
    pub default_track: Option<TrackFacts>,
}

/// The immutable parameters a decode session runs with. Once constructed,
/// the track identifier and sample rate never change.
#[derive(Debug, Clone, Copy, PartialEq, Eq, Structural)]
pub struct DecoderPlan {
    pub track_id: u32,
    pub sample_rate: u32,
    pub channel_count: u32,
}

/// How a decode session is constructed from the probe's findings, with each
/// failure mapped to its own error: an unknown container, a missing default
/// track, missing or empty codec parameters, an unregistered codec.
pub open spec fn spec_plan_decoder(p: ProbeFacts) -> Result<DecoderPlan, DecodeErrorKind> {
    if !p.format_known {
        Err(DecodeErrorKind::UnknownFormat)
    } else {
        match p.default_track {
            None => Err(DecodeErrorKind::NoDefaultTrack),
            Some(t) => match t.sample_rate {
                None => Err(DecodeErrorKind::MissingSampleRate),
                Some(sr) => match t.channel_count {
                    None => Err(DecodeErrorKind::MissingChannelLayout),
                    Some(ch) => if ch == 0 {
                        Err(DecodeErrorKind::MissingChannelLayout)
                    } else if !t.codec_supported {
                        Err(DecodeErrorKind::UnsupportedCodec)
                    } else {
                        Ok(DecoderPlan { track_id: t.track_id, sample_rate: sr, channel_count: ch })
                    },
                },
            },
        }
    }
}

/// Decides whether a decode session can be constructed, and with which
/// parameters.
pub fn plan_decoder(p: &ProbeFacts) -> (r: Result<DecoderPlan, DecodeErrorKind>)
    ensures
        r == spec_plan_decoder(*p),
{
    if !p.format_known {
        return Err(DecodeErrorKind::UnknownFormat);
    }
    match p.default_track {
        None => Err(DecodeErrorKind::NoDefaultTrack),
        Some(t) => match t.sample_rate {
            None => Err(DecodeErrorKind::MissingSampleRate),
            Some(sr) => match t.channel_count {
                None => Err(DecodeErrorKind::MissingChannelLayout),
                Some(ch) => {
                    if ch == 0 {
                        Err(DecodeErrorKind::MissingChannelLayout)
                    } else if !t.codec_supported {
                        Err(DecodeErrorKind::UnsupportedCodec)
                    } else {
                        Ok(DecoderPlan { track_id: t.track_id, sample_rate: sr, channel_count: ch })
                    }
                },
            },
        },
    }
}

/// One observation from the packet loop, as plain values.
#[derive(Debug, Clone, Copy, PartialEq, Eq)]
pub enum DecodeEvent {
    /// A packet of track `track_id` decoded into `sample_count` interleaved
    /// samples laid out in `channel_count` channels.
    Frame { track_id: u32, sample_count: usize, channel_count: usize },
    /// A packet was malformed inside an otherwise-valid stream; it is
    /// skipped and the loop goes on.
    CorruptPacket { track_id: u32 },
    /// The packet source reached its clean end.
    EndOfStream,
    /// The packet source failed.
    IoError,
    /// The decoder failed fatally.
    DecoderError,
}

/// Phase of a decode session.
#[derive(Debug, Clone, Copy, PartialEq, Eq, Structural)]
pub enum DecodePhase {
    /// Packets are still being consumed.
    Running,
    /// The stream ended cleanly.
    Drained,
    /// The session ended on a fatal error.
    Failed { kind: DecodeErrorKind },
}

/// Mono samples an interleaved group of `sample_count` samples in
/// `channel_count` channels downmixes to: one sample per complete frame.
/// A single channel passes through unchanged.
pub open spec fn spec_mono_count(sample_count: nat, channel_count: nat) -> nat {
    if channel_count > 1 {
        sample_count / channel_count
    } else {
        sample_count
    }
}

/// One full-file decode in progress: the immutable track parameters and
/// the running count of emitted mono samples.
#[derive(Debug, Clone, Copy, PartialEq, Eq, Structural)]
pub struct DecodeSession {
    pub track_id: u32,
    pub sample_rate: u32,
    pub channel_count: u32,
    pub mono_len: usize,
    pub phase: DecodePhase,
}

/// The result of a finished decode: the container-declared sample rate and
/// the number of mono samples emitted.
#[derive(Debug, Clone, Copy, PartialEq, Eq, Structural)]
pub struct PcmSummary {
    pub sample_rate: u32,
    pub mono_len: usize,
}

impl DecodeSession {
    /// Opens a session with the plan's parameters and nothing accumulated.
    pub fn begin(plan: &DecoderPlan) -> (s: DecodeSession)
        ensures
            s.track_id == plan.track_id,
            s.sample_rate == plan.sample_rate,
            s.channel_count == plan.channel_count,
            s.mono_len == 0,
            s.phase is Running,
    {
        DecodeSession {
            track_id: plan.track_id,
            sample_rate: plan.sample_rate,
            channel_count: plan.channel_count,
            mono_len: 0,
            phase: DecodePhase::Running,
        }
    }

    /// Feeds one packet-loop observation and reports whether the loop goes
    /// on. A frame of another track is discarded; a matching frame adds
    /// exactly one mono sample per complete input frame; a malformed packet
    /// is skipped; the clean end of stream drains the session; anything
    /// else fails it. The track identifier and sample rate never change.
    pub fn on_event(&mut self, ev: &DecodeEvent) -> (more: bool)
        requires
            old(self).phase is Running,
            match *ev {
                DecodeEvent::Frame { track_id, sample_count, channel_count } => track_id == old(self).track_id ==> old(self).mono_len + spec_mono_count(
                    sample_count as nat,
                    channel_count as nat,
                ) <= usize::MAX,
                _ => true,
            },
        ensures
            final(self).track_id == old(self).track_id,
            final(self).sample_rate == old(self).sample_rate,
            final(self).channel_count == old(self).channel_count,
            match *ev {
                DecodeEvent::Frame { track_id, sample_count, channel_count } => {
                    &&& final(self).phase is Running
                    &&& (track_id == old(self).track_id ==> final(self).mono_len == old(self).mono_len + spec_mono_count(sample_count as nat, channel_count as nat))
                    &&& (track_id != old(self).track_id ==> final(self).mono_len == old(self).mono_len)
                },
                DecodeEvent::CorruptPacket { .. } => final(self).phase is Running && final(self).mono_len == old(self).mono_len,
                DecodeEvent::EndOfStream => final(self).phase is Drained && final(self).mono_len
                    == old(self).mono_len,
                DecodeEvent::IoError => final(self).phase == (DecodePhase::Failed {
                    kind: DecodeErrorKind::FatalIo,
                }) && final(self).mono_len == old(self).mono_len,
                DecodeEvent::DecoderError => final(self).phase == (DecodePhase::Failed {
                    kind: DecodeErrorKind::FatalDecode,
                }) && final(self).mono_len == old(self).mono_len,
            },
            more <==> final(self).phase is Running,
    {
        match ev {
            DecodeEvent::Frame { track_id, sample_count, channel_count } => {
                if *track_id == self.track_id {
                    let add: usize = if *channel_count > 1 {
                        *sample_count / *channel_count
                    } else {
                        *sample_count
                    };
                    self.mono_len = self.mono_len + add;
                }
                true
            },
            DecodeEvent::CorruptPacket { .. } => true,
            DecodeEvent::EndOfStream => {
                self.phase = DecodePhase::Drained;
                false
            },
            DecodeEvent::IoError => {
                self.phase = DecodePhase::Failed { kind: DecodeErrorKind::FatalIo };
                false
            },
            DecodeEvent::DecoderError => {
                self.phase = DecodePhase::Failed { kind: DecodeErrorKind::FatalDecode };
                false
            },
        }
    }

    /// The finished session's result: the summary of a drained session, or
    /// the error that failed it.
    pub fn summary(&self) -> (r: Result<PcmSummary, DecodeErrorKind>)
        requires
            !(self.phase is Running),
        ensures
            self.phase is Drained ==> r == Ok::<PcmSummary, DecodeErrorKind>(
                PcmSummary { sample_rate: self.sample_rate, mono_len: self.mono_len },
            ),
            self.phase matches DecodePhase::Failed { kind } ==> r == Err::<
                PcmSummary,
                DecodeErrorKind,
            >(kind),
    {
        match self.phase {
            DecodePhase::Drained => Ok(
                PcmSummary { sample_rate: self.sample_rate, mono_len: self.mono_len },
            ),
            DecodePhase::Failed { kind } => Err(kind),
            DecodePhase::Running => Err(DecodeErrorKind::FatalIo),
        }
    }
}

/// Total mono samples that the matching frames of `events` yield before the
/// first terminal event.
pub open spec fn spec_mono_total(events: Seq<DecodeEvent>, track_id: u32) -> nat
    decreases events.len(),
{
    if events.len() == 0 {
        0
    } else {
        match events[0] {
            DecodeEvent::Frame { track_id: t, sample_count, channel_count } => (if t == track_id {
                spec_mono_count(sample_count as nat, channel_count as nat)
            } else {
                0
            }) + spec_mono_total(events.drop_first(), track_id),
            DecodeEvent::CorruptPacket { .. } => spec_mono_total(events.drop_first(), track_id),
            _ => 0,
        }
    }
}

/// How a complete packet loop over `events` ends: cleanly at the first
/// end-of-stream, or on the first fatal error. `None` when no terminal
/// event occurs.
pub open spec fn spec_decode_outcome(events: Seq<DecodeEvent>) -> Option<
    Result<(), DecodeErrorKind>,
>
    decreases events.len(),
{
    if events.len() == 0 {
        None
    } else {
        match events[0] {
            DecodeEvent::Frame { .. } => spec_decode_outcome(events.drop_first()),
            DecodeEvent::CorruptPacket { .. } => spec_decode_outcome(events.drop_first()),
            DecodeEvent::EndOfStream => Some(Ok(())),
            DecodeEvent::IoError => Some(Err(DecodeErrorKind::FatalIo)),
            DecodeEvent::DecoderError => Some(Err(DecodeErrorKind::FatalDecode)),
        }
    }
}

/// Runs a whole decode over a recorded packet loop. For every clean decode
/// the summary holds exactly the total input frame count of the selected
/// track — the downmix emits one mono sample per frame — and the
/// container-declared sample rate, unchanged.
pub fn run_events(plan: &DecoderPlan, events: &Vec<DecodeEvent>) -> (r: Result<
    PcmSummary,
    DecodeErrorKind,
>)
    requires
        spec_decode_outcome(events@) is Some,
        spec_mono_total(events@, plan.track_id) <= usize::MAX,
    ensures
        spec_decode_outcome(events@) matches Some(out) ==> (match out {
            Ok(_) => r == Ok::<PcmSummary, DecodeErrorKind>(
                PcmSummary {
                    sample_rate: plan.sample_rate,
                    mono_len: spec_mono_total(events@, plan.track_id) as usize,
                },
            ),
            Err(k) => r == Err::<PcmSummary, DecodeErrorKind>(k),
        }),
{
    let mut session = DecodeSession::begin(plan);
    let mut i: usize = 0;
    proof {
        assert(events@.skip(0) =~= events@);
    }
    while i < events.len()
        invariant
            i <= events@.len(),
            session.phase is Running,
            session.track_id == plan.track_id,
            session.sample_rate == plan.sample_rate,
            session.mono_len + spec_mono_total(events@.skip(i as int), plan.track_id)
                == spec_mono_total(events@, plan.track_id),
            spec_decode_outcome(events@.skip(i as int)) == spec_decode_outcome(events@),
            spec_decode_outcome(events@) is Some,
            spec_mono_total(events@, plan.track_id) <= usize::MAX,
        decreases events@.len() - i,
    {
        let ev = &events[i];
        proof {
            assert(events@.skip(i as int)[0] == events@[i as int]);
            assert(events@.skip(i as int).drop_first() =~= events@.skip(i as int + 1));
        }
        let more = session.on_event(ev);
        i += 1;
        if !more {
            proof {
                assert(spec_mono_total(events@.skip(i as int - 1), plan.track_id) == 0);
            }
            return session.summary();
        }
    }
    proof {
        assert(events@.skip(i as int) =~= Seq::<DecodeEvent>::empty());
    }
    session.summary()
}

} // verus!
