use acytel::decode::{
    plan_decoder, run_events, DecodeErrorKind, DecodeEvent, DecodeSession, DecoderPlan,
    PcmSummary, ProbeFacts, TrackFacts,
};

fn good_track() -> TrackFacts {
    TrackFacts {
        track_id: 1,
        sample_rate: Some(44_100),
        channel_count: Some(2),
        codec_supported: true,
    }
}

#[test]
fn unknown_format_rejected() {
    let p = ProbeFacts { format_known: false, default_track: Some(good_track()) };
    assert_eq!(plan_decoder(&p), Err(DecodeErrorKind::UnknownFormat));
}

#[test]
fn missing_default_track_rejected() {
    let p = ProbeFacts { format_known: true, default_track: None };
    assert_eq!(plan_decoder(&p), Err(DecodeErrorKind::NoDefaultTrack));
}

#[test]
fn missing_sample_rate_rejected() {
    let mut t = good_track();
    t.sample_rate = None;
    let p = ProbeFacts { format_known: true, default_track: Some(t) };
    assert_eq!(plan_decoder(&p), Err(DecodeErrorKind::MissingSampleRate));
}

#[test]
fn missing_channel_layout_rejected() {
    let mut t = good_track();
    t.channel_count = None;
    let p = ProbeFacts { format_known: true, default_track: Some(t) };
    assert_eq!(plan_decoder(&p), Err(DecodeErrorKind::MissingChannelLayout));
    let mut z = good_track();
    z.channel_count = Some(0);
    let p0 = ProbeFacts { format_known: true, default_track: Some(z) };
    assert_eq!(plan_decoder(&p0), Err(DecodeErrorKind::MissingChannelLayout));
}

#[test]
fn unsupported_codec_rejected() {
    let mut t = good_track();
    t.codec_supported = false;
    let p = ProbeFacts { format_known: true, default_track: Some(t) };
    assert_eq!(plan_decoder(&p), Err(DecodeErrorKind::UnsupportedCodec));
}

#[test]
fn well_formed_probe_accepted() {
    let p = ProbeFacts { format_known: true, default_track: Some(good_track()) };
    assert_eq!(
        plan_decoder(&p),
        Ok(DecoderPlan { track_id: 1, sample_rate: 44_100, channel_count: 2 })
    );
}

#[test]
fn mono_second_counts_every_sample() {
    // One second at 44.1 kHz mono: 43 full packets of 1024 samples and one
    // of 68, as a single-channel stream delivers them.
    let plan = DecoderPlan { track_id: 1, sample_rate: 44_100, channel_count: 1 };
    let mut events = Vec::new();
    for _ in 0..43 {
        events.push(DecodeEvent::Frame { track_id: 1, sample_count: 1024, channel_count: 1 });
    }
    events.push(DecodeEvent::Frame { track_id: 1, sample_count: 68, channel_count: 1 });
    events.push(DecodeEvent::EndOfStream);
    assert_eq!(
        run_events(&plan, &events),
        Ok(PcmSummary { sample_rate: 44_100, mono_len: 44_100 })
    );
}

#[test]
fn stereo_downmix_counts_frames_not_samples() {
    // Stereo packets of 1152 frames arrive as 2304 interleaved samples;
    // each frame downmixes to one mono sample.
    let plan = DecoderPlan { track_id: 1, sample_rate: 44_100, channel_count: 2 };
    let mut events = Vec::new();
    for _ in 0..38 {
        events.push(DecodeEvent::Frame { track_id: 1, sample_count: 2304, channel_count: 2 });
    }
    events.push(DecodeEvent::EndOfStream);
    assert_eq!(
        run_events(&plan, &events),
        Ok(PcmSummary { sample_rate: 44_100, mono_len: 38 * 1152 })
    );
}

#[test]
fn foreign_track_packets_discarded() {
    let plan = DecoderPlan { track_id: 1, sample_rate: 48_000, channel_count: 2 };
    let events = vec![
        DecodeEvent::Frame { track_id: 2, sample_count: 4096, channel_count: 2 },
        DecodeEvent::Frame { track_id: 1, sample_count: 10, channel_count: 2 },
        DecodeEvent::EndOfStream,
    ];
    assert_eq!(
        run_events(&plan, &events),
        Ok(PcmSummary { sample_rate: 48_000, mono_len: 5 })
    );
}

#[test]
fn corrupt_packet_skipped() {
    let plan = DecoderPlan { track_id: 1, sample_rate: 48_000, channel_count: 2 };
    let events = vec![
        DecodeEvent::CorruptPacket { track_id: 1 },
        DecodeEvent::Frame { track_id: 1, sample_count: 8, channel_count: 2 },
        DecodeEvent::CorruptPacket { track_id: 1 },
        DecodeEvent::EndOfStream,
    ];
    assert_eq!(
        run_events(&plan, &events),
        Ok(PcmSummary { sample_rate: 48_000, mono_len: 4 })
    );
}

#[test]
fn io_error_is_fatal() {
    let plan = DecoderPlan { track_id: 1, sample_rate: 48_000, channel_count: 2 };
    let events = vec![
        DecodeEvent::Frame { track_id: 1, sample_count: 8, channel_count: 2 },
        DecodeEvent::IoError,
    ];
    assert_eq!(run_events(&plan, &events), Err(DecodeErrorKind::FatalIo));
}

#[test]
fn decoder_error_is_fatal() {
    let plan = DecoderPlan { track_id: 1, sample_rate: 48_000, channel_count: 2 };
    let events = vec![DecodeEvent::DecoderError];
    assert_eq!(run_events(&plan, &events), Err(DecodeErrorKind::FatalDecode));
}

#[test]
fn incomplete_trailing_group_dropped() {
    // 5 interleaved samples in 2 channels hold only 2 complete frames.
    let plan = DecoderPlan { track_id: 1, sample_rate: 8_000, channel_count: 2 };
    let events = vec![
        DecodeEvent::Frame { track_id: 1, sample_count: 5, channel_count: 2 },
        DecodeEvent::EndOfStream,
    ];
    assert_eq!(
        run_events(&plan, &events),
        Ok(PcmSummary { sample_rate: 8_000, mono_len: 2 })
    );
}

#[test]
fn session_steps_and_stops() {
    let plan = DecoderPlan { track_id: 7, sample_rate: 22_050, channel_count: 1 };
    let mut s = DecodeSession::begin(&plan);
    assert!(s.on_event(&DecodeEvent::Frame { track_id: 7, sample_count: 3, channel_count: 1 }));
    assert!(s.on_event(&DecodeEvent::CorruptPacket { track_id: 7 }));
    assert!(!s.on_event(&DecodeEvent::EndOfStream));
    assert_eq!(
        s.summary(),
        Ok(PcmSummary { sample_rate: 22_050, mono_len: 3 })
    );
}
