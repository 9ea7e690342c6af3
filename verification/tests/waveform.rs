use stream_playback::gui::waveform::{
    build_frame, downsample, WaveformAction, WaveformEvent, WaveformFeed, POINTS_PER_FRAME,
};

#[test]
fn nothing_to_thin_out() {
    assert!(downsample(&[], 100).is_empty());
    assert!(downsample(&[], 0).is_empty());
}

#[test]
fn few_samples_are_kept() {
    assert_eq!(downsample(&[3, -4, 5], 100), vec![3, -4, 5]);
    assert_eq!(downsample(&[3, -4, 5], 3), vec![3, -4, 5]);
}

#[test]
fn each_point_is_the_loudest_of_its_chunk() {
    assert_eq!(downsample(&[1, -5, 2, 7, -7, 3, 9], 3), vec![-5, -7, 9]);
    // Of two that are equally loud, the last one is taken.
    assert_eq!(downsample(&[5, -5, 5, -5], 1), vec![-5]);
    assert_eq!(downsample(&[-5, 5, 0], 1), vec![5]);
    assert_eq!(downsample(&[i16::MAX, i16::MIN, i16::MAX], 1), vec![i16::MIN]);
}

#[test]
fn points_are_bounded() {
    for n in 1..350 {
        let samples: Vec<i16> = (0..n).collect();
        let points = downsample(&samples, 100);
        assert!(points.len() <= 100 && !points.is_empty());
        assert_eq!(points.last(), samples.last());
    }
    assert_eq!(downsample(&[1; 101], 100).len(), 51);
}

#[test]
fn frame_layout() {
    let frame = build_frame(vec![1, -2, i16::MIN], 0x0102030405060708, 0x1_0000_0000 + 0x0a0b0c0d);
    assert_eq!(
        frame,
        vec![
            0x0d, 0x0c, 0x0b, 0x0a, 0x08, 0x07, 0x06, 0x05, 0x04, 0x03, 0x02, 0x01, 0x01, 0x00,
            0xfe, 0xff, 0x00, 0x80
        ]
    );
    assert_eq!(build_frame(vec![], 0, 0), vec![0u8; 12]);
}

#[test]
fn frame_can_be_read_back() {
    let samples: Vec<i16> = (0..50).map(|i| i * 611 - 15000).collect();
    let frame = build_frame(samples.clone(), u64::MAX - 3, 1_700_000_000_123);
    assert_eq!(frame.len(), 12 + 2 * samples.len());
    let ts = u32::from_le_bytes([frame[0], frame[1], frame[2], frame[3]]);
    assert_eq!(ts, 1_700_000_000_123u64 as u32);
    let points: Vec<i16> =
        frame[12..].chunks(2).map(|c| i16::from_le_bytes([c[0], c[1]])).collect();
    assert_eq!(points, samples);
}

#[test]
fn feed_gathers_until_the_tick() {
    let mut feed = WaveformFeed::new();
    assert!(matches!(feed.step(WaveformEvent::Samples(vec![1, 2])), WaveformAction::Continue));
    assert!(matches!(feed.step(WaveformEvent::Lagged), WaveformAction::Continue));
    assert!(matches!(feed.step(WaveformEvent::Samples(vec![3])), WaveformAction::Continue));
    assert_eq!(feed.accum, vec![1, 2, 3]);
    let tick = WaveformEvent::Tick { produced: 10, played: 4, unix_millis: 77 };
    match feed.step(tick) {
        WaveformAction::Send(frame) => assert_eq!(frame, build_frame(vec![1, 2, 3], 6, 77)),
        other => panic!("no frame: {:?}", other),
    }
    assert!(feed.accum.is_empty());
    let tick = WaveformEvent::Tick { produced: 10, played: 4, unix_millis: 127 };
    assert!(matches!(feed.step(tick), WaveformAction::Continue));
}

#[test]
fn feed_thins_out_and_never_shows_less_than_nothing() {
    let mut feed = WaveformFeed::new();
    let samples: Vec<i16> = (0..800).collect();
    feed.step(WaveformEvent::Samples(samples.clone()));
    let tick = WaveformEvent::Tick { produced: 4, played: 10, unix_millis: 0 };
    match feed.step(tick) {
        WaveformAction::Send(frame) => {
            assert_eq!(frame, build_frame(downsample(&samples, POINTS_PER_FRAME), 0, 0));
            assert_eq!(frame.len(), 12 + 2 * 100);
        }
        other => panic!("no frame: {:?}", other),
    }
}

#[test]
fn feed_stops_with_the_stream() {
    let mut feed = WaveformFeed::new();
    feed.step(WaveformEvent::Samples(vec![1]));
    assert!(matches!(feed.step(WaveformEvent::Closed), WaveformAction::Stop));
    assert_eq!(feed.accum, vec![1]);
}
