use stream_playback::playback::{Playback, RING_PACKETS};

/// What is heard in mono frames, where `due` samples fall due at each of them.
fn play(playback: &mut Playback, due: &[u64]) -> Vec<i16> {
    let mut data = vec![99i16; due.len()];
    playback.render(due, 1, &mut data);
    data
}

#[test]
fn samples_are_heard_in_order_and_once() {
    let mut playback = Playback::new(4);
    playback.write(&[1, 2, 3]);
    playback.write(&[4]);
    assert_eq!(play(&mut playback, &[1, 1, 1]), vec![1, 2, 3]);
    assert_eq!(play(&mut playback, &[1]), vec![4]);
    assert_eq!(playback.positions(), (4, 4));
}

#[test]
fn empty_ring_is_silent() {
    let mut playback = Playback::new(1);
    assert_eq!(play(&mut playback, &[1, 0, 1]), vec![0, 0, 0]);
    playback.write(&[7]);
    assert_eq!(play(&mut playback, &[1, 0, 0, 1, 0]), vec![7, 7, 7, 0, 0]);
    assert_eq!(playback.positions(), (1, 1));
}

#[test]
fn slow_device_skips_samples() {
    let mut playback = Playback::new(8);
    playback.write(&[1, 2, 3, 4, 5, 6]);
    assert_eq!(play(&mut playback, &[1, 2, 2]), vec![1, 3, 5]);
    assert_eq!(playback.positions(), (6, 5));
    // More fall due than wait: silence, and only those that waited were played.
    assert_eq!(play(&mut playback, &[3]), vec![0]);
    assert_eq!(playback.positions(), (6, 6));
}

#[test]
fn fast_device_repeats_samples() {
    let mut playback = Playback::new(8);
    playback.write(&[1, 2, 3]);
    assert_eq!(play(&mut playback, &[1, 0, 0, 1, 0, 0, 1]), vec![1, 1, 1, 2, 2, 2, 3]);
}

#[test]
fn every_channel_gets_the_sample() {
    let mut playback = Playback::new(8);
    playback.write(&[10, 20]);
    let mut data = [99i16; 8];
    playback.render(&[1, 1], 3, &mut data);
    // The two values that are left over are no whole frame.
    assert_eq!(data, [10, 10, 10, 20, 20, 20, 99, 99]);
}

#[test]
fn splitting_a_buffer_changes_nothing() {
    let due = [1, 0, 2, 1, 0, 3, 1, 1];
    let mut whole = Playback::new(8);
    let mut parts = Playback::new(8);
    let samples = [5, -6, 7, -8, 9, 10, 11];
    whole.write(&samples);
    parts.write(&samples);
    let mut heard = play(&mut parts, &due[..3]);
    heard.extend(play(&mut parts, &due[3..]));
    assert_eq!(play(&mut whole, &due), heard);
    assert_eq!(whole.positions(), parts.positions());
}

#[test]
fn full_ring_drops_the_newest() {
    let mut playback = Playback::new(1);
    let samples: Vec<i16> = (1..=40).collect();
    playback.write(&samples);
    // Only what came into the ring is counted.
    assert_eq!(playback.positions(), (32, 0));
    let heard = play(&mut playback, &[1; 34]);
    assert_eq!(heard[..RING_PACKETS], samples[..RING_PACKETS]);
    assert_eq!(heard[RING_PACKETS..], [0, 0]);
    assert_eq!(playback.positions(), (32, 32));
}

#[test]
fn gauge_is_the_water_level() {
    let mut playback = Playback::new(1);
    // One more comes in than goes out each time, until the ring is full.
    for round in 0..50 {
        playback.write(&[1, 2, 3]);
        play(&mut playback, &[1, 1]);
        let (produced, played) = playback.positions();
        assert_eq!(produced - played, std::cmp::min(round + 1, 30));
    }
    // All that waits is heard, and nothing else.
    let mut waiting = 0;
    while play(&mut playback, &[1]) != vec![0] {
        waiting += 1;
    }
    assert_eq!(waiting, 30);
    let (produced, played) = playback.positions();
    assert_eq!(produced, played);
}

/// How many samples fall due at each frame, by the rates alone.
fn due_at_rates(stream_rate: u64, output_rate: u64, frames: u64) -> Vec<u64> {
    let by = |f: u64| f * stream_rate / output_rate + 1;
    (0..frames).map(|f| if f == 0 { by(0) } else { by(f) - by(f - 1) }).collect()
}

#[test]
fn resampling_is_nearest_neighbor() {
    let samples: Vec<i16> = (1..=20).map(|n| n * 100).collect();
    for (stream_rate, output_rate) in [(16000, 48000), (16000, 44100), (48000, 16000), (3, 2)] {
        let mut playback = Playback::new(1);
        playback.write(&samples);
        let heard = play(&mut playback, &due_at_rates(stream_rate, output_rate, 70));
        for (f, value) in heard.iter().enumerate() {
            let j = f * stream_rate as usize / output_rate as usize;
            assert_eq!(*value, samples.get(j).copied().unwrap_or(0));
        }
    }
    let mut playback = Playback::new(1);
    playback.write(&[7, 8, 9]);
    assert_eq!(
        play(&mut playback, &due_at_rates(2, 5, 10)),
        vec![7, 7, 7, 8, 8, 9, 9, 9, 0, 0]
    );
}

#[test]
fn ring_goes_round() {
    let mut playback = Playback::new(1);
    for n in 0..200i16 {
        playback.write(&[n, -n]);
        assert_eq!(play(&mut playback, &[1, 1]), vec![n, -n]);
    }
}
