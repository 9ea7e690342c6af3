//! The live waveform: samples are gathered, and twenty times a second they are thinned out and
//! sent to the browser.

use crate::bytes::law_le_round_trip;
use crate::bytes::law_sample_is_its_two_bytes;
use crate::bytes::law_sample_round_trip;
use crate::bytes::byte_span;
use crate::bytes::le_bytes;
use crate::bytes::le_i16;
use crate::bytes::le_value;
use crate::bytes::push_le;
use crate::bytes::push_sample;
use crate::bytes::to_unsigned;
use crate::stats::saturating_difference;
use vstd::math::abs;
use vstd::prelude::*;

verus! {

/// Time from one frame to the next, in milliseconds.
pub const FRAME_MS: u64 = 50;

/// No frame has more points than this.
pub const POINTS_PER_FRAME: usize = 100;

/// Bytes of a frame in front of its points.
pub const FRAME_HEADER_LEN: usize = 12;

/// How loud a sample is.
pub open spec fn loudness(sample: i16) -> int {
    if sample < 0 {
        -(sample as int)
    } else {
        sample as int
    }
}

/// The loudest of `samples`; of several, the last one.
pub open spec fn peak(samples: Seq<i16>) -> i16
    decreases samples.len(),
{
    if samples.len() <= 1 {
        samples[0]
    } else {
        let before = peak(samples.drop_last());
        if loudness(samples.last()) >= loudness(before) {
            samples.last()
        } else {
            before
        }
    }
}

/// The peaks of `samples`, taken in chunks of `chunk_size`; the last chunk may be shorter.
pub open spec fn chunk_peaks(samples: Seq<i16>, chunk_size: nat) -> Seq<i16>
    decreases samples.len(),
{
    if samples.len() == 0 || chunk_size == 0 {
        Seq::empty()
    } else if samples.len() <= chunk_size {
        seq![peak(samples)]
    } else {
        seq![peak(samples.take(chunk_size as int))] + chunk_peaks(
            samples.skip(chunk_size as int),
            chunk_size,
        )
    }
}

/// `a` divided by `b`, rounded up.
pub open spec fn quotient_up(a: nat, b: nat) -> nat {
    if a % b == 0 {
        a / b
    } else {
        a / b + 1
    }
}

/// `samples` thinned out to at most `points` points, each the peak of a chunk.
pub open spec fn downsampled(samples: Seq<i16>, points: nat) -> Seq<i16> {
    chunk_peaks(samples, quotient_up(samples.len(), points))
}

/// Thins `samples` out to at most `points` points, each the peak of a chunk.
pub fn downsample(samples: &[i16], points: usize) -> (thinned: Vec<i16>)
    requires
        samples@.len() > 0 ==> points > 0,
    ensures
        thinned@ == downsampled(samples@, points as nat),
{
    let mut thinned: Vec<i16> = Vec::new();
    let size: usize = samples.len();
    if size == 0 {
        return thinned;
    }
    proof {
        lemma_quotient_up(size as nat, points as nat);
    }
    let chunk_size: usize = if size % points == 0 {
        size / points
    } else {
        size / points + 1
    };
    let mut start: usize = 0;
    assert(samples@.skip(0) =~= samples@);
    while start < size
        invariant
            size == samples@.len(),
            chunk_size > 0,
            start <= size,
            thinned@ + chunk_peaks(samples@.skip(start as int), chunk_size as nat) == chunk_peaks(
                samples@,
                chunk_size as nat,
            ),
        decreases size - start,
    {
        let end: usize = if size - start <= chunk_size {
            size
        } else {
            start + chunk_size
        };
        let ghost rest = samples@.skip(start as int);
        let ghost before = thinned@;
        let value: i16 = loudest(samples, start, end);
        thinned.push(value);
        proof {
            if rest.len() > chunk_size {
                assert(samples@.subrange(start as int, end as int) =~= rest.take(
                    chunk_size as int,
                ));
                assert(samples@.skip(end as int) =~= rest.skip(chunk_size as int));
                assert(thinned@ + chunk_peaks(samples@.skip(end as int), chunk_size as nat)
                    =~= before + chunk_peaks(rest, chunk_size as nat));
            }
        }
        start = end;
    }
    assert(thinned@ =~= thinned@ + chunk_peaks(samples@.skip(start as int), chunk_size as nat));
    thinned
}

/// The peak of the samples from `start` up to `end`.
fn loudest(samples: &[i16], start: usize, end: usize) -> (value: i16)
    requires
        start < end <= samples@.len(),
    ensures
        value == peak(samples@.subrange(start as int, end as int)),
{
    let mut value: i16 = samples[start];
    let mut i: usize = start + 1;
    while i < end
        invariant
            start < i <= end <= samples@.len(),
            value == peak(samples@.subrange(start as int, i as int)),
        decreases end - i,
    {
        let sample: i16 = samples[i];
        assert(samples@.subrange(start as int, i + 1).drop_last() =~= samples@.subrange(
            start as int,
            i as int,
        ));
        if magnitude(sample) >= magnitude(value) {
            value = sample;
        }
        i = i + 1;
    }
    value
}

fn magnitude(sample: i16) -> (size: i32)
    ensures
        size == loudness(sample),
{
    if sample < 0 {
        -(sample as i32)
    } else {
        sample as i32
    }
}

/// The samples of a frame, two bytes each.
pub open spec fn sample_bytes(samples: Seq<i16>) -> Seq<u8>
    decreases samples.len(),
{
    if samples.len() == 0 {
        Seq::empty()
    } else {
        sample_bytes(samples.drop_last()) + le_bytes(
            to_unsigned(samples.last() as int, 0x1_0000),
            2,
        )
    }
}

/// A frame: the time in milliseconds, as far as four bytes hold it, then the ring gauge, then
/// the points.
pub open spec fn frame_bytes(samples: Seq<i16>, ring_occupied: u64, unix_millis: u128) -> Seq<u8> {
    le_bytes((unix_millis % 0x1_0000_0000) as nat, 4) + le_bytes(ring_occupied as nat, 8)
        + sample_bytes(samples)
}

/// Builds the frame for points `samples` at a time in milliseconds since the epoch.
pub fn build_frame(samples: Vec<i16>, ring_occupied: u64, unix_millis: u128) -> (frame: Vec<u8>)
    ensures
        frame@ == frame_bytes(samples@, ring_occupied, unix_millis),
{
    let mut frame: Vec<u8> = Vec::new();
    let ts: u64 = (unix_millis % 0x1_0000_0000) as u64;
    push_le(&mut frame, ts, 4);
    push_le(&mut frame, ring_occupied, 8);
    let ghost header = frame@;
    let mut i: usize = 0;
    while i < samples.len()
        invariant
            i <= samples@.len(),
            frame@ == header + sample_bytes(samples@.take(i as int)),
        decreases samples@.len() - i,
    {
        push_sample(&mut frame, samples[i]);
        i = i + 1;
        assert(samples@.take(i as int).drop_last() =~= samples@.take(i - 1));
        assert(frame@ =~= header + sample_bytes(samples@.take(i as int)));
    }
    assert(samples@.take(i as int) =~= samples@);
    frame
}

/// What can happen on the connection of one browser.
#[derive(Debug)]
pub enum WaveformEvent {
    /// Samples arrived from the stream.
    Samples(Vec<i16>),
    /// Samples were skipped, because this connection was too slow for them.
    Lagged,
    /// The stream has ended.
    Closed,
    /// It is time for a frame.
    Tick { produced: u64, played: u64, unix_millis: u128 },
}

/// What to do after an event.
#[derive(Debug)]
pub enum WaveformAction {
    /// Wait for the next event.
    Continue,
    /// Send this frame, and stop if that fails.
    Send(Vec<u8>),
    /// Stop.
    Stop,
}

/// The samples that arrived since the last frame.
#[derive(Debug)]
pub struct WaveformFeed {
    pub accum: Vec<i16>,
}

impl WaveformFeed {
    /// Nothing has arrived.
    pub fn new() -> (feed: WaveformFeed)
        ensures
            feed.accum@ == Seq::<i16>::empty(),
    {
        WaveformFeed { accum: Vec::new() }
    }

    /// Takes in an event. At a tick, all that has arrived goes into a frame; where nothing has,
    /// there is no frame.
    pub fn step(&mut self, event: WaveformEvent) -> (action: WaveformAction)
        ensures
            match event {
                WaveformEvent::Samples(samples) => {
                    &&& final(self).accum@ == old(self).accum@ + samples@
                    &&& action == WaveformAction::Continue
                },
                WaveformEvent::Lagged => {
                    &&& final(self).accum@ == old(self).accum@
                    &&& action == WaveformAction::Continue
                },
                WaveformEvent::Closed => {
                    &&& final(self).accum@ == old(self).accum@
                    &&& action == WaveformAction::Stop
                },
                WaveformEvent::Tick { produced, played, unix_millis } => {
                    &&& final(self).accum@ == Seq::<i16>::empty()
                    &&& if old(self).accum@.len() == 0 {
                        action == WaveformAction::Continue
                    } else {
                        &&& action matches WaveformAction::Send(frame)
                        &&& frame@ == frame_bytes(
                            downsampled(old(self).accum@, POINTS_PER_FRAME as nat),
                            saturating_difference(produced, played),
                            unix_millis,
                        )
                    }
                },
            },
    {
        match event {
            WaveformEvent::Samples(samples) => {
                let mut samples = samples;
                self.accum.append(&mut samples);
                WaveformAction::Continue
            },
            WaveformEvent::Lagged => WaveformAction::Continue,
            WaveformEvent::Closed => WaveformAction::Stop,
            WaveformEvent::Tick { produced, played, unix_millis } => {
                if self.accum.len() == 0 {
                    return WaveformAction::Continue;
                }
                let thinned = downsample(self.accum.as_slice(), POINTS_PER_FRAME);
                self.accum.clear();
                let ring_occupied = produced.saturating_sub(played);
                WaveformAction::Send(build_frame(thinned, ring_occupied, unix_millis))
            },
        }
    }
}

/// A point is one of the samples it stands for: no other is louder, and of the loudest it is
/// the last.
pub proof fn law_peak_is_last_loudest(samples: Seq<i16>)
    requires
        samples.len() > 0,
    ensures
        exists|k: int|
            0 <= k < samples.len() && #[trigger] samples[k] == peak(samples) && (forall|j: int|
                0 <= j < samples.len() ==> loudness(#[trigger] samples[j]) <= loudness(
                    peak(samples),
                )) && (forall|j: int|
                k < j < samples.len() ==> loudness(#[trigger] samples[j]) < loudness(
                    peak(samples),
                )),
    decreases samples.len(),
{
    if samples.len() == 1 {
        assert(samples[0] == peak(samples));
    } else {
        let init = samples.drop_last();
        law_peak_is_last_loudest(init);
        let last = samples.len() - 1;
        if loudness(samples.last()) >= loudness(peak(init)) {
            assert(samples[last] == peak(samples));
            assert forall|j: int| 0 <= j < samples.len() implies loudness(#[trigger] samples[j])
                <= loudness(peak(samples)) by {
                if j < last {
                    assert(init[j] == samples[j]);
                }
            }
        } else {
            let k = choose|k: int|
                0 <= k < init.len() && #[trigger] init[k] == peak(init) && (forall|j: int|
                    0 <= j < init.len() ==> loudness(#[trigger] init[j]) <= loudness(peak(init)))
                    && (forall|j: int|
                    k < j < init.len() ==> loudness(#[trigger] init[j]) < loudness(peak(init)));
            assert forall|j: int| 0 <= j < samples.len() implies loudness(#[trigger] samples[j])
                <= loudness(peak(samples)) by {
                if j < last {
                    assert(init[j] == samples[j]);
                }
            }
            assert forall|j: int| k < j < samples.len() implies loudness(#[trigger] samples[j])
                < loudness(peak(samples)) by {
                if j < last {
                    assert(init[j] == samples[j]);
                }
            }
        }
    }
}

/// A frame has at most as many points as were asked for, and at least one where there are
/// samples.
pub proof fn law_points_are_bounded(samples: Seq<i16>, points: nat)
    requires
        points > 0,
    ensures
        downsampled(samples, points).len() <= points,
        samples.len() > 0 ==> downsampled(samples, points).len() > 0,
{
    let n = samples.len();
    if n > 0 {
        let size = quotient_up(n, points);
        lemma_quotient_up(n, points);
        lemma_chunk_count(samples, size);
        let count = downsampled(samples, points).len();
        assert(count <= points) by (nonlinear_arith)
            requires
                (count - 1) * size < n,
                n <= size * points,
                size > 0,
        ;
    }
}

proof fn lemma_quotient_up(n: nat, points: nat)
    requires
        n > 0,
        points > 0,
    ensures
        0 < quotient_up(n, points) <= n,
        n <= quotient_up(n, points) * points,
{
    let q = (n / points) as int;
    let r = (n % points) as int;
    vstd::arithmetic::div_mod::lemma_fundamental_div_mod(n as int, points as int);
    vstd::arithmetic::div_mod::lemma_mod_bound(n as int, points as int);
    vstd::arithmetic::div_mod::lemma_div_pos_is_pos(n as int, points as int);
    assert(points * q == q * points) by (nonlinear_arith);
    if r == 0 {
        assert(0 < q <= n) by (nonlinear_arith)
            requires
                n == points * q,
                n > 0,
                points > 0,
                q >= 0,
        ;
    } else {
        assert((q + 1) * points == q * points + points) by (nonlinear_arith);
        assert(q + 1 <= n) by (nonlinear_arith)
            requires
                n == points * q + r,
                0 < r < points,
                q >= 0,
        ;
    }
}

proof fn lemma_chunk_count(samples: Seq<i16>, size: nat)
    requires
        size > 0,
        samples.len() > 0,
    ensures
        chunk_peaks(samples, size).len() > 0,
        (chunk_peaks(samples, size).len() - 1) * size < samples.len(),
    decreases samples.len(),
{
    if samples.len() > size {
        let rest = samples.skip(size as int);
        lemma_chunk_count(rest, size);
        let c = chunk_peaks(rest, size).len() as int;
        assert(c * size == (c - 1) * size + size) by (nonlinear_arith);
    } else {
        assert(chunk_peaks(samples, size).len() == 1);
    }
}

/// Every sample counts: point `i` stands for the `i`th chunk, and the chunks follow each other up
/// to the end.
pub proof fn law_points_cover_all_samples(samples: Seq<i16>, size: nat, i: int)
    requires
        size > 0,
        0 <= i < chunk_peaks(samples, size).len(),
    ensures
        i * size < samples.len(),
        i == chunk_peaks(samples, size).len() - 1 <==> (i + 1) * size >= samples.len(),
        chunk_peaks(samples, size)[i] == peak(
            samples.subrange(
                i * size,
                if (i + 1) * size <= samples.len() {
                    (i + 1) * size
                } else {
                    samples.len() as int
                },
            ),
        ),
    decreases samples.len(),
{
    if samples.len() <= size {
        assert(0 * size == 0);
        assert(samples.subrange(0, samples.len() as int) =~= samples);
    } else {
        let rest = samples.skip(size as int);
        lemma_chunk_count(rest, size);
        if i == 0 {
            assert(1 * size == size);
        } else {
            law_points_cover_all_samples(rest, size, i - 1);
            assert(i * size == (i - 1) * size + size) by (nonlinear_arith);
            assert((i + 1) * size == i * size + size) by (nonlinear_arith);
            let end = if (i + 1) * size <= samples.len() {
                (i + 1) * size
            } else {
                samples.len() as int
            };
            assert(rest.subrange((i - 1) * size, end - size) =~= samples.subrange(i * size, end));
        }
    }
}

/// No more samples than points: every sample is a point.
pub proof fn law_few_samples_are_kept(samples: Seq<i16>, points: nat)
    requires
        0 < samples.len() <= points,
    ensures
        downsampled(samples, points) == samples,
{
    let n = samples.len();
    assert(quotient_up(n, points) == 1) by {
        if n == points {
            vstd::arithmetic::div_mod::lemma_div_by_self(points as int);
            vstd::arithmetic::div_mod::lemma_mod_self_0(points as int);
        } else {
            vstd::arithmetic::div_mod::lemma_basic_div(n as int, points as int);
            vstd::arithmetic::div_mod::lemma_small_mod(n, points);
        }
    }
    lemma_single_chunks(samples);
}

proof fn lemma_single_chunks(samples: Seq<i16>)
    ensures
        chunk_peaks(samples, 1) == samples,
    decreases samples.len(),
{
    if samples.len() > 1 {
        lemma_single_chunks(samples.skip(1));
    }
}

/// A frame can be read back: the time, the gauge and the points stand where they should.
pub proof fn law_frame_can_be_read(samples: Seq<i16>, ring_occupied: u64, unix_millis: u128)
    ensures
        ({
            let frame = frame_bytes(samples, ring_occupied, unix_millis);
            &&& frame.len() == FRAME_HEADER_LEN + 2 * samples.len()
            &&& le_value(frame.subrange(0, 4)) == unix_millis % 0x1_0000_0000
            &&& le_value(frame.subrange(4, 12)) == ring_occupied
            &&& forall|i: int|
                0 <= i < samples.len() ==> le_i16(frame, FRAME_HEADER_LEN + 2 * i)
                    == #[trigger] samples[i]
        }),
{
    let frame = frame_bytes(samples, ring_occupied, unix_millis);
    let ts = (unix_millis % 0x1_0000_0000) as nat;
    reveal_with_fuel(byte_span, 9);
    law_le_round_trip(ts, 4);
    law_le_round_trip(ring_occupied as nat, 8);
    lemma_sample_bytes_len(samples);
    assert(frame.subrange(0, 4) =~= le_bytes(ts, 4));
    assert(frame.subrange(4, 12) =~= le_bytes(ring_occupied as nat, 8));
    assert forall|i: int| 0 <= i < samples.len() implies le_i16(frame, FRAME_HEADER_LEN + 2 * i)
        == #[trigger] samples[i] by {
        lemma_sample_bytes_at(samples, i);
        let at = FRAME_HEADER_LEN + 2 * i;
        assert(frame.subrange(at, at + 2) =~= sample_bytes(samples).subrange(2 * i, 2 * i + 2));
        law_sample_round_trip(frame, at, samples[i]);
    }
}

proof fn lemma_sample_bytes_len(samples: Seq<i16>)
    ensures
        sample_bytes(samples).len() == 2 * samples.len(),
    decreases samples.len(),
{
    if samples.len() > 0 {
        lemma_sample_bytes_len(samples.drop_last());
        lemma_two_bytes(samples.last());
    }
}

proof fn lemma_two_bytes(sample: i16)
    ensures
        le_bytes(to_unsigned(sample as int, 0x1_0000), 2).len() == 2,
{
    reveal_with_fuel(byte_span, 3);
    law_le_round_trip(to_unsigned(sample as int, 0x1_0000), 2);
}

proof fn lemma_sample_bytes_at(samples: Seq<i16>, i: int)
    requires
        0 <= i < samples.len(),
    ensures
        sample_bytes(samples).subrange(2 * i, 2 * i + 2) == le_bytes(
            to_unsigned(samples[i] as int, 0x1_0000),
            2,
        ),
    decreases samples.len(),
{
    let init = samples.drop_last();
    lemma_sample_bytes_len(init);
    lemma_sample_bytes_len(samples);
    lemma_two_bytes(samples.last());
    if i < init.len() {
        lemma_sample_bytes_at(init, i);
    }
}

/// Thinning out takes the samples in chunks that are as small as the number of points allows, all
/// of one size but for the last, which may be smaller. Each chunk gives one point: the sample of
/// the chunk, at `k`, that no other one of the chunk is louder than, and the last of these.
pub proof fn law_each_point_is_the_loudest_of_its_chunk(
    samples: &[i16],
    points: usize,
    thinned: Vec<i16>,
    size: nat,
    i: int,
) -> (k: int)
    requires
        call_ensures(downsample, (samples, points), thinned),
        samples@.len() > 0,
        points > 0,
        (size - 1) * points < samples@.len() <= size * points,
        0 <= i < thinned@.len(),
    ensures
        i * size <= k < (i + 1) * size,
        k < samples@.len(),
        thinned@[i] == samples@[k],
        forall|j: int| #![trigger samples@[j]]
            i * size <= j < (i + 1) * size && j < samples@.len() ==> {
                &&& abs(samples@[j] as int) <= abs(samples@[k] as int)
                &&& j > k ==> abs(samples@[j] as int) < abs(samples@[k] as int)
            },
{
    let n = samples@.len();
    lemma_chunk_size(n, points as nat, size);
    law_points_cover_all_samples(samples@, size, i);
    let start = i * size;
    let end = if (i + 1) * size <= n {
        (i + 1) * size
    } else {
        n as int
    };
    assert((i + 1) * size == i * size + size) by (nonlinear_arith);
    assert(i * size >= 0) by (nonlinear_arith)
        requires
            i >= 0,
    ;
    let chunk = samples@.subrange(start, end);
    law_peak_is_last_loudest(chunk);
    let at = choose|at: int|
        0 <= at < chunk.len() && #[trigger] chunk[at] == peak(chunk) && (forall|j: int|
            0 <= j < chunk.len() ==> loudness(#[trigger] chunk[j]) <= loudness(peak(chunk))) && (
        forall|j: int|
            at < j < chunk.len() ==> loudness(#[trigger] chunk[j]) < loudness(peak(chunk)));
    let k = start + at;
    assert forall|j: int| #![trigger samples@[j]]
        i * size <= j < (i + 1) * size && j < samples@.len() implies abs(samples@[j] as int) <= abs(
        samples@[k] as int,
    ) && (j > k ==> abs(samples@[j] as int) < abs(samples@[k] as int)) by {
        assert(chunk[j - start] == samples@[j]);
    }
    k
}

/// The chunks reach to the end of the samples, and there is none behind it, so that there are no
/// more points than were asked for. No samples, no points.
pub proof fn law_points_reach_to_the_end(
    samples: &[i16],
    points: usize,
    thinned: Vec<i16>,
    size: nat,
)
    requires
        call_ensures(downsample, (samples, points), thinned),
        samples@.len() > 0 ==> points > 0 && (size - 1) * points < samples@.len() <= size * points,
    ensures
        samples@.len() == 0 ==> thinned@.len() == 0,
        samples@.len() > 0 ==> {
            &&& 0 < thinned@.len() <= points
            &&& (thinned@.len() - 1) * size < samples@.len() <= thinned@.len() * size
        },
{
    if samples@.len() > 0 {
        lemma_chunk_size(samples@.len(), points as nat, size);
        law_points_are_bounded(samples@, points as nat);
        lemma_chunk_count(samples@, size);
        law_points_cover_all_samples(samples@, size, thinned@.len() - 1);
    }
}

/// Samples can be thinned out to any number of points but none.
pub proof fn law_any_samples_are_thinned_out(samples: &[i16], points: usize)
    requires
        points > 0 || samples@.len() == 0,
    ensures
        call_requires(downsample, (samples, points)),
{
}

proof fn lemma_chunk_size(n: nat, points: nat, size: nat)
    requires
        n > 0,
        points > 0,
        (size - 1) * points < n <= size * points,
    ensures
        size == quotient_up(n, points),
        size > 0,
{
    lemma_quotient_up(n, points);
    let q = quotient_up(n, points) as int;
    let d = (n / points) as int;
    let r = (n % points) as int;
    vstd::arithmetic::div_mod::lemma_fundamental_div_mod(n as int, points as int);
    vstd::arithmetic::div_mod::lemma_mod_bound(n as int, points as int);
    assert(points * d == d * points) by (nonlinear_arith);
    assert((q - 1) * points < n) by {
        if r == 0 {
            assert((q - 1) * points == q * points - points) by (nonlinear_arith);
        }
    }
    assert(size == q) by (nonlinear_arith)
        requires
            (size - 1) * points < n <= size * points,
            (q - 1) * points < n <= q * points,
            points > 0,
            n > 0,
    ;
}

/// In a frame the first four bytes are the time in milliseconds, as far as they hold it, the next
/// eight the gauge of the ring, and then there are two for each point; of each number the first
/// byte counts least.
pub proof fn law_frame_spells_its_numbers(
    samples: Vec<i16>,
    ring_occupied: u64,
    unix_millis: u128,
    frame: Vec<u8>,
)
    requires
        call_ensures(build_frame, (samples, ring_occupied, unix_millis), frame),
    ensures
        frame@.len() == 12 + 2 * samples@.len(),
        frame@[0] + 0x100 * frame@[1] + 0x1_0000 * frame@[2] + 0x100_0000 * frame@[3] == unix_millis
            % 0x1_0000_0000,
        frame@[4] + 0x100 * frame@[5] + 0x1_0000 * frame@[6] + 0x100_0000 * frame@[7]
            + 0x1_0000_0000 * frame@[8] + 0x100_0000_0000 * frame@[9] + 0x1_0000_0000_0000
            * frame@[10] + 0x100_0000_0000_0000 * frame@[11] == ring_occupied,
        forall|i: int| #![trigger samples@[i]]
            0 <= i < samples@.len() ==> (samples@[i] - (frame@[12 + 2 * i] + 256 * frame@[13 + 2
                * i])) % 0x1_0000 == 0,
{
    law_frame_can_be_read(samples@, ring_occupied, unix_millis);
    lemma_four_bytes(frame@.subrange(0, 4));
    lemma_eight_bytes(frame@.subrange(4, 12));
    assert forall|i: int| #![trigger samples@[i]] 0 <= i < samples@.len() implies (samples@[i] - (
    frame@[12 + 2 * i] + 256 * frame@[13 + 2 * i])) % 0x1_0000 == 0 by {
        law_sample_is_its_two_bytes(frame@, 12 + 2 * i);
    }
}

proof fn lemma_four_bytes(b: Seq<u8>)
    requires
        b.len() == 4,
    ensures
        le_value(b) == b[0] + 0x100 * b[1] + 0x1_0000 * b[2] + 0x100_0000 * b[3],
{
    reveal_with_fuel(le_value, 5);
}

proof fn lemma_eight_bytes(b: Seq<u8>)
    requires
        b.len() == 8,
    ensures
        le_value(b) == b[0] + 0x100 * b[1] + 0x1_0000 * b[2] + 0x100_0000 * b[3] + 0x1_0000_0000
            * b[4] + 0x100_0000_0000 * b[5] + 0x1_0000_0000_0000 * b[6] + 0x100_0000_0000_0000
            * b[7],
{
    reveal_with_fuel(le_value, 9);
}

/// Samples are gathered in the order in which they come, and nothing is sent for them; samples that
/// were skipped change nothing; and where the stream ends, so does the connection.
pub proof fn law_samples_are_gathered(
    before: WaveformFeed,
    event: WaveformEvent,
    after: WaveformFeed,
    action: WaveformAction,
)
    requires
        exists|feed: &mut WaveformFeed|
            *feed == before && *final(feed) == after && #[trigger] call_ensures(
                WaveformFeed::step,
                (feed, event),
                action,
            ),
    ensures
        event matches WaveformEvent::Samples(samples) ==> {
            &&& action is Continue
            &&& after.accum@ == before.accum@ + samples@
        },
        event is Lagged ==> action is Continue && after.accum@ == before.accum@,
        event is Closed ==> action is Stop && after.accum@ == before.accum@,
{
}

/// At a tick all that was gathered is sent in one frame, thinned out to at most a hundred points,
/// with the gauge of the ring and the time, and then nothing is left of it. Where nothing was
/// gathered, nothing is sent.
pub proof fn law_tick_sends_what_was_gathered(
    before: WaveformFeed,
    produced: u64,
    played: u64,
    unix_millis: u128,
    after: WaveformFeed,
    action: WaveformAction,
)
    requires
        exists|feed: &mut WaveformFeed|
            *feed == before && *final(feed) == after && #[trigger] call_ensures(
                WaveformFeed::step,
                (feed, WaveformEvent::Tick { produced, played, unix_millis }),
                action,
            ),
    ensures
        after.accum@ == Seq::<i16>::empty(),
        before.accum@.len() == 0 ==> action is Continue,
        before.accum@.len() > 0 ==> {
            &&& action matches WaveformAction::Send(frame)
            &&& frame@ == frame_bytes(
                downsampled(before.accum@, 100),
                if produced >= played {
                    (produced - played) as u64
                } else {
                    0
                },
                unix_millis,
            )
        },
{
}

/// What is sent at a tick is what thinning out and building a frame give.
pub proof fn law_frame_is_built_from_the_points(
    samples: &[i16],
    thinned: Vec<i16>,
    ring_occupied: u64,
    unix_millis: u128,
    frame: Vec<u8>,
)
    requires
        call_ensures(downsample, (samples, 100), thinned),
        call_ensures(build_frame, (thinned, ring_occupied, unix_millis), frame),
    ensures
        frame@ == frame_bytes(downsampled(samples@, 100), ring_occupied, unix_millis),
{
}

/// A new connection has gathered nothing, and gets twenty frames a second.
pub proof fn law_new_feed_is_empty(feed: WaveformFeed)
    requires
        call_ensures(WaveformFeed::new, (), feed),
    ensures
        feed.accum@ == Seq::<i16>::empty(),
        20 * FRAME_MS == 1000,
{
}

} // verus!
