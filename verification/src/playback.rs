//! Playing the stream: samples go into the ring as packets arrive, and come out frame by frame as
//! the sound device asks for them.
//!
//! The device may run at another rate than the stream. For every frame that it asks for, a number
//! of source samples falls due, often none or one: the newest of those is heard in the frame, and
//! where none falls due the last one is heard on. Where a sample falls due and the ring is empty,
//! there is silence.

use crate::ring::ring_capacity;
use crate::ring::ring_contents;
use crate::ring::SampleRing;
use crate::stats::law_wrapped_sum;
use crate::stats::saturating_difference;
use crate::stats::wrap_u64;
use vstd::prelude::*;

verus! {

/// The ring holds this many packets, against jitter.
pub const RING_PACKETS: usize = 32;

/// The sum of the first `n` of `due`.
pub open spec fn due_by(due: Seq<u64>, n: int) -> nat
    decreases n,
{
    if n <= 0 {
        0
    } else {
        due_by(due, n - 1) + due[n - 1] as nat
    }
}

/// What is heard after `taken` samples fell due, where `waiting` stood in the ring and `current`
/// was heard before: the last sample that fell due, or silence where the ring had run empty.
pub open spec fn heard(waiting: Seq<i16>, current: i16, taken: nat) -> i16 {
    if taken == 0 {
        current
    } else if taken <= waiting.len() {
        waiting[taken - 1]
    } else {
        0
    }
}

/// The smaller of the two.
pub open spec fn least(a: int, b: int) -> int {
    if a <= b {
        a
    } else {
        b
    }
}

/// The stream on its way from the network to the device.
pub struct Playback {
    ring: SampleRing,
    current: i16,
    samples_produced: u64,
    playback_pos: u64,
}

impl Playback {
    /// The samples that wait to be played, the oldest first.
    pub closed spec fn waiting(self) -> Seq<i16> {
        ring_contents(self.ring)
    }

    /// How many samples can wait.
    pub closed spec fn capacity(self) -> nat {
        ring_capacity(self.ring)
    }

    /// The sample that is heard now.
    pub closed spec fn current(self) -> i16 {
        self.current
    }

    /// The samples that came into the ring.
    pub closed spec fn produced(self) -> u64 {
        self.samples_produced
    }

    /// The samples that were played.
    pub closed spec fn played(self) -> u64 {
        self.playback_pos
    }

    /// No more waits than there is room for, and every sample that came into the ring was played
    /// or waits.
    pub open spec fn wf(self) -> bool {
        &&& self.waiting().len() <= self.capacity() <= usize::MAX
        &&& self.produced() == wrap_u64(self.played() + self.waiting().len())
    }

    /// Nothing has arrived, and there is room for `RING_PACKETS` packets.
    pub fn new(sample_per_packet: usize) -> (playback: Playback)
        requires
            0 < sample_per_packet,
            2 * (RING_PACKETS * sample_per_packet) <= isize::MAX,
        ensures
            playback.wf(),
            playback.waiting() == Seq::<i16>::empty(),
            playback.capacity() == RING_PACKETS * sample_per_packet,
            playback.current() == 0,
            playback.produced() == 0,
            playback.played() == 0,
    {
        Playback {
            ring: SampleRing::new(RING_PACKETS * sample_per_packet),
            current: 0,
            samples_produced: 0,
            playback_pos: 0,
        }
    }

    /// Takes in the samples of a packet. Those for which the ring has no room are the last ones:
    /// they are dropped, and do not count.
    pub fn write(&mut self, samples: &[i16])
        requires
            old(self).wf(),
        ensures
            final(self).wf(),
            ({
                let room = least(
                    samples@.len() as int,
                    old(self).capacity() - old(self).waiting().len(),
                );
                &&& final(self).waiting() == old(self).waiting() + samples@.take(room)
                &&& final(self).produced() == wrap_u64(old(self).produced() + room)
            }),
            final(self).played() == old(self).played(),
            final(self).current() == old(self).current(),
            final(self).capacity() == old(self).capacity(),
    {
        let count: usize = self.ring.push_slice(samples);
        self.samples_produced = self.samples_produced.wrapping_add(count as u64);
    }

    /// Lets one sample fall due: it is heard from now on, or silence where none waits.
    fn take_one(&mut self) -> (got: bool)
        requires
            old(self).waiting().len() <= old(self).capacity(),
        ensures
            final(self).waiting() == old(self).waiting().skip(
                least(1, old(self).waiting().len() as int),
            ),
            final(self).current() == heard(old(self).waiting(), old(self).current(), 1),
            got == (old(self).waiting().len() > 0),
            final(self).produced() == old(self).produced(),
            final(self).played() == old(self).played(),
            final(self).capacity() == old(self).capacity(),
    {
        let mut buf: [i16; 1] = [0i16; 1];
        let got: usize = self.ring.pop_slice(&mut buf);
        self.current = if got == 1 {
            buf[0]
        } else {
            0
        };
        got == 1
    }

    /// Lets `n` samples fall due, and says for how many of them there was one.
    fn take_due(&mut self, n: u64) -> (count: u64)
        requires
            old(self).waiting().len() <= old(self).capacity() <= usize::MAX,
        ensures
            final(self).waiting() == old(self).waiting().skip(
                least(n as int, old(self).waiting().len() as int),
            ),
            final(self).current() == heard(old(self).waiting(), old(self).current(), n as nat),
            count == least(n as int, old(self).waiting().len() as int),
            final(self).produced() == old(self).produced(),
            final(self).played() == old(self).played(),
            final(self).capacity() == old(self).capacity(),
    {
        let mut k: u64 = 0;
        let mut count: u64 = 0;
        while k < n
            invariant
                k <= n,
                old(self).waiting().len() <= old(self).capacity() <= usize::MAX,
                self.waiting() == old(self).waiting().skip(
                    least(k as int, old(self).waiting().len() as int),
                ),
                self.current() == heard(old(self).waiting(), old(self).current(), k as nat),
                count == least(k as int, old(self).waiting().len() as int),
                self.produced() == old(self).produced(),
                self.played() == old(self).played(),
                self.capacity() == old(self).capacity(),
            decreases n - k,
        {
            let got = self.take_one();
            if got {
                count = count + 1;
            }
            proof {
                law_due_samples_may_be_taken_in_parts(
                    old(self).waiting(),
                    old(self).current(),
                    k as nat,
                    1,
                );
            }
            k = k + 1;
        }
        count
    }

    /// Fills the device's buffer. `due[f]` samples fall due at frame `f`; what is heard then is
    /// put on each of the frame's `channels` channels.
    pub fn render(&mut self, due: &[u64], channels: usize, data: &mut [i16])
        requires
            old(self).wf(),
            channels > 0,
            due@.len() == old(data)@.len() / channels as nat,
        ensures
            final(self).wf(),
            ({
                let total = due_by(due@, due@.len() as int);
                let count = least(total as int, old(self).waiting().len() as int);
                &&& final(self).waiting() == old(self).waiting().skip(count)
                &&& final(self).current() == heard(old(self).waiting(), old(self).current(), total)
                &&& final(self).played() == wrap_u64(old(self).played() + count)
            }),
            final(self).produced() == old(self).produced(),
            final(self).capacity() == old(self).capacity(),
            final(data)@.len() == old(data)@.len(),
            forall|i: int| #![trigger final(data)@[i]]
                0 <= i < final(data)@.len() ==> final(data)@[i] == (if i / (channels as int)
                    < due@.len() {
                    heard(
                        old(self).waiting(),
                        old(self).current(),
                        due_by(due@, i / (channels as int) + 1),
                    )
                } else {
                    old(data)@[i]
                }),
    {
        let frames: usize = data.len() / channels;
        let size: usize = data.len();
        let mut f: usize = 0;
        let mut base: usize = 0;
        let mut played_this_call: u64 = 0;
        while f < frames
            invariant
                channels > 0,
                f <= frames,
                frames == due@.len(),
                size == data@.len() == old(data)@.len(),
                frames == size / channels,
                base == f * channels,
                base <= size,
                old(self).wf(),
                self.waiting() == old(self).waiting().skip(played_this_call as int),
                played_this_call == least(
                    due_by(due@, f as int) as int,
                    old(self).waiting().len() as int,
                ),
                self.current() == heard(
                    old(self).waiting(),
                    old(self).current(),
                    due_by(due@, f as int),
                ),
                self.produced() == old(self).produced(),
                self.played() == old(self).played(),
                self.capacity() == old(self).capacity(),
                forall|i: int| #![trigger data@[i]]
                    0 <= i < size ==> data@[i] == (if i < base {
                        heard(
                            old(self).waiting(),
                            old(self).current(),
                            due_by(due@, i / (channels as int) + 1),
                        )
                    } else {
                        old(data)@[i]
                    }),
            decreases frames - f,
        {
            proof {
                law_due_samples_may_be_taken_in_parts(
                    old(self).waiting(),
                    old(self).current(),
                    due_by(due@, f as int),
                    due@[f as int] as nat,
                );
                lemma_frame_fits(f as int, channels as int, size as int);
            }
            let got: u64 = self.take_due(due[f]);
            played_this_call = played_this_call + got;
            fill_frame(data, base, channels, self.current);
            proof {
                assert forall|i: int| base <= i < base + channels implies #[trigger] (i / (
                channels as int)) == f by {
                    lemma_frame_of(f as int, channels as int, i);
                }
            }
            base = base + channels;
            f = f + 1;
        }
        self.playback_pos = self.playback_pos.wrapping_add(played_this_call);
        proof {
            assert forall|i: int| 0 <= i < size implies (i < base <==> #[trigger] (i / (
            channels as int)) < frames) by {
                lemma_before_frame(frames as int, channels as int, i);
            }
        }
    }

    /// The samples that came into the ring and the samples that were played.
    pub fn positions(&self) -> (positions: (u64, u64))
        ensures
            positions == (self.produced(), self.played()),
    {
        (self.samples_produced, self.playback_pos)
    }
}

/// Puts `value` on each of the `channels` channels of the frame that starts at `base`.
fn fill_frame(data: &mut [i16], base: usize, channels: usize, value: i16)
    requires
        base + channels <= old(data)@.len(),
    ensures
        final(data)@.len() == old(data)@.len(),
        forall|i: int| #![trigger final(data)@[i]]
            0 <= i < final(data)@.len() ==> final(data)@[i] == (if base <= i < base + channels {
                value
            } else {
                old(data)@[i]
            }),
{
    let size: usize = data.len();
    let mut c: usize = 0;
    while c < channels
        invariant
            c <= channels,
            size == data@.len() == old(data)@.len(),
            base + channels <= size,
            forall|i: int| #![trigger data@[i]]
                0 <= i < size ==> data@[i] == (if base <= i < base + c {
                    value
                } else {
                    old(data)@[i]
                }),
        decreases channels - c,
    {
        data[base + c] = value;
        c = c + 1;
    }
}

proof fn lemma_frame_fits(f: int, channels: int, size: int)
    requires
        channels > 0,
        0 <= f < size / channels,
    ensures
        f * channels + channels <= size,
        (f + 1) * channels == f * channels + channels,
{
    vstd::arithmetic::div_mod::lemma_fundamental_div_mod(size, channels);
    assert((f + 1) * channels <= (size / channels) * channels) by (nonlinear_arith)
        requires
            channels > 0,
            f + 1 <= size / channels,
    ;
    assert((f + 1) * channels == f * channels + channels) by (nonlinear_arith);
    assert(channels * (size / channels) == (size / channels) * channels) by (nonlinear_arith);
}

proof fn lemma_frame_of(f: int, channels: int, i: int)
    requires
        channels > 0,
        f * channels <= i < f * channels + channels,
    ensures
        i / channels == f,
{
    vstd::arithmetic::div_mod::lemma_fundamental_div_mod_converse(
        i,
        channels,
        f,
        i - f * channels,
    );
}

proof fn lemma_before_frame(f: int, channels: int, i: int)
    requires
        channels > 0,
    ensures
        i < f * channels <==> i / channels < f,
{
    vstd::arithmetic::div_mod::lemma_fundamental_div_mod(i, channels);
    let q = i / channels;
    if q < f {
        assert((q + 1) * channels <= f * channels) by (nonlinear_arith)
            requires
                channels > 0,
                q + 1 <= f,
        ;
        assert((q + 1) * channels == channels * q + channels) by (nonlinear_arith);
    } else {
        assert(f * channels <= q * channels) by (nonlinear_arith)
            requires
                channels > 0,
                f <= q,
        ;
        assert(q * channels == channels * q) by (nonlinear_arith);
    }
}

/// It makes no difference whether samples fall due together or one part after the other: what
/// waits and what is heard in the end is the same.
pub proof fn law_due_samples_may_be_taken_in_parts(
    waiting: Seq<i16>,
    current: i16,
    first: nat,
    more: nat,
)
    ensures
        ({
            let rest = waiting.skip(least(first as int, waiting.len() as int));
            &&& heard(rest, heard(waiting, current, first), more) == heard(
                waiting,
                current,
                first + more,
            )
            &&& rest.skip(least(more as int, rest.len() as int)) == waiting.skip(
                least((first + more) as int, waiting.len() as int),
            )
        }),
{
}

/// Splitting a buffer of the device in two changes nothing: each frame of the first part and each
/// frame of the second hears what it would hear as a frame of the whole, and what waits, what is
/// heard on and the count of what was played are in the end the same.
pub proof fn law_buffers_may_be_split(
    waiting: Seq<i16>,
    current: i16,
    played: u64,
    due: Seq<u64>,
    more: Seq<u64>,
)
    ensures
        ({
            let first = due_by(due, due.len() as int);
            let count = least(first as int, waiting.len() as int);
            let rest = waiting.skip(count);
            let last = heard(waiting, current, first);
            let second = due_by(more, more.len() as int);
            let rest_count = least(second as int, rest.len() as int);
            let total = due_by(due + more, (due + more).len() as int);
            let total_count = least(total as int, waiting.len() as int);
            &&& forall|frame: int|
                0 <= frame < due.len() ==> heard(
                    waiting,
                    current,
                    #[trigger] due_by(due + more, frame + 1),
                ) == heard(waiting, current, due_by(due, frame + 1))
            &&& forall|frame: int|
                0 <= frame < more.len() ==> heard(
                    waiting,
                    current,
                    due_by(due + more, due.len() + frame + 1),
                ) == heard(rest, last, #[trigger] due_by(more, frame + 1))
            &&& rest.skip(rest_count) == waiting.skip(total_count)
            &&& heard(rest, last, second) == heard(waiting, current, total)
            &&& wrap_u64(wrap_u64(played + count) + rest_count) == wrap_u64(played + total_count)
        }),
{
    let first = due_by(due, due.len() as int);
    assert forall|frame: int| 0 <= frame < due.len() implies heard(
        waiting,
        current,
        #[trigger] due_by(due + more, frame + 1),
    ) == heard(waiting, current, due_by(due, frame + 1)) by {
        lemma_due_by_prefix(due, more, frame + 1);
    }
    assert forall|frame: int| 0 <= frame < more.len() implies heard(
        waiting,
        current,
        due_by(due + more, due.len() + frame + 1),
    ) == heard(
        waiting.skip(least(first as int, waiting.len() as int)),
        heard(waiting, current, first),
        #[trigger] due_by(more, frame + 1),
    ) by {
        lemma_due_by_concat(due, more, frame + 1);
        law_due_samples_may_be_taken_in_parts(waiting, current, first, due_by(more, frame + 1));
    }
    lemma_due_by_concat(due, more, more.len() as int);
    law_due_samples_may_be_taken_in_parts(
        waiting,
        current,
        first,
        due_by(more, more.len() as int),
    );
    let count = least(first as int, waiting.len() as int);
    law_wrapped_sum(
        played + count,
        least(due_by(more, more.len() as int) as int, waiting.len() - count),
    );
}

proof fn lemma_due_by_concat(due: Seq<u64>, more: Seq<u64>, n: int)
    requires
        0 <= n <= more.len(),
    ensures
        due_by(due + more, due.len() + n) == due_by(due, due.len() as int) + due_by(more, n),
    decreases n,
{
    if n == 0 {
        lemma_due_by_prefix(due, more, due.len() as int);
    } else {
        lemma_due_by_concat(due, more, n - 1);
    }
}

proof fn lemma_due_by_prefix(due: Seq<u64>, more: Seq<u64>, n: int)
    requires
        0 <= n <= due.len(),
    ensures
        due_by(due + more, n) == due_by(due, n),
    decreases n,
{
    if n > 0 {
        lemma_due_by_prefix(due, more, n - 1);
    }
}

/// The number of the sample that is due at `frame`: the last one that is not later than the frame.
pub open spec fn source_index(frame: int, stream_rate: nat, output_rate: nat) -> int {
    (frame * stream_rate) / (output_rate as int)
}

/// `due` is what falls due at the frames of a device that runs at `output_rate`, from its first
/// frame on, where the stream runs at `stream_rate`: by frame `f` all samples up to number
/// `f * stream_rate / output_rate`, rounded down, have fallen due.
pub open spec fn follows_rates(due: Seq<u64>, stream_rate: nat, output_rate: nat) -> bool {
    forall|n: int|
        1 <= n <= due.len() ==> #[trigger] due_by(due, n) == source_index(
            n - 1,
            stream_rate,
            output_rate,
        ) + 1
}

/// Resampling is nearest-neighbor, for any pair of rates: where what falls due follows the rates,
/// frame `f` hears the sample that stands at `f * stream_rate / output_rate`, rounded down, and
/// after the last one there is silence.
pub proof fn law_resampling_is_nearest_neighbor(
    waiting: Seq<i16>,
    current: i16,
    due: Seq<u64>,
    stream_rate: nat,
    output_rate: nat,
    frame: int,
)
    requires
        output_rate > 0,
        0 <= frame < due.len(),
        follows_rates(due, stream_rate, output_rate),
    ensures
        ({
            let j = source_index(frame, stream_rate, output_rate);
            &&& 0 <= j
            &&& heard(waiting, current, due_by(due, frame + 1)) == (if j < waiting.len() {
                waiting[j]
            } else {
                0
            })
        }),
{
    assert(frame * stream_rate >= 0) by (nonlinear_arith)
        requires
            frame >= 0,
    ;
    vstd::arithmetic::div_mod::lemma_div_pos_is_pos(frame * stream_rate, output_rate as int);
}

/// Where the device runs at the rate of the stream, one sample falls due at each frame: the
/// frames hear the samples that wait, each once and in order, and after those silence.
pub proof fn law_same_rate_plays_through(
    waiting: Seq<i16>,
    current: i16,
    due: Seq<u64>,
    frame: int,
)
    requires
        0 <= frame < due.len(),
        forall|i: int| 0 <= i < due.len() ==> due[i] == 1,
    ensures
        heard(waiting, current, due_by(due, frame + 1)) == (if frame < waiting.len() {
            waiting[frame]
        } else {
            0
        }),
{
    lemma_due_by_ones(due, frame + 1);
}

proof fn lemma_due_by_ones(due: Seq<u64>, n: int)
    requires
        0 <= n <= due.len(),
        forall|i: int| 0 <= i < due.len() ==> due[i] == 1,
    ensures
        due_by(due, n) == n,
    decreases n,
{
    if n > 0 {
        lemma_due_by_ones(due, n - 1);
    }
}

/// The gauge shows the water level of the ring: what came into it less what was played is what
/// waits. Only while the first counter has started again from zero and the second has not, the
/// gauge shows nothing.
pub proof fn law_gauge_shows_water_level(playback: Playback)
    requires
        playback.wf(),
        playback.produced() >= playback.played(),
    ensures
        saturating_difference(playback.produced(), playback.played()) == playback.waiting().len(),
{
}

/// At the start nothing waits, nothing is heard and nothing was counted, and thirty-two packets can
/// wait.
pub proof fn law_playback_starts_empty(sample_per_packet: usize, playback: Playback)
    requires
        call_ensures(Playback::new, (sample_per_packet,), playback),
    ensures
        playback.wf(),
        playback.waiting().len() == 0,
        playback.capacity() == 32 * sample_per_packet,
        playback.current() == 0,
        playback.produced() == 0,
        playback.played() == 0,
{
}

/// Playback can start with packets of any size that memory can hold, takes in any samples, and
/// fills any buffer.
pub proof fn law_playback_takes_anything(
    sample_per_packet: usize,
    playback: Playback,
    samples: &[i16],
    due: &[u64],
    channels: usize,
    data: Seq<i16>,
)
    requires
        0 < sample_per_packet,
        64 * sample_per_packet <= isize::MAX,
        playback.wf(),
        channels > 0,
        due@.len() == data.len() / channels as nat,
    ensures
        call_requires(Playback::new, (sample_per_packet,)),
        forall|p: &mut Playback|
            *p == playback ==> #[trigger] call_requires(Playback::write, (p, samples)),
        forall|p: &mut Playback, d: &mut [i16]|
            *p == playback && d@ == data ==> #[trigger] call_requires(
                Playback::render,
                (p, due, channels, d),
            ),
{
}

/// Samples queue up behind those that wait, the first ones first. Where there is room for all of
/// them, all are taken; where there is not, the ring is full afterwards, and those that were not
/// taken do not count. What is heard and what was played stays as it is.
pub proof fn law_samples_queue_up(before: Playback, samples: &[i16], after: Playback)
    requires
        before.wf(),
        exists|p: &mut Playback|
            *p == before && *final(p) == after && #[trigger] call_ensures(
                Playback::write,
                (p, samples),
                (),
            ),
    ensures
        after.wf(),
        before.waiting().len() + samples@.len() <= before.capacity() ==> after.waiting()
            == before.waiting() + samples@,
        before.waiting().len() + samples@.len() > before.capacity() ==> after.waiting().len()
            == before.capacity(),
        before.waiting().is_prefix_of(after.waiting()),
        after.waiting().skip(before.waiting().len() as int).is_prefix_of(samples@),
        (after.produced() - before.produced() - (after.waiting().len() - before.waiting().len()))
            % 0x1_0000_0000_0000_0000 == 0,
        after.played() == before.played(),
        after.current() == before.current(),
        after.capacity() == before.capacity(),
{
    let n = before.waiting().len() as int;
    law_wrapped_sum(before.produced() + (after.waiting().len() - n), 0);
    assert(samples@.take(samples@.len() as int) =~= samples@);
    assert(after.waiting().skip(n) =~= samples@.take(after.waiting().len() - n));
}

/// What the device hears. Where `total(f)` samples are due by the end of frame `f - 1`, each channel
/// of frame `f` hears the last of the first `total(f + 1)` samples that wait; where there are not so
/// many, silence; and where none is due yet, what was heard before. What does not belong to a whole
/// frame is left alone. The samples that were due are gone afterwards, and those of them that were
/// there count as played.
pub proof fn law_frames_hear_what_is_due(
    before: Playback,
    due: &[u64],
    channels: usize,
    data_before: Seq<i16>,
    after: Playback,
    data_after: Seq<i16>,
    total: spec_fn(int) -> int,
)
    requires
        channels > 0,
        due@.len() == data_before.len() / channels as nat,
        exists|p: &mut Playback, d: &mut [i16]|
            *p == before && *final(p) == after && d@ == data_before && final(d)@ == data_after
                && #[trigger] call_ensures(Playback::render, (p, due, channels, d), ()),
        total(0) == 0,
        forall|f: int| 0 <= f < due@.len() ==> total(f + 1) == total(f) + #[trigger] due@[f],
    ensures
        after.wf(),
        data_after.len() == data_before.len(),
        forall|f: int, c: int|
            0 <= f < due@.len() && 0 <= c < channels ==> #[trigger] data_after[f * channels + c]
                == (if total(f + 1) == 0 {
                before.current()
            } else if total(f + 1) <= before.waiting().len() {
                before.waiting()[total(f + 1) - 1]
            } else {
                0
            }),
        forall|i: int|
            due@.len() * channels <= i < data_after.len() ==> #[trigger] data_after[i]
                == data_before[i],
        ({
            let all = total(due@.len() as int);
            &&& all <= before.waiting().len() ==> {
                &&& after.waiting() == before.waiting().skip(all)
                &&& (after.played() - before.played() - all) % 0x1_0000_0000_0000_0000 == 0
                &&& all > 0 ==> after.current() == before.waiting()[all - 1]
                &&& all == 0 ==> after.current() == before.current()
            }
            &&& all > before.waiting().len() ==> {
                &&& after.waiting().len() == 0
                &&& (after.played() - before.played() - before.waiting().len())
                    % 0x1_0000_0000_0000_0000 == 0
                &&& after.current() == 0
            }
        }),
        after.produced() == before.produced(),
        after.capacity() == before.capacity(),
{
    let frames = due@.len() as int;
    let size = data_before.len() as int;
    lemma_due_by_total(due@, total, frames);
    law_wrapped_sum(
        before.played() + least(total(frames), before.waiting().len() as int),
        0,
    );
    assert forall|f: int, c: int| 0 <= f < frames && 0 <= c < channels implies #[trigger] data_after[f
        * channels + c] == (if total(f + 1) == 0 {
        before.current()
    } else if total(f + 1) <= before.waiting().len() {
        before.waiting()[total(f + 1) - 1]
    } else {
        0
    }) by {
        lemma_due_by_total(due@, total, f + 1);
        lemma_frame_fits(f, channels as int, size);
        lemma_frame_of(f, channels as int, f * channels + c);
        assert(f * channels >= 0) by (nonlinear_arith)
            requires
                f >= 0,
        ;
    }
    assert forall|i: int| frames * channels <= i < size implies #[trigger] data_after[i]
        == data_before[i] by {
        lemma_before_frame(frames, channels as int, i);
        assert(frames * channels >= 0) by (nonlinear_arith)
            requires
                frames >= 0,
        ;
    }
}

proof fn lemma_due_by_total(due: Seq<u64>, total: spec_fn(int) -> int, n: int)
    requires
        0 <= n <= due.len(),
        total(0) == 0,
        forall|f: int| 0 <= f < due.len() ==> total(f + 1) == total(f) + #[trigger] due[f],
    ensures
        total(n) == due_by(due, n),
    decreases n,
{
    if n > 0 {
        lemma_due_by_total(due, total, n - 1);
        assert(total(n - 1 + 1) == total(n - 1) + due[n - 1]);
    }
}

/// The two counters that the gauge is made of are told in their order, and as long as the first is
/// not behind the second, their difference is how many samples wait.
pub proof fn law_positions_give_the_gauge(playback: Playback, positions: (u64, u64))
    requires
        call_ensures(Playback::positions, (&playback,), positions),
    ensures
        positions.0 == playback.produced(),
        positions.1 == playback.played(),
        playback.wf() && positions.0 >= positions.1 ==> positions.0 - positions.1
            == playback.waiting().len(),
{
}

} // verus!
