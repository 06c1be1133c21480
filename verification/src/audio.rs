//! The sample work of listening to a student PC: downmixing, decimating and bounded buffering.
//!
//! Captured audio is averaged to mono, one frame in `factor` is kept, and the result is appended
//! to a buffer that drops its oldest samples rather than grow: a teacher hears what is playing now,
//! never a growing backlog. The sound devices themselves live with the program.

use std::collections::VecDeque;
use vstd::prelude::*;

verus! {

/// Sample rate aimed for after decimation. Speech and game audio stay clearly recognisable.
pub const TARGET_RATE: u32 = 16_000;

/// How much audio to keep if nobody collects it, in seconds.
pub const BUFFER_SECONDS: usize = 3;

/// The shape of the audio being sent: always mono, at whatever rate decimation produced.
#[derive(Debug, Clone, Copy, PartialEq, Eq, Structural)]
pub struct AudioFormat {
    /// Samples per second.
    pub sample_rate: u32,
    /// Always 1: the stream is downmixed to mono before sending.
    pub channels: u8,
}

/// Integer division rounding toward zero, as Rust's `/` on signed integers does.
pub open spec fn div_toward_zero(a: int, b: int) -> int {
    if a >= 0 {
        a / b
    } else {
        -((-a) / b)
    }
}

/// The sum of the `channels` samples of the frame starting at `start`.
pub open spec fn frame_sum(samples: Seq<i16>, start: int, channels: nat) -> int
    decreases channels,
{
    if channels == 0 {
        0
    } else {
        frame_sum(samples, start, (channels - 1) as nat) + samples[start + channels - 1] as int
    }
}

/// The number of whole frames of `channels` samples.
pub open spec fn whole_frames(len: nat, channels: nat) -> nat {
    len / channels
}

/// The number of frames kept when one in `factor` of `frames` is kept, starting with the first.
pub open spec fn kept_frames(frames: nat, factor: nat) -> nat {
    ((frames + factor - 1) / (factor as int)) as nat
}

/// The mono stream: the average of every kept frame's channels, one frame in `factor`; a trailing
/// partial frame is dropped.
pub open spec fn mono_spec(samples: Seq<i16>, channels: nat, factor: nat) -> Seq<i16> {
    Seq::new(
        kept_frames(whole_frames(samples.len(), channels), factor),
        |j: int|
            div_toward_zero(frame_sum(samples, j * factor * channels, channels), channels as int)
                as i16,
    )
}

/// The newest `capacity` samples of `s`, or all of them where there are no more.
pub open spec fn newest(s: Seq<i16>, capacity: nat) -> Seq<i16> {
    if s.len() > capacity {
        s.subrange(s.len() - capacity, s.len() as int)
    } else {
        s
    }
}

proof fn lemma_average_fits(sum: int, channels: int)
    requires
        channels >= 1,
        -32768 * channels <= sum <= 32767 * channels,
    ensures
        -32768 <= div_toward_zero(sum, channels) <= 32767,
{
    if sum >= 0 {
        assert(sum / channels <= 32767) by (nonlinear_arith)
            requires
                0 <= sum <= 32767 * channels,
                channels >= 1,
        ;
        assert(sum / channels >= 0) by (nonlinear_arith)
            requires
                0 <= sum,
                channels >= 1,
        ;
    } else {
        assert((-sum) / channels <= 32768) by (nonlinear_arith)
            requires
                0 <= -sum <= 32768 * channels,
                channels >= 1,
        ;
        assert((-sum) / channels >= 0) by (nonlinear_arith)
            requires
                0 <= -sum,
                channels >= 1,
        ;
    }
}

proof fn lemma_kept_index(j: nat, factor: nat, frames: nat)
    requires
        factor >= 1,
        j < kept_frames(frames, factor),
    ensures
        j * factor < frames,
{
    assert(j * factor < frames) by (nonlinear_arith)
        requires
            factor >= 1,
            j < (frames + factor - 1) / (factor as int),
    ;
}

/// Averages each frame of `channels` samples to one, keeping one frame in `factor`.
pub fn downmix(samples: &[i16], channels: usize, factor: usize) -> (mono: Vec<i16>)
    requires
        1 <= channels <= 65536,
        factor >= 1,
    ensures
        mono@ == mono_spec(samples@, channels as nat, factor as nat),
{
    let len: usize = samples.len();
    let frames: usize = len / channels;
    proof {
        assert(frames % factor != 0 ==> frames / factor < frames) by (nonlinear_arith)
            requires
                factor >= 1,
        ;
    }
    let kept: usize = if frames % factor != 0 {
        frames / factor + 1
    } else {
        frames / factor
    };
    proof {
        assert(frames * channels <= samples@.len()) by (nonlinear_arith)
            requires
                frames == samples@.len() as int / (channels as int),
                channels >= 1,
        ;
        assert(kept == kept_frames(frames as nat, factor as nat)) by (nonlinear_arith)
            requires
                factor >= 1,
                kept == frames / factor + if frames % factor != 0 {
                    1int
                } else {
                    0int
                },
        ;
    }
    let mut mono: Vec<i16> = Vec::new();
    let mut j: usize = 0;
    while j < kept
        invariant
            1 <= channels <= 65536,
            factor >= 1,
            frames == whole_frames(samples@.len(), channels as nat),
            frames * channels <= samples@.len(),
            samples@.len() == len,
            kept == kept_frames(frames as nat, factor as nat),
            j <= kept,
            mono@.len() == j,
            forall|k: int|
                0 <= k < j ==> #[trigger] mono@[k] == mono_spec(
                    samples@,
                    channels as nat,
                    factor as nat,
                )[k],
        decreases kept - j,
    {
        proof {
            lemma_kept_index(j as nat, factor as nat, frames as nat);
            assert((j * factor) * channels + channels <= frames * channels) by (nonlinear_arith)
                requires
                    j * factor < frames,
            ;
        }
        let start: usize = j * factor * channels;
        let mut sum: i32 = 0;
        let mut c: usize = 0;
        while c < channels
            invariant
                c <= channels <= 65536,
                start + channels <= samples@.len(),
                samples@.len() == len,
                sum as int == frame_sum(samples@, start as int, c as nat),
                -32768 * c <= sum <= 32767 * c,
            decreases channels - c,
        {
            sum = sum + samples[start + c] as i32;
            c = c + 1;
        }
        proof {
            lemma_average_fits(sum as int, channels as int);
        }
        let avg: i32 = sum / channels as i32;
        mono.push(avg as i16);
        j = j + 1;
    }
    assert(mono@ =~= mono_spec(samples@, channels as nat, factor as nat));
    mono
}

/// Appends `samples` to `queue`, then drops the oldest samples beyond `capacity`.
pub fn push_newest(queue: &mut VecDeque<i16>, samples: &[i16], capacity: usize)
    ensures
        final(queue)@ == newest(old(queue)@ + samples@, capacity as nat),
{
    let mut i: usize = 0;
    while i < samples.len()
        invariant
            i <= samples@.len(),
            queue@ == old(queue)@ + samples@.take(i as int),
        decreases samples@.len() - i,
    {
        queue.push_back(samples[i]);
        proof {
            assert(samples@.take(i as int + 1) =~= samples@.take(i as int).push(samples@[i as int]));
        }
        i = i + 1;
    }
    assert(samples@.take(samples@.len() as int) =~= samples@);
    let ghost full = queue@;
    while queue.len() > capacity
        invariant
            full.len() >= queue@.len(),
            queue@ == full.subrange(full.len() - queue@.len(), full.len() as int),
            queue@.len() >= capacity || full.len() <= capacity,
            full.len() <= capacity ==> queue@ == full,
        decreases queue@.len(),
    {
        let _ = queue.pop_front();
    }
    assert(newest(full, capacity as nat) =~= queue@);
}

/// Downmixes `data` to mono, keeps one frame in `factor`, and appends the result to `sink`,
/// dropping the oldest audio beyond `capacity` if nobody is collecting it. Each sample is first
/// converted by `to_i16`.
pub fn mix_into<S: Copy>(
    sink: &mut VecDeque<i16>,
    data: &[S],
    channels: usize,
    factor: usize,
    capacity: usize,
    to_i16: impl Fn(S) -> i16,
)
    requires
        channels <= 65536,
        factor >= 1,
        forall|s: S| to_i16.requires((s,)),
    ensures
        exists|mapped: Seq<i16>|
            {
                &&& mapped.len() == data@.len()
                &&& forall|i: int|
                    0 <= i < data@.len() ==> to_i16.ensures((data@[i],), #[trigger] mapped[i])
                &&& final(sink)@ == newest(
                    old(sink)@ + mono_spec(
                        mapped,
                        if channels == 0 {
                            1
                        } else {
                            channels as nat
                        },
                        factor as nat,
                    ),
                    capacity as nat,
                )
            },
{
    let channels = if channels == 0 {
        1
    } else {
        channels
    };
    let mut mapped: Vec<i16> = Vec::new();
    let mut i: usize = 0;
    while i < data.len()
        invariant
            i <= data@.len(),
            mapped@.len() == i,
            forall|s: S| to_i16.requires((s,)),
            forall|k: int| 0 <= k < i ==> to_i16.ensures((data@[k],), #[trigger] mapped@[k]),
        decreases data@.len() - i,
    {
        let v = to_i16(data[i]);
        mapped.push(v);
        i = i + 1;
    }
    mix_samples_into(sink, mapped.as_slice(), channels, factor, capacity);
}

/// Downmixes 16-bit `samples` of `channels` channels (zero taken as one) to mono, keeps one frame
/// in `factor`, and appends the result to `sink`, keeping only the newest `capacity` samples.
pub fn mix_samples_into(
    sink: &mut VecDeque<i16>,
    samples: &[i16],
    channels: usize,
    factor: usize,
    capacity: usize,
)
    requires
        channels <= 65536,
        factor >= 1,
    ensures
        final(sink)@ == newest(
            old(sink)@ + mono_spec(
                samples@,
                if channels == 0 {
                    1
                } else {
                    channels as nat
                },
                factor as nat,
            ),
            capacity as nat,
        ),
{
    let channels = if channels == 0 {
        1
    } else {
        channels
    };
    let mono = downmix(samples, channels, factor);
    push_newest(sink, mono.as_slice(), capacity);
}

/// The format after decimating `input_rate` by `factor` (a factor of zero is taken as one), and
/// the number of samples the buffer keeps: [`BUFFER_SECONDS`] of it.
pub fn decimated_format(input_rate: u32, factor: u32) -> (r: (AudioFormat, usize))
    requires
        input_rate as nat * BUFFER_SECONDS <= usize::MAX,
    ensures
        r.0.channels == 1,
        r.0.sample_rate == input_rate / (if factor == 0 {
            1
        } else {
            factor
        }),
        r.1 == r.0.sample_rate * BUFFER_SECONDS,
{
    let factor = if factor == 0 {
        1
    } else {
        factor
    };
    let sample_rate = input_rate / factor;
    (AudioFormat { sample_rate, channels: 1 }, sample_rate as usize * BUFFER_SECONDS)
}

/// However much arrives, the buffer never holds more than its capacity, and what it holds is the
/// newest audio, in order.
pub proof fn lemma_buffer_is_bounded_and_newest(s: Seq<i16>, capacity: nat)
    ensures
        newest(s, capacity).len() == if s.len() > capacity {
            capacity
        } else {
            s.len()
        },
        forall|i: int|
            0 <= i < newest(s, capacity).len() ==> #[trigger] newest(s, capacity)[i] == s[s.len()
                - newest(s, capacity).len() + i],
{
}

/// Keeping one frame in `factor` keeps every `factor`-th frame, starting with the first, and
/// averages a frame whose channels agree to that common value.
pub proof fn lemma_mono_of_agreeing_channels(samples: Seq<i16>, channels: nat, factor: nat, j: int)
    requires
        channels >= 1,
        factor >= 1,
        0 <= j < mono_spec(samples, channels, factor).len(),
        forall|c: int|
            0 <= c < channels ==> #[trigger] samples[j * factor * channels + c] == samples[j
                * factor * channels],
    ensures
        mono_spec(samples, channels, factor)[j] == samples[j * factor * channels],
{
    let start = j * factor * channels;
    let v = samples[start] as int;
    lemma_frame_sum_constant(samples, start, channels, v);
    assert(div_toward_zero(v * channels, channels as int) == v) by (nonlinear_arith)
        requires
            channels >= 1,
            -32768 <= v <= 32767,
    {
        if v >= 0 {
            assert((v * channels) / (channels as int) == v);
        } else {
            assert((-(v * channels)) == (-v) * channels);
            assert(((-v) * channels) / (channels as int) == -v);
        }
    }
}

/// Mixing works frame by frame: the `j`-th mono sample exists exactly when frame `j * factor` is a
/// whole frame, and it is that frame's channel sum divided by their number, rounding toward zero.
/// So frames `0, factor, 2 * factor, ...` each give one sample, in order, and no other frame (nor a
/// trailing partial frame) gives one.
pub proof fn lemma_mono_per_frame(samples: Seq<i16>, channels: nat, factor: nat, j: int)
    requires
        channels >= 1,
        factor >= 1,
        0 <= j,
    ensures
        j < mono_spec(samples, channels, factor).len() <==> j * factor < whole_frames(
            samples.len(),
            channels,
        ),
        j < mono_spec(samples, channels, factor).len() ==> mono_spec(samples, channels, factor)[j]
            == div_toward_zero(frame_sum(samples, (j * factor) * channels, channels), channels as int)
            as i16,
{
    let frames = whole_frames(samples.len(), channels);
    if j < mono_spec(samples, channels, factor).len() {
        lemma_kept_index(j as nat, factor, frames);
    }
    if j * factor < frames {
        assert(j < (frames + factor - 1) / (factor as int)) by (nonlinear_arith)
            requires
                factor >= 1,
                0 <= j,
                j * factor < frames,
        ;
    }
}

proof fn lemma_frame_sum_constant(samples: Seq<i16>, start: int, channels: nat, v: int)
    requires
        forall|c: int| 0 <= c < channels ==> #[trigger] samples[start + c] as int == v,
    ensures
        frame_sum(samples, start, channels) == v * channels,
    decreases channels,
{
    if channels > 0 {
        let k = (channels - 1) as nat;
        lemma_frame_sum_constant(samples, start, k, v);
        assert(samples[start + k] as int == v);
        assert(frame_sum(samples, start, channels) == frame_sum(samples, start, k) + samples[start
            + k] as int);
        assert(v * k + v == v * channels) by (nonlinear_arith)
            requires
                channels == k + 1,
        ;
    } else {
        assert(v * channels == 0) by (nonlinear_arith)
            requires
                channels == 0,
        ;
    }
}

} // verus!
