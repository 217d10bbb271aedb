//! Conversion of decoded audio to the format of the output device.
//!
//! The functions are generic over the sample type: samples are only ever
//! copied, never computed with.

use vstd::arithmetic::div_mod::{
    lemma_basic_div, lemma_div_is_ordered, lemma_fundamental_div_mod,
    lemma_fundamental_div_mod_converse, lemma_multiply_divide_lt,
};
use vstd::prelude::*;

verus! {

/// Frames per second that the output device plays.
pub const OUTPUT_SAMPLE_RATE: usize = 44_100;

/// Interleaved channels that the output device plays.
pub const OUTPUT_CHANNELS: usize = 2;

/// Frames that the output device asks for at a time.
pub const OUTPUT_CHANNEL_SAMPLE_COUNT: usize = 2_048;

/// The number of whole frames in `samples` interleaved samples.
pub open spec fn source_frames(samples: nat, channels: nat) -> nat {
    samples / channels
}

/// The number of output frames that last as long as `frames` frames at `rate`
/// frames per second, rounded up.
pub open spec fn output_frames(frames: nat, rate: nat) -> nat {
    ((frames * OUTPUT_SAMPLE_RATE + rate - 1) / rate as int) as nat
}

/// The source frame that plays at output frame `frame`.
pub open spec fn source_frame(frame: nat, rate: nat) -> nat {
    (frame * rate) / OUTPUT_SAMPLE_RATE as nat
}

/// The sample on side `side` (0 is left, 1 is right) of output frame `frame`.
/// A source with a single channel plays it on both sides; channels beyond the
/// second are left out.
pub open spec fn output_sample<T>(
    samples: Seq<T>,
    rate: nat,
    channels: nat,
    frame: nat,
    side: nat,
) -> T {
    let side = if channels > 1 {
        side
    } else {
        0
    };
    samples[(source_frame(frame, rate) * channels + side) as int]
}

/// `samples`, `channels` interleaved channels at `rate` frames per second, as
/// interleaved stereo at the output rate.
pub open spec fn output_stereo<T>(samples: Seq<T>, rate: nat, channels: nat) -> Seq<T> {
    if rate == 0 || channels == 0 {
        Seq::empty()
    } else {
        Seq::new(
            output_frames(source_frames(samples.len(), channels), rate) * 2,
            |i: int| output_sample(samples, rate, channels, (i / 2) as nat, (i % 2) as nat),
        )
    }
}

/// The sizes that the conversion computes fit in a `usize`.
pub open spec fn output_stereo_fits(samples: nat, rate: nat, channels: nat) -> bool {
    rate > 0 && channels > 0 ==> {
        let frames = source_frames(samples, channels);
        &&& frames * OUTPUT_SAMPLE_RATE <= usize::MAX
        &&& output_frames(frames, rate) * OUTPUT_CHANNELS <= usize::MAX
    }
}

/// The source frame of every output frame is one of the source's frames.
proof fn lemma_source_frame_in_range(frames: nat, rate: nat, frame: nat)
    requires
        rate > 0,
        frame < output_frames(frames, rate),
    ensures
        frame * rate < frames * OUTPUT_SAMPLE_RATE,
        source_frame(frame, rate) < frames,
{
    let total = frames * OUTPUT_SAMPLE_RATE;
    let count = output_frames(frames, rate);
    lemma_fundamental_div_mod((total + rate - 1) as int, rate as int);
    assert(frame * rate <= (count - 1) * rate) by (nonlinear_arith)
        requires
            frame <= count - 1,
            rate > 0,
    ;
    assert((count - 1) * rate == rate * count - rate) by (nonlinear_arith);
    lemma_multiply_divide_lt((frame * rate) as int, OUTPUT_SAMPLE_RATE as int, frames as int);
}

/// Divides, rounding up.
fn div_ceil(dividend: usize, divisor: usize) -> (quotient: usize)
    requires
        divisor > 0,
    ensures
        quotient == (dividend + divisor - 1) / divisor as int,
{
    let quotient: usize = dividend / divisor;
    let rest: usize = dividend % divisor;
    proof {
        let d = divisor as int;
        lemma_fundamental_div_mod(dividend as int, d);
        assert(dividend + d - 1 == quotient * d + (rest + d - 1)) by (nonlinear_arith)
            requires
                dividend == d * quotient + rest,
        ;
        if rest > 0 {
            assert((quotient + 1) * d == quotient * d + d) by (nonlinear_arith);
            assert(quotient < dividend) by (nonlinear_arith)
                requires
                    dividend == d * quotient + rest,
                    0 < rest,
                    0 < d,
            ;
            lemma_fundamental_div_mod_converse(dividend + d - 1, d, quotient + 1, rest - 1);
        } else {
            lemma_fundamental_div_mod_converse(dividend + d - 1, d, quotient as int, d - 1);
        }
    }
    if rest > 0 {
        quotient + 1
    } else {
        quotient
    }
}

/// Converts interleaved samples to interleaved stereo at the output rate, by
/// repeating or leaving out frames.
pub fn to_output_stereo<T: Copy>(samples: &[T], sample_rate: usize, channels: usize) -> (output:
    Vec<T>)
    requires
        output_stereo_fits(samples@.len(), sample_rate as nat, channels as nat),
    ensures
        output@ == output_stereo(samples@, sample_rate as nat, channels as nat),
{
    proof {
        if sample_rate > 0 && samples@.len() / channels as nat == 0 {
            lemma_basic_div(sample_rate - 1, sample_rate as int);
        }
    }
    if samples.len() == 0 || channels == 0 || sample_rate == 0 {
        return Vec::new();
    }
    let source_frames: usize = samples.len() / channels;
    if source_frames == 0 {
        return Vec::new();
    }
    let output_frames: usize = div_ceil(source_frames * OUTPUT_SAMPLE_RATE, sample_rate);
    let mut output: Vec<T> = Vec::with_capacity(output_frames * OUTPUT_CHANNELS);
    let mut output_frame: usize = 0;
    while output_frame < output_frames
        invariant
            channels > 0,
            sample_rate > 0,
            samples@.len() <= usize::MAX,
            0 < source_frames == samples@.len() / channels as nat,
            output_frames == self::output_frames(source_frames as nat, sample_rate as nat),
            source_frames * OUTPUT_SAMPLE_RATE <= usize::MAX,
            output_frame <= output_frames,
            output@.len() == output_frame * 2,
            forall|i: int|
                0 <= i < output@.len() ==> output@[i] == output_sample(
                    samples@,
                    sample_rate as nat,
                    channels as nat,
                    (i / 2) as nat,
                    (i % 2) as nat,
                ),
        decreases output_frames - output_frame,
    {
        proof {
            lemma_source_frame_in_range(
                source_frames as nat,
                sample_rate as nat,
                output_frame as nat,
            );
        }
        let nearest: usize = (output_frame * sample_rate) / OUTPUT_SAMPLE_RATE;
        let source_frame: usize = if nearest < source_frames - 1 {
            nearest
        } else {
            source_frames - 1
        };
        proof {
            lemma_fundamental_div_mod(samples@.len() as int, channels as int);
            assert(source_frame * channels + channels <= channels * source_frames) by (nonlinear_arith)
                requires
                    source_frame + 1 <= source_frames,
                    channels > 0,
            ;
        }
        let source_offset: usize = source_frame * channels;
        let left: T = samples[source_offset];
        let right: T = if channels > 1 {
            samples[source_offset + 1]
        } else {
            left
        };
        output.push(left);
        output.push(right);
        output_frame += 1;
    }
    output
}

/// Stereo that is already at the output rate is not changed: every whole frame
/// of the source comes out as it is.
pub proof fn law_native_format_is_unchanged<T>(samples: Seq<T>)
    ensures
        output_stereo(samples, OUTPUT_SAMPLE_RATE as nat, OUTPUT_CHANNELS as nat)
            == samples.take((samples.len() / 2 * 2) as int),
{
    let output = output_stereo(samples, OUTPUT_SAMPLE_RATE as nat, OUTPUT_CHANNELS as nat);
    let expected = samples.take((samples.len() / 2 * 2) as int);
    assert(output =~= expected);
}

/// A source with one channel sounds the same on both sides.
pub proof fn law_mono_plays_on_both_sides<T>(samples: Seq<T>, rate: nat, frame: nat)
    requires
        rate > 0,
        frame < output_frames(samples.len(), rate),
    ensures
        output_stereo(samples, rate, 1)[(frame * 2) as int] == samples[source_frame(frame, rate) as int],
        output_stereo(samples, rate, 1)[(frame * 2 + 1) as int] == samples[source_frame(
            frame,
            rate,
        ) as int],
{
    assert((frame * 2) / 2 == frame && (frame * 2 + 1) / 2 == frame);
    assert(samples.len() / 1 == samples.len());
}

/// Every output sample is a sample of the source: nothing is made up, whatever
/// the rate and the number of channels.
pub proof fn law_output_comes_from_source<T>(samples: Seq<T>, rate: nat, channels: nat, index: int)
    requires
        0 <= index < output_stereo(samples, rate, channels).len(),
    ensures
        samples.contains(output_stereo(samples, rate, channels)[index]),
{
    let frames = source_frames(samples.len(), channels);
    let frame = (index / 2) as nat;
    let source = source_frame(frame, rate);
    lemma_source_frame_in_range(frames, rate, frame);
    lemma_fundamental_div_mod(samples.len() as int, channels as int);
    assert(source * channels + channels <= channels * frames) by (nonlinear_arith)
        requires
            source + 1 <= frames,
    ;
    let side = if channels > 1 {
        index % 2
    } else {
        0
    };
    assert(0 <= source * channels) by (nonlinear_arith);
    assert(output_stereo(samples, rate, channels)[index] == samples[source * channels + side]);
}

/// The source is played in order: a later output frame never plays an earlier
/// source frame.
pub proof fn law_source_order_is_kept(rate: nat, earlier: nat, later: nat)
    requires
        earlier <= later,
    ensures
        source_frame(earlier, rate) <= source_frame(later, rate),
{
    assert(earlier * rate <= later * rate) by (nonlinear_arith)
        requires
            earlier <= later,
    ;
    lemma_div_is_ordered(
        (earlier * rate) as int,
        (later * rate) as int,
        OUTPUT_SAMPLE_RATE as int,
    );
}

/// The output lasts as long as the source, rounded up to a whole output frame:
/// it covers the source, and one frame less would not.
pub proof fn law_output_covers_source(frames: nat, rate: nat)
    requires
        rate > 0,
    ensures
        output_frames(frames, rate) * rate >= frames * OUTPUT_SAMPLE_RATE,
        output_frames(frames, rate) * rate < frames * OUTPUT_SAMPLE_RATE + rate,
{
    let total = frames * OUTPUT_SAMPLE_RATE;
    let count = output_frames(frames, rate);
    lemma_fundamental_div_mod(total + rate - 1, rate as int);
    assert(count * rate == rate * count) by (nonlinear_arith);
}

/// Each output frame plays the source frame that sounds at its time: the one
/// that has begun by then and is the last that has. Its first channel is on the
/// left, its second, or its only one, on the right.
pub proof fn law_each_frame_plays_at_its_time<T>(
    samples: Seq<T>,
    rate: nat,
    channels: nat,
    frame: nat,
)
    requires
        frame * 2 < output_stereo(samples, rate, channels).len(),
    ensures
        ({
            let output = output_stereo(samples, rate, channels);
            let right = if channels > 1 {
                1int
            } else {
                0
            };
            exists|source: int|
                {
                    &&& 0 <= source
                    &&& source * OUTPUT_SAMPLE_RATE <= frame * rate < (source + 1)
                        * OUTPUT_SAMPLE_RATE
                    &&& output[frame * 2int] == samples[#[trigger] (source * channels)]
                    &&& output[frame * 2int + 1] == samples[source * channels + right]
                }
        }),
{
    let output = output_stereo(samples, rate, channels);
    let source = source_frame(frame, rate) as int;
    lemma_fundamental_div_mod((frame * rate) as int, OUTPUT_SAMPLE_RATE as int);
    assert((frame * 2int) / 2 == frame && (frame * 2int + 1) / 2 == frame);
    assert(output[frame * 2int] == samples[source * channels]);
}

/// The output has two samples per output frame, and as many frames as it takes
/// to cover the whole frames of the source and not one more; without a rate or
/// channels there is no output.
pub proof fn law_output_has_the_length_of_the_source<T>(
    samples: Seq<T>,
    rate: nat,
    channels: nat,
    frames: nat,
)
    requires
        channels > 0 ==> frames * channels <= samples.len() < (frames + 1) * channels,
    ensures
        rate == 0 || channels == 0 ==> output_stereo(samples, rate, channels).len() == 0,
        rate > 0 && channels > 0 ==> {
            let len = output_stereo(samples, rate, channels).len();
            &&& len % 2 == 0
            &&& frames * OUTPUT_SAMPLE_RATE <= (len / 2) * rate < frames * OUTPUT_SAMPLE_RATE + rate
        },
{
    if rate > 0 && channels > 0 {
        assert((frames + 1) * channels == frames * channels + channels) by (nonlinear_arith);
        lemma_fundamental_div_mod_converse(
            samples.len() as int,
            channels as int,
            frames as int,
            samples.len() - frames * channels,
        );
        law_output_covers_source(frames, rate);
        let count = output_frames(frames, rate);
        assert((count * 2) / 2 == count && (count * 2) % 2 == 0);
    }
}

/// Ordinary packets can be converted: the sizes fit whenever the samples, played
/// at the lowest rate, can be counted.
pub proof fn law_ordinary_packets_fit(samples: nat, rate: nat, channels: nat)
    requires
        samples * OUTPUT_SAMPLE_RATE * OUTPUT_CHANNELS <= usize::MAX,
    ensures
        output_stereo_fits(samples, rate, channels),
{
    if rate > 0 && channels > 0 {
        let frames = source_frames(samples, channels);
        let count = output_frames(frames, rate);
        lemma_fundamental_div_mod(samples as int, channels as int);
        assert(frames <= samples) by (nonlinear_arith)
            requires
                samples >= channels * frames,
                channels > 0,
        ;
        law_output_covers_source(frames, rate);
        let total = frames * OUTPUT_SAMPLE_RATE;
        assert(count <= total) by (nonlinear_arith)
            requires
                count * rate < total + rate,
                rate >= 1,
                total >= 0,
                count >= 0,
        ;
    }
}

/// A call of `to_output_stereo` gives whole stereo frames, and in each of them
/// the samples of the source frame that sounds at its time.
pub proof fn law_to_output_stereo_plays_the_source<T: Copy>(
    samples: &[T],
    sample_rate: usize,
    channels: usize,
    output: Vec<T>,
    frame: nat,
)
    requires
        call_ensures(to_output_stereo::<T>, (samples, sample_rate, channels), output),
        frame * 2 < output@.len(),
    ensures
        exists|source: int|
            {
                &&& 0 <= source
                &&& source * OUTPUT_SAMPLE_RATE <= frame * sample_rate < (source + 1)
                    * OUTPUT_SAMPLE_RATE
                &&& output@[frame * 2int] == samples@[#[trigger] (source * channels)]
                &&& channels == 1 ==> output@[frame * 2int + 1] == output@[frame * 2int]
                &&& channels > 1 ==> output@[frame * 2int + 1] == samples@[source * channels + 1]
            },
{
    law_each_frame_plays_at_its_time(samples@, sample_rate as nat, channels as nat, frame);
}

} // verus!
