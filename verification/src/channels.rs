//! Changing the channel count of interleaved audio.

use vstd::prelude::*;

verus! {

/// The sample at channel `c` of frame `f` after converting interleaved
/// audio from `input` to `output` channels: mono is copied to both sides
/// of a stereo output; otherwise channels are kept by index, missing ones
/// are silent and extra ones dropped.
pub open spec fn converted_sample<T>(
    samples: Seq<T>,
    input: nat,
    output: nat,
    silence: T,
    f: int,
    c: int,
) -> T {
    if input == 1 && output == 2 {
        samples[f]
    } else if c < input {
        samples[f * input + c]
    } else {
        silence
    }
}

/// Convert interleaved samples from `input_channels` to `output_channels`
/// per frame. Only whole frames are converted; either count being zero
/// gives no output.
pub fn convert_channels_interleaved<T: Copy>(
    samples: &[T],
    input_channels: usize,
    output_channels: usize,
    silence: T,
) -> (out: Vec<T>)
    ensures
        input_channels == 0 || output_channels == 0 ==> out@.len() == 0,
        input_channels > 0 && output_channels > 0 ==> {
            let frames = samples@.len() / (input_channels as nat);
            &&& out@.len() == frames * output_channels
            &&& forall|f: int, c: int|
                0 <= f < frames && 0 <= c < output_channels ==> #[trigger] out@[f * output_channels
                    + c] == converted_sample(
                    samples@,
                    input_channels as nat,
                    output_channels as nat,
                    silence,
                    f,
                    c,
                )
        },
{
    if input_channels == 0 || output_channels == 0 {
        return Vec::new();
    }
    let n = samples.len();
    let frames = n / input_channels;
    let mut out: Vec<T> = Vec::new();
    if frames == 0 {
        return out;
    }
    proof {
        assert(frames * input_channels <= n) by (nonlinear_arith)
            requires
                frames == n / input_channels,
                input_channels > 0,
        ;
    }
    let mut f: usize = 0;
    while f < frames
        invariant
            n == samples@.len(),
            input_channels > 0,
            output_channels > 0,
            frames == n / input_channels,
            frames * input_channels <= n,
            0 <= f <= frames,
            out@.len() == f * output_channels,
            forall|g: int, c: int|
                0 <= g < f && 0 <= c < output_channels ==> #[trigger] out@[g * output_channels + c]
                    == converted_sample(
                    samples@,
                    input_channels as nat,
                    output_channels as nat,
                    silence,
                    g,
                    c,
                ),
        decreases frames - f,
    {
        proof {
            assert((f + 1) * input_channels <= frames * input_channels) by (nonlinear_arith)
                requires
                    f < frames,
            ;
            assert((f + 1) * input_channels == f * input_channels + input_channels) by (
            nonlinear_arith);
        }
        let base = f * input_channels;
        let mut c: usize = 0;
        while c < output_channels
            invariant
                n == samples@.len(),
                input_channels > 0,
                output_channels > 0,
                f < frames,
                base == f * input_channels,
                base + input_channels <= n,
                f < n,
                0 <= c <= output_channels,
                out@.len() == f * output_channels + c,
                forall|g: int, d: int|
                    0 <= g < f && 0 <= d < output_channels ==> #[trigger] out@[g * output_channels
                        + d] == converted_sample(
                        samples@,
                        input_channels as nat,
                        output_channels as nat,
                        silence,
                        g,
                        d,
                    ),
                forall|d: int|
                    0 <= d < c ==> #[trigger] out@[f * output_channels + d] == converted_sample(
                        samples@,
                        input_channels as nat,
                        output_channels as nat,
                        silence,
                        f as int,
                        d,
                    ),
            decreases output_channels - c,
        {
            let s = if input_channels == 1 && output_channels == 2 {
                samples[f]
            } else if c < input_channels {
                samples[base + c]
            } else {
                silence
            };
            out.push(s);
            proof {
                assert forall|g: int, d: int|
                    0 <= g < f && 0 <= d < output_channels implies #[trigger] out@[g
                    * output_channels + d] == converted_sample(
                    samples@,
                    input_channels as nat,
                    output_channels as nat,
                    silence,
                    g,
                    d,
                ) by {
                    assert(g * output_channels + d < f * output_channels) by (nonlinear_arith)
                        requires
                            g < f,
                            0 <= d < output_channels,
                    ;
                }
            }
            c = c + 1;
        }
        proof {
            assert((f + 1) * output_channels == f * output_channels + output_channels) by (
            nonlinear_arith);
        }
        f = f + 1;
    }
    out
}

/// Converting to the same channel count keeps every sample of the whole
/// frames where it was; a mono source becomes stereo with its sample on
/// both sides; channels beyond the source's are silent.
pub proof fn lemma_converted_sample_cases<T>(
    samples: Seq<T>,
    input: nat,
    output: nat,
    silence: T,
    f: int,
    c: int,
)
    requires
        0 <= c < output,
    ensures
        input == output ==> converted_sample(samples, input, output, silence, f, c) == samples[f
            * input + c],
        input == 1 && output == 2 ==> converted_sample(samples, input, output, silence, f, c)
            == samples[f],
        !(input == 1 && output == 2) && c >= input ==> converted_sample(
            samples,
            input,
            output,
            silence,
            f,
            c,
        ) == silence,
{
}

} // verus!
