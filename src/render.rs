use vstd::prelude::*;
use crate::clock::AudioContext;

verus! {

/// Number of whole frames in an interleaved buffer of `len` samples.
pub fn frame_count(len: usize, channels: usize) -> (r: usize)
    requires
        channels > 0,
    ensures
        r == len / channels,
{
    len / channels
}

/// Absolute sample index of frame `i` of a buffer that starts at `base`,
/// wrapping at 2^64.
pub fn frame_sample(base: u64, i: usize) -> (r: u64)
    ensures
        r == (base + i) % 0x1_0000_0000_0000_0000,
{
    base.wrapping_add(i as u64)
}

/// What the renderer does with one buffer of `frames` frames. While stopped
/// it writes silence and the clock stays where it is (`None`). While playing
/// it renders from the clock's position, which it returns, and the clock moves
/// on by `frames`.
pub fn begin_buffer(context: &mut AudioContext, playing: bool, frames: u64) -> (r: Option<u64>)
    ensures
        final(context).rate() == old(context).rate(),
        !playing ==> r is None && final(context).position() == old(context).position(),
        playing ==> r == Some(old(context).position()) && final(context).position() == (old(
            context,
        ).position() + frames) % 0x1_0000_0000_0000_0000,
{
    if !playing {
        return None;
    }
    let base = context.current_sample();
    context.increment_samples(frames);
    Some(base)
}

/// Writes the silent value `equilibrium` to every sample of `out`.
pub fn fill_equilibrium<T: Copy>(out: &mut [T], equilibrium: T)
    ensures
        final(out)@.len() == old(out)@.len(),
        forall|k: int| 0 <= k < final(out)@.len() ==> #[trigger] final(out)@[k] == equilibrium,
{
    let mut k: usize = 0;
    while k < out.len()
        invariant
            k <= out@.len(),
            out@.len() == old(out)@.len(),
            forall|j: int| 0 <= j < k ==> #[trigger] out@[j] == equilibrium,
        decreases out@.len() - k,
    {
        out[k] = equilibrium;
        k += 1;
    }
}

/// Writes frame `f`'s value, `values[f]`, to each of the `channels` samples
/// of that frame in the interleaved buffer `out`. A last frame cut short by
/// the end of the buffer gets its value in the samples it has.
pub fn write_frames<T: Copy>(out: &mut [T], channels: usize, values: &[T])
    requires
        channels > 0,
        values@.len() * channels >= old(out)@.len(),
    ensures
        final(out)@.len() == old(out)@.len(),
        forall|k: int|
            0 <= k < final(out)@.len() ==> #[trigger] final(out)@[k] == values@[k / channels as int],
{
    let mut k: usize = 0;
    while k < out.len()
        invariant
            channels > 0,
            values@.len() * channels >= out@.len(),
            k <= out@.len(),
            out@.len() == old(out)@.len(),
            forall|j: int| 0 <= j < k ==> #[trigger] out@[j] == values@[j / channels as int],
        decreases out@.len() - k,
    {
        let f = k / channels;
        assert(f < values@.len()) by (nonlinear_arith)
            requires
                k < values@.len() * channels,
                f == k / channels,
                channels > 0,
        ;
        out[k] = values[f];
        k += 1;
    }
}

} // verus!
