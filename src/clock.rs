use vstd::prelude::*;

verus! {

/// Sample counter and sample rate shared by every node of a graph.
///
/// The sample rate is held in whole hertz, as audio devices report it.
pub struct AudioContext {
    sample_rate: u32,
    current_sample: u64,
}

impl AudioContext {
    pub closed spec fn rate(&self) -> u32 {
        self.sample_rate
    }

    pub closed spec fn position(&self) -> u64 {
        self.current_sample
    }

    /// A clock at sample zero.
    pub fn new(sample_rate: u32) -> (r: Self)
        requires
            sample_rate > 0,
        ensures
            r.rate() == sample_rate,
            r.position() == 0,
    {
        AudioContext { sample_rate, current_sample: 0 }
    }

    pub fn sample_rate(&self) -> (r: u32)
        ensures
            r == self.rate(),
    {
        self.sample_rate
    }

    /// Advances the counter by `n` samples, wrapping at 2^64.
    pub fn increment_samples(&mut self, n: u64)
        ensures
            final(self).rate() == old(self).rate(),
            final(self).position() == (old(self).position() + n) % 0x1_0000_0000_0000_0000,
    {
        self.current_sample = self.current_sample.wrapping_add(n);
    }

    pub fn current_sample(&self) -> (r: u64)
        ensures
            r == self.position(),
    {
        self.current_sample
    }
}

} // verus!
