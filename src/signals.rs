use vstd::prelude::*;

pub mod schedule;
pub mod transform;

verus! {

/// A sampled signal: samples taken at a fixed, integral rate.
pub struct SignalSample<T> {
    pub sample_rate: u32,
    pub samples: Vec<T>,
}

impl<T> SignalSample<T> {
    /// A signal is well formed when its sample rate is positive.
    pub open spec fn wf(&self) -> bool {
        self.sample_rate > 0
    }

    /// Builds a signal from its rate and samples, in time order.
    pub fn new(sample_rate: u32, samples: Vec<T>) -> (r: Self)
        requires
            sample_rate > 0,
        ensures
            r.wf(),
            r.sample_rate == sample_rate,
            r.samples@ == samples@,
    {
        SignalSample { sample_rate, samples }
    }

    /// Number of samples held.
    pub fn len(&self) -> (r: usize)
        ensures
            r == self.samples@.len(),
    {
        self.samples.len()
    }
}

} // verus!
