use vstd::prelude::*;
use vstd::arithmetic::div_mod::lemma_add_mod_noop;
use vstd::arithmetic::div_mod::lemma_small_mod;
use crate::nodes::SamplingContext;

verus! {

/// The counter that times the samples: it goes up by one per sample and wraps
/// to zero when it reaches the sample rate, once per second.
pub struct SampleClock {
    counter: u32,
    sample_rate: u32,
}

/// Where a counter that stands at `position` stands `steps` samples later.
pub open spec fn position_after(position: nat, sample_rate: nat, steps: nat) -> nat {
    (position + steps) % sample_rate
}

impl SampleClock {
    /// The count of the sample that comes next.
    pub closed spec fn position(&self) -> nat {
        self.counter as nat
    }

    /// The number of samples per second.
    pub closed spec fn rate(&self) -> nat {
        self.sample_rate as nat
    }

    /// The counter is below the rate, so the playback position lies in
    /// `[0, 1)`.
    pub open spec fn wf(&self) -> bool {
        self.position() < self.rate()
    }

    /// A clock at position 0. There is none for a rate of 0.
    pub fn new(sample_rate: u32) -> (clock: Option<SampleClock>)
        ensures
            clock is Some <==> sample_rate > 0,
            clock matches Some(c) ==> c.wf() && c.position() == 0 && c.rate() == sample_rate,
    {
        if sample_rate == 0 {
            None
        } else {
            Some(SampleClock { counter: 0, sample_rate })
        }
    }

    /// The context of the sample that comes next; the counter then moves on
    /// by one and wraps at the rate.
    pub fn advance(&mut self) -> (ctx: SamplingContext)
        requires
            old(self).wf(),
        ensures
            final(self).wf(),
            ctx.wf(),
            ctx.clock == old(self).position(),
            ctx.sample_rate == old(self).rate(),
            final(self).rate() == old(self).rate(),
            final(self).position() == position_after(old(self).position(), old(self).rate(), 1),
    {
        let ctx = SamplingContext { clock: self.counter, sample_rate: self.sample_rate };
        if self.counter + 1 == self.sample_rate {
            proof {
                vstd::arithmetic::div_mod::lemma_mod_self_0(self.sample_rate as int);
            }
            self.counter = 0;
        } else {
            proof {
                lemma_small_mod((self.counter + 1) as nat, self.sample_rate as nat);
            }
            self.counter = self.counter + 1;
        }
        ctx
    }
}

/// Steps add up: moving on by `m` samples and then by `n` is moving on by
/// `m + n`. So the sample that is `n` calls away from position 0 is timed at
/// `n` modulo the rate.
pub proof fn lemma_steps_add_up(position: nat, sample_rate: nat, m: nat, n: nat)
    requires
        sample_rate > 0,
    ensures
        position_after(position_after(position, sample_rate, m), sample_rate, n)
            == position_after(position, sample_rate, m + n),
        position_after(position, sample_rate, m) < sample_rate,
{
    lemma_add_mod_noop((position + m) as int, n as int, sample_rate as int);
    lemma_add_mod_noop(((position + m) % sample_rate) as int, n as int, sample_rate as int);
    vstd::arithmetic::div_mod::lemma_mod_twice((position + m) as int, sample_rate as int);
}

} // verus!
