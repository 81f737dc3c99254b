use vstd::prelude::*;
use vstd::arithmetic::div_mod::lemma_fundamental_div_mod;

verus! {

/// Fixed publication schedule of a randomness beacon: round `r` (rounds start
/// at 1) is published at `genesis_time + (r - 1) * period`. Times are
/// nanoseconds since the UNIX epoch; the schedule itself holds no state.
pub struct RoundClock {
    /// Publish time of round 1, in nanoseconds.
    pub genesis_time: u64,
    /// Distance between two consecutive rounds, in nanoseconds.
    pub period: u64,
}

impl RoundClock {
    /// A usable schedule has a non-zero period.
    pub open spec fn wf(&self) -> bool {
        self.period >= 1
    }

    /// Mathematical publish time of a round, free of machine truncation.
    pub open spec fn spec_publish_time(&self, round: u64) -> int {
        self.genesis_time + (round - 1) * self.period
    }

    pub fn new(genesis_time: u64, period: u64) -> (clock: RoundClock)
        requires
            period >= 1,
        ensures
            clock.wf(),
            clock.genesis_time == genesis_time,
            clock.period == period,
    {
        RoundClock { genesis_time, period }
    }

    /// Canonical publish time of `round`. Round 0 does not exist; the round
    /// must lie on the part of the schedule that a 64-bit clock can express.
    pub fn publish_time(&self, round: u64) -> (t: u64)
        requires
            self.wf(),
            round >= 1,
            self.spec_publish_time(round) <= u64::MAX,
        ensures
            t == self.spec_publish_time(round),
    {
        proof {
            assert((round - 1) * self.period >= 0) by (nonlinear_arith)
                requires round >= 1;
        }
        self.genesis_time + (round - 1) * self.period
    }

    /// Two consecutive rounds are published exactly one period apart; repeated
    /// application of the schedule accumulates no drift.
    pub proof fn lemma_publish_time_step(&self, round: u64)
        requires
            round > 1,
        ensures
            self.spec_publish_time(round) == self.spec_publish_time((round - 1) as u64)
                + self.period,
    {
        assert((round - 1) * self.period == (round - 2) * self.period + self.period)
            by (nonlinear_arith)
            requires round > 1;
    }

    /// Publish times grow with the round number.
    pub proof fn lemma_publish_time_mono(&self, r1: u64, r2: u64)
        requires
            self.wf(),
            1 <= r1 <= r2,
        ensures
            self.spec_publish_time(r1) <= self.spec_publish_time(r2),
            r1 < r2 ==> self.spec_publish_time(r1) < self.spec_publish_time(r2),
    {
        assert((r1 - 1) * self.period <= (r2 - 1) * self.period) by (nonlinear_arith)
            requires 1 <= r1 <= r2, self.period >= 1;
        assert(r1 < r2 ==> (r1 - 1) * self.period < (r2 - 1) * self.period)
            by (nonlinear_arith)
            requires 1 <= r1 <= r2, self.period >= 1;
    }

    /// Whether `r` is the smallest round published at or after `not_before`.
    pub open spec fn is_round_after(&self, not_before: u64, r: u64) -> bool {
        &&& r >= 1
        &&& self.spec_publish_time(r) >= not_before
        &&& r > 1 ==> self.spec_publish_time((r - 1) as u64) < not_before
    }

    /// Only one round is the first published at or after a threshold.
    pub proof fn lemma_round_after_unique(&self, not_before: u64, r1: u64, r2: u64)
        requires
            self.wf(),
            self.is_round_after(not_before, r1),
            self.is_round_after(not_before, r2),
        ensures
            r1 == r2,
    {
        if r1 < r2 {
            self.lemma_publish_time_mono(r1, (r2 - 1) as u64);
        } else if r2 < r1 {
            self.lemma_publish_time_mono(r2, (r1 - 1) as u64);
        }
    }

    /// Smallest round whose publish time is at or after `not_before`: a round
    /// published exactly at the threshold satisfies the request. The bound on
    /// `not_before` keeps the answer within 64 bits.
    pub fn round_after(&self, not_before: u64) -> (round: u64)
        requires
            self.wf(),
            not_before <= self.genesis_time + (u64::MAX - 1) * self.period,
        ensures
            round >= 1,
            self.spec_publish_time(round) >= not_before,
            round > 1 ==> self.spec_publish_time((round - 1) as u64) < not_before,
            self.is_round_after(not_before, round),
    {
        if not_before <= self.genesis_time {
            1
        } else {
            let diff: u64 = not_before - self.genesis_time;
            let p: u128 = self.period as u128;
            let num: u128 = diff as u128 + p - 1;
            let k: u128 = num / p;
            proof {
                lemma_fundamental_div_mod(num as int, p as int);
                // k * p covers diff, and (k - 1) * p falls short of it.
                assert(k >= 1 && k * p >= diff && (k - 1) * p < diff) by (nonlinear_arith)
                    requires
                        num == diff + p - 1,
                        p >= 1,
                        diff >= 1,
                        num == p * (k as int) + (num as int) % (p as int),
                        0 <= (num as int) % (p as int) < p;
                // diff <= (u64::MAX - 1) * p bounds k below u64::MAX.
                assert(k <= u64::MAX - 1) by (nonlinear_arith)
                    requires
                        p >= 1,
                        diff >= 1,
                        diff <= (u64::MAX - 1) * (p as int),
                        k * p >= diff,
                        (k - 1) * p < diff;
            }
            let round: u64 = 1 + (k as u64);
            proof {
                assert(self.spec_publish_time(round) == self.genesis_time + k * p)
                    by (nonlinear_arith)
                    requires
                        round == 1 + k,
                        self.spec_publish_time(round) == self.genesis_time
                            + (round - 1) * self.period,
                        p == self.period;
                assert(round > 1 ==> self.spec_publish_time((round - 1) as u64)
                    == self.genesis_time + (k - 1) * p)
                    by (nonlinear_arith)
                    requires
                        round == 1 + k,
                        k >= 1,
                        self.spec_publish_time((round - 1) as u64) == self.genesis_time
                            + ((round - 1) - 1) * self.period,
                        p == self.period;
            }
            round
        }
    }
}

} // verus!
