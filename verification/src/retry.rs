use vstd::prelude::*;
use vstd::arithmetic::power2::{pow2, lemma2_to64, lemma_pow2_strictly_increases};
use vstd::bits::lemma_u64_shl_is_mul;

verus! {

/// Exponential-backoff counter: tracks how many connect attempts have been
/// scheduled and yields the delay, in seconds, to sleep before the next one.
#[derive(Clone, Copy)]
pub struct Retry {
    pub attempts_count: u64,
}

/// The backoff delay for a given number of attempts: `2 ^ attempts`,
/// capped at 30 seconds.
pub open spec fn spec_delay(attempts: u64) -> int {
    vstd::math::min(pow2(attempts as nat) as int, 30)
}

impl Retry {
    /// A fresh counter: no attempts tracked yet.
    pub fn starting() -> (r: Retry)
        ensures
            r.attempts_count == 0,
    {
        Retry { attempts_count: 0 }
    }

    /// Records one more scheduled connect attempt. The count saturates at
    /// the machine limit; the delay is capped long before that.
    pub fn track(&mut self)
        ensures
            final(self).attempts_count == if old(self).attempts_count < u64::MAX {
                old(self).attempts_count + 1
            } else {
                old(self).attempts_count as int
            },
    {
        if self.attempts_count < u64::MAX {
            self.attempts_count = self.attempts_count + 1;
        }
    }

    /// The backoff delay in seconds: `min(2 ^ attempts, 30)`.
    pub fn delay(&self) -> (r: u64)
        ensures
            r as int == spec_delay(self.attempts_count),
    {
        proof {
            lemma2_to64();
        }
        if self.attempts_count >= 5 {
            proof {
                if self.attempts_count > 5 {
                    lemma_pow2_strictly_increases(5, self.attempts_count as nat);
                }
            }
            30
        } else {
            proof {
                lemma_u64_shl_is_mul(1u64, self.attempts_count);
                if self.attempts_count < 4 {
                    lemma_pow2_strictly_increases(self.attempts_count as nat, 4);
                }
            }
            1u64 << self.attempts_count
        }
    }
}

/// Backoff saturation: from the fifth attempt on, the delay stays at its
/// 30-second cap.
pub proof fn lemma_delay_saturates(attempts: u64)
    requires
        attempts >= 5,
    ensures
        spec_delay(attempts) == 30,
{
    lemma2_to64();
    if attempts > 5 {
        lemma_pow2_strictly_increases(5, attempts as nat);
    }
}

} // verus!
