//! A token bucket that limits transfer rates: it holds at most one second's
//! worth of bytes, refills with time, and says how long to wait for more.
use vstd::prelude::*;

verus! {

/// A token bucket for a rate in bytes per second. Time is given by the
/// caller in milliseconds of a monotonic clock.
#[derive(Debug, Clone, Copy, PartialEq, Eq, Structural)]
pub struct TokenBucket {
    /// Bytes per second; also the most the bucket holds.
    pub rate: u64,
    /// Bytes that may pass now.
    pub tokens: u64,
    /// When the bucket was last refilled.
    pub last_refill_ms: u64,
}

/// Bytes earned over `elapsed_ms` milliseconds at `rate` bytes per second.
pub open spec fn earned(rate: u64, elapsed_ms: int) -> int {
    (elapsed_ms * rate) / 1000
}

/// The smaller of two numbers.
pub open spec fn min_int(a: int, b: int) -> int {
    if a <= b { a } else { b }
}

/// Milliseconds to wait until `need` bytes may pass.
pub open spec fn spec_wait_ms(tokens: u64, rate: u64, need: u64) -> int {
    if need <= tokens {
        0
    } else {
        (((need - tokens) * 1000) + rate - 1) / (rate as int)
    }
}

impl TokenBucket {
    /// The bucket never holds more than one second's worth of bytes.
    pub open spec fn wf(&self) -> bool {
        self.tokens <= self.rate
    }

    /// A full bucket for `rate` bytes per second, started at `now_ms`.
    pub fn new(rate: u64, now_ms: u64) -> (b: TokenBucket)
        ensures
            b.wf(),
            b.rate == rate,
            b.tokens == rate,
            b.last_refill_ms == now_ms,
    {
        TokenBucket { rate, tokens: rate, last_refill_ms: now_ms }
    }

    /// Adds what was earned since the last refill, up to the rate. A clock
    /// that reads earlier than the last refill earns nothing.
    pub fn refill(&mut self, now_ms: u64)
        requires
            old(self).wf(),
        ensures
            final(self).wf(),
            final(self).rate == old(self).rate,
            now_ms >= old(self).last_refill_ms ==> final(self).tokens == min_int(
                old(self).tokens + earned(old(self).rate, now_ms - old(self).last_refill_ms),
                old(self).rate as int,
            ),
            now_ms >= old(self).last_refill_ms ==> final(self).last_refill_ms == now_ms,
            now_ms < old(self).last_refill_ms ==> *final(self) == *old(self),
    {
        if now_ms < self.last_refill_ms {
            return;
        }
        let elapsed = (now_ms - self.last_refill_ms) as u128;
        assert(elapsed * (self.rate as u128) <= u64::MAX as u128 * u64::MAX as u128) by (nonlinear_arith)
            requires elapsed <= u64::MAX, self.rate <= u64::MAX;
        let gained: u128 = elapsed * (self.rate as u128) / 1000;
        assert(gained <= u64::MAX as u128 * u64::MAX as u128);
        let total: u128 = self.tokens as u128 + gained;
        let capped: u128 = if total <= self.rate as u128 { total } else { self.rate as u128 };
        self.tokens = capped as u64;
        self.last_refill_ms = now_ms;
    }

    /// Lets up to `want` bytes pass now: as many as the bucket holds.
    pub fn take(&mut self, want: u64) -> (granted: u64)
        requires
            old(self).wf(),
        ensures
            final(self).wf(),
            granted == min_int(want as int, old(self).tokens as int),
            final(self).tokens == old(self).tokens - granted,
            final(self).rate == old(self).rate,
            final(self).last_refill_ms == old(self).last_refill_ms,
    {
        let granted = if want <= self.tokens { want } else { self.tokens };
        self.tokens = self.tokens - granted;
        granted
    }

    /// How long to wait before `need` bytes may pass, for a need no larger
    /// than the bucket holds.
    pub fn wait_ms(&self, need: u64) -> (ms: u64)
        requires
            self.wf(),
            0 < self.rate,
            need <= self.rate,
        ensures
            ms == spec_wait_ms(self.tokens, self.rate, need),
            ms <= 1000,
    {
        if need <= self.tokens {
            0
        } else {
            let deficit = (need - self.tokens) as u128;
            let r = self.rate as u128;
            assert(deficit <= r);
            let num: u128 = deficit * 1000 + r - 1;
            let q = num / r;
            assert(q <= 1000) by (nonlinear_arith)
                requires q == num / r, num == deficit * 1000 + r - 1, deficit <= r, r > 0;
            q as u64
        }
    }
}

/// Waiting the advised time is enough: after that many milliseconds the
/// bucket has earned the bytes it lacked.
pub proof fn law_waiting_is_enough(tokens: u64, rate: u64, need: u64)
    requires
        tokens <= rate,
        0 < rate,
        need <= rate,
    ensures
        min_int(tokens + earned(rate, spec_wait_ms(tokens, rate, need)), rate as int) >= need,
{
    if need > tokens {
        let d: int = need - tokens;
        let w = spec_wait_ms(tokens, rate, need);
        assert(w * rate >= d * 1000) by (nonlinear_arith)
            requires w == (d * 1000 + rate - 1) / (rate as int), rate > 0, d > 0;
        assert((w * rate) / 1000 >= d) by (nonlinear_arith)
            requires w * rate >= d * 1000;
    } else {
        assert(earned(rate, 0) == 0);
    }
}

} // verus!
