//! Rate limiter gate: per-direction byte and operation token buckets with a
//! blocked flag and an externally driven replenishment timer.
//!
//! Time never enters this model: consuming from an exhausted bucket arms the
//! timer and reports blocked; the surrounding event loop later delivers the
//! timer event, which refills the buckets for the next epoch.

use vstd::prelude::*;

verus! {

/// Which budget a consumption draws from.
#[derive(Clone, Copy, Debug, PartialEq, Eq, Structural)]
pub enum TokenType {
    Bytes,
    Ops,
}

/// Error of the replenishment timer handler: the timer fired while no
/// consumption was blocked on it.
#[derive(Clone, Copy, Debug, PartialEq, Eq, Structural)]
pub enum TimerError {
    SpuriousRateLimiterEvent,
}

/// A token bucket: a budget capped at `size`, plus a one-time burst allowance
/// spent before the budget is touched and never refilled.
#[derive(Clone, Copy, Debug, PartialEq, Eq, Structural)]
pub struct TokenBucket {
    /// Capacity the budget refills to.
    pub size: u64,
    /// Remaining one-time burst allowance.
    pub one_time_burst: u64,
    /// Configured time of one full refill, kept as configuration data.
    pub refill_time_ms: u64,
    /// Tokens currently available from the capacity.
    pub budget: u64,
}

/// Whether `b` can serve a consumption of `amount` tokens.
pub open spec fn tb_consume_ok(b: TokenBucket, amount: u64) -> bool {
    amount <= b.one_time_burst + b.budget
}

/// `b` after a successful consumption of `amount` tokens: the burst allowance
/// is spent first, then the budget.
pub open spec fn tb_after_consume(b: TokenBucket, amount: u64) -> TokenBucket {
    if amount <= b.one_time_burst {
        (TokenBucket { one_time_burst: (b.one_time_burst - amount) as u64, ..b })
    } else {
        (TokenBucket {
            one_time_burst: 0,
            budget: (b.budget - (amount - b.one_time_burst)) as u64,
            ..b
        })
    }
}

impl TokenBucket {
    /// The budget never exceeds the capacity.
    pub open spec fn wf(&self) -> bool {
        self.budget <= self.size
    }

    /// A full bucket, or `None` when the capacity or the refill time is zero
    /// (such a bucket cannot limit anything).
    pub fn new(size: u64, one_time_burst: u64, refill_time_ms: u64) -> (r: Option<TokenBucket>)
        ensures
            (size == 0 || refill_time_ms == 0) <==> r is None,
            r matches Some(b) ==> b == (TokenBucket {
                size,
                one_time_burst,
                refill_time_ms,
                budget: size,
            }) && b.wf(),
    {
        if size == 0 || refill_time_ms == 0 {
            None
        } else {
            Some(TokenBucket { size, one_time_burst, refill_time_ms, budget: size })
        }
    }

    /// Capacity the budget refills to.
    pub fn capacity(&self) -> (r: u64)
        ensures
            r == self.size,
    {
        self.size
    }

    /// Remaining one-time burst allowance.
    pub fn one_time_burst(&self) -> (r: u64)
        ensures
            r == self.one_time_burst,
    {
        self.one_time_burst
    }

    /// Configured full-refill time.
    pub fn refill_time_ms(&self) -> (r: u64)
        ensures
            r == self.refill_time_ms,
    {
        self.refill_time_ms
    }

    /// Tokens currently available from the capacity.
    pub fn budget(&self) -> (r: u64)
        ensures
            r == self.budget,
    {
        self.budget
    }

    /// Takes `amount` tokens if the burst allowance and the budget together
    /// cover them; otherwise takes nothing and reports failure.
    pub fn reduce(&mut self, amount: u64) -> (r: bool)
        ensures
            r == tb_consume_ok(*old(self), amount),
            r ==> *final(self) == tb_after_consume(*old(self), amount),
            !r ==> *final(self) == *old(self),
    {
        if amount <= self.one_time_burst {
            self.one_time_burst = self.one_time_burst - amount;
            true
        } else {
            let rest: u64 = amount - self.one_time_burst;
            if rest <= self.budget {
                self.budget = self.budget - rest;
                self.one_time_burst = 0;
                true
            } else {
                false
            }
        }
    }

    /// Returns `amount` tokens to the budget, capped at the capacity.
    pub fn replenish(&mut self, amount: u64)
        requires
            old(self).wf(),
        ensures
            final(self).wf(),
            *final(self) == (TokenBucket {
                budget: if old(self).budget + amount > old(self).size {
                    old(self).size
                } else {
                    (old(self).budget + amount) as u64
                },
                ..*old(self)
            }),
    {
        if amount > self.size - self.budget {
            self.budget = self.size;
        } else {
            self.budget = self.budget + amount;
        }
    }

    /// Refills the budget to the capacity, opening a new epoch.
    pub fn refill_full(&mut self)
        ensures
            *final(self) == (TokenBucket { budget: old(self).size, ..*old(self) }),
            final(self).wf(),
    {
        self.budget = self.size;
    }
}

/// Replacement instruction for one bucket of a rate limiter.
#[derive(Clone, Copy, Debug, PartialEq, Eq, Structural)]
pub enum BucketUpdate {
    /// Leave the bucket as it is.
    Keep,
    /// Remove the bucket; the direction becomes unlimited.
    Disabled,
    /// Replace the bucket with the given one.
    Update(TokenBucket),
}

/// A bucket after applying an update instruction.
pub open spec fn bucket_updated(b: Option<TokenBucket>, upd: BucketUpdate) -> Option<TokenBucket> {
    match upd {
        BucketUpdate::Keep => b,
        BucketUpdate::Disabled => None,
        BucketUpdate::Update(nb) => Some(nb),
    }
}

/// The limiter after its replenishment timer event: both budgets refilled to
/// capacity and the direction unblocked.
pub open spec fn rl_refilled(rl: RateLimiter) -> RateLimiter {
    RateLimiter {
        bandwidth: match rl.bandwidth {
            Some(b) => Some((TokenBucket { budget: b.size, ..b })),
            None => None,
        },
        ops: match rl.ops {
            Some(b) => Some((TokenBucket { budget: b.size, ..b })),
            None => None,
        },
        timer_armed: false,
    }
}

/// One direction's rate limiter: an optional bandwidth bucket, an optional
/// operations bucket, and the armed state of the replenishment timer.
pub struct RateLimiter {
    pub bandwidth: Option<TokenBucket>,
    pub ops: Option<TokenBucket>,
    pub timer_armed: bool,
}

/// Whether the limiter can serve `amount` tokens of kind `kind`; a missing
/// bucket never limits.
pub open spec fn rl_consume_ok(rl: RateLimiter, amount: u64, kind: TokenType) -> bool {
    match kind {
        TokenType::Bytes => match rl.bandwidth {
            Some(b) => tb_consume_ok(b, amount),
            None => true,
        },
        TokenType::Ops => match rl.ops {
            Some(b) => tb_consume_ok(b, amount),
            None => true,
        },
    }
}

/// The limiter after `consume(amount, kind)`: on success the bucket shrinks,
/// on failure nothing shrinks and the timer is armed.
pub open spec fn rl_after_consume(rl: RateLimiter, amount: u64, kind: TokenType) -> RateLimiter {
    if rl_consume_ok(rl, amount, kind) {
        match kind {
            TokenType::Bytes => (RateLimiter {
                bandwidth: match rl.bandwidth {
                    Some(b) => Some(tb_after_consume(b, amount)),
                    None => None,
                },
                ..rl
            }),
            TokenType::Ops => (RateLimiter {
                ops: match rl.ops {
                    Some(b) => Some(tb_after_consume(b, amount)),
                    None => None,
                },
                ..rl
            }),
        }
    } else {
        (RateLimiter { timer_armed: true, ..rl })
    }
}

/// The limiter after `manual_replenish(amount, kind)`.
pub open spec fn rl_after_replenish(rl: RateLimiter, amount: u64, kind: TokenType) -> RateLimiter {
    match kind {
        TokenType::Bytes => (RateLimiter {
            bandwidth: match rl.bandwidth {
                Some(b) => Some(
                    (TokenBucket {
                        budget: if b.budget + amount > b.size {
                            b.size
                        } else {
                            (b.budget + amount) as u64
                        },
                        ..b
                    }),
                ),
                None => None,
            },
            ..rl
        }),
        TokenType::Ops => (RateLimiter {
            ops: match rl.ops {
                Some(b) => Some(
                    (TokenBucket {
                        budget: if b.budget + amount > b.size {
                            b.size
                        } else {
                            (b.budget + amount) as u64
                        },
                        ..b
                    }),
                ),
                None => None,
            },
            ..rl
        }),
    }
}

impl RateLimiter {
    /// Both buckets, where present, keep their budget within capacity.
    pub open spec fn wf(&self) -> bool {
        &&& (self.bandwidth matches Some(b) ==> b.wf())
        &&& (self.ops matches Some(b) ==> b.wf())
    }

    /// A limiter with the given bucket configurations; a zero capacity or
    /// refill time leaves that direction unlimited.
    pub fn new(
        bytes_size: u64,
        bytes_one_time_burst: u64,
        bytes_refill_time_ms: u64,
        ops_size: u64,
        ops_one_time_burst: u64,
        ops_refill_time_ms: u64,
    ) -> (r: RateLimiter)
        ensures
            r.wf(),
            !r.timer_armed,
            r.bandwidth == TokenBucket::new_spec(
                bytes_size,
                bytes_one_time_burst,
                bytes_refill_time_ms,
            ),
            r.ops == TokenBucket::new_spec(ops_size, ops_one_time_burst, ops_refill_time_ms),
    {
        RateLimiter {
            bandwidth: TokenBucket::new(bytes_size, bytes_one_time_burst, bytes_refill_time_ms),
            ops: TokenBucket::new(ops_size, ops_one_time_burst, ops_refill_time_ms),
            timer_armed: false,
        }
    }

    /// The bandwidth bucket, if one is configured.
    pub fn bandwidth(&self) -> (r: Option<&TokenBucket>)
        ensures
            r is Some <==> self.bandwidth is Some,
            r matches Some(b) ==> self.bandwidth == Some(*b),
    {
        self.bandwidth.as_ref()
    }

    /// The operations bucket, if one is configured.
    pub fn ops(&self) -> (r: Option<&TokenBucket>)
        ensures
            r is Some <==> self.ops is Some,
            r matches Some(b) ==> self.ops == Some(*b),
    {
        self.ops.as_ref()
    }

    /// Whether a failed consumption has armed the timer and the direction is
    /// paused until the timer event arrives.
    pub fn is_blocked(&self) -> (r: bool)
        ensures
            r == self.timer_armed,
    {
        self.timer_armed
    }

    /// Takes `amount` tokens of kind `kind`.  On failure nothing is taken,
    /// the timer is armed, and the caller must pause this direction.
    pub fn consume(&mut self, amount: u64, kind: TokenType) -> (r: bool)
        requires
            old(self).wf(),
        ensures
            final(self).wf(),
            r == rl_consume_ok(*old(self), amount, kind),
            *final(self) == rl_after_consume(*old(self), amount, kind),
    {
        let bucket: &mut Option<TokenBucket> = match kind {
            TokenType::Bytes => &mut self.bandwidth,
            TokenType::Ops => &mut self.ops,
        };
        let ok: bool = match bucket {
            Some(b) => b.reduce(amount),
            None => true,
        };
        if !ok {
            self.timer_armed = true;
        }
        ok
    }

    /// Returns `amount` tokens of kind `kind` to the budget, for traffic that
    /// bypasses accounting.
    pub fn manual_replenish(&mut self, amount: u64, kind: TokenType)
        requires
            old(self).wf(),
        ensures
            final(self).wf(),
            *final(self) == rl_after_replenish(*old(self), amount, kind),
    {
        let bucket: &mut Option<TokenBucket> = match kind {
            TokenType::Bytes => &mut self.bandwidth,
            TokenType::Ops => &mut self.ops,
        };
        match bucket {
            Some(b) => b.replenish(amount),
            None => (),
        }
    }

    /// Handles the replenishment timer event: refills both budgets for the
    /// next epoch and unblocks the direction.  Fails when the timer fires
    /// spuriously, with no blocked consumption waiting on it.
    pub fn event_handler(&mut self) -> (r: Result<(), TimerError>)
        requires
            old(self).wf(),
        ensures
            final(self).wf(),
            r is Ok <==> old(self).timer_armed,
            !old(self).timer_armed ==> r == Err::<(), TimerError>(
                TimerError::SpuriousRateLimiterEvent,
            ) && *final(self) == *old(self),
            old(self).timer_armed ==> *final(self) == rl_refilled(*old(self)),
    {
        if !self.timer_armed {
            return Err(TimerError::SpuriousRateLimiterEvent);
        }
        match &mut self.bandwidth {
            Some(b) => b.refill_full(),
            None => (),
        }
        match &mut self.ops {
            Some(b) => b.refill_full(),
            None => (),
        }
        self.timer_armed = false;
        Ok(())
    }

    /// Replaces the buckets according to the two update instructions.
    pub fn update_buckets(&mut self, bytes: BucketUpdate, ops: BucketUpdate)
        ensures
            final(self).bandwidth == bucket_updated(old(self).bandwidth, bytes),
            final(self).ops == bucket_updated(old(self).ops, ops),
            final(self).timer_armed == old(self).timer_armed,
    {
        match bytes {
            BucketUpdate::Keep => (),
            BucketUpdate::Disabled => {
                self.bandwidth = None;
            },
            BucketUpdate::Update(nb) => {
                self.bandwidth = Some(nb);
            },
        }
        match ops {
            BucketUpdate::Keep => (),
            BucketUpdate::Disabled => {
                self.ops = None;
            },
            BucketUpdate::Update(nb) => {
                self.ops = Some(nb);
            },
        }
    }
}

impl TokenBucket {
    /// What `TokenBucket::new` returns, as a spec-level value.
    pub open spec fn new_spec(size: u64, one_time_burst: u64, refill_time_ms: u64) -> Option<
        TokenBucket,
    > {
        if size == 0 || refill_time_ms == 0 {
            None
        } else {
            Some((TokenBucket { size, one_time_burst, refill_time_ms, budget: size }))
        }
    }
}

} // verus!
