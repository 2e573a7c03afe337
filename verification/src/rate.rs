//! Token buckets for inbound connection attempts.

use vstd::prelude::*;

verus! {

/// One token, in the billionths of a token that a bucket counts.
pub const TOKEN_SCALE: u128 = 1_000_000_000;

/// A refill rate and the most tokens that may be held at once.
#[derive(Clone, Copy, Debug, PartialEq, Eq, Structural)]
pub struct RateLimit {
    pub rate_per_second: u32,
    pub burst: u32,
}

impl RateLimit {
    pub fn new(rate_per_second: u32, burst: u32) -> (limit: Self)
        ensures
            limit.rate_per_second == rate_per_second,
            limit.burst == burst,
    {
        Self { rate_per_second, burst }
    }

    /// Whether a bucket with this limit can ever refill and ever grant.
    pub open spec fn valid(self) -> bool {
        self.rate_per_second != 0 && self.burst != 0
    }

    pub fn is_valid(self) -> (valid: bool)
        ensures
            valid == self.valid(),
    {
        self.rate_per_second != 0 && self.burst != 0
    }

    /// The most billionths of a token that a bucket with this limit holds.
    pub open spec fn capacity(self) -> nat {
        (self.burst * TOKEN_SCALE) as nat
    }
}

/// A bucket that starts full and refills with time. Moments are nanoseconds on
/// one monotonic clock, so a rate of `n` adds `n` billionths of a token per
/// nanosecond.
#[derive(Clone, Copy, Debug)]
pub struct TokenBucket {
    pub limit: RateLimit,
    pub tokens: u128,
    pub updated_at: u128,
}

/// The tokens held at `now`, before any is taken: what was held, plus the
/// refill since the last update, and never more than the capacity. A clock
/// that went backwards refills nothing.
pub open spec fn refilled(bucket: TokenBucket, now: u128) -> nat {
    let elapsed: int = if now >= bucket.updated_at {
        now - bucket.updated_at
    } else {
        0
    };
    let total: int = bucket.tokens + elapsed * bucket.limit.rate_per_second;
    if total <= bucket.limit.capacity() {
        total as nat
    } else {
        bucket.limit.capacity()
    }
}

/// Whether an attempt at `now` is granted: only for a whole token.
pub open spec fn grants(bucket: TokenBucket, now: u128) -> bool {
    refilled(bucket, now) >= TOKEN_SCALE
}

/// The bucket after an attempt at `now`, which takes a token where it is
/// granted.
pub open spec fn after_take(bucket: TokenBucket, now: u128) -> TokenBucket {
    TokenBucket {
        tokens: (refilled(bucket, now) - (if grants(bucket, now) {
            TOKEN_SCALE as int
        } else {
            0
        })) as u128,
        updated_at: now,
        ..bucket
    }
}

impl TokenBucket {
    /// No bucket holds more than its burst.
    pub open spec fn well_formed(self) -> bool {
        self.tokens <= self.limit.capacity()
    }

    pub fn full(limit: RateLimit, now: u128) -> (bucket: Self)
        ensures
            bucket.well_formed(),
            bucket.limit == limit,
            bucket.tokens == limit.capacity(),
            bucket.updated_at == now,
    {
        Self { limit, tokens: limit.burst as u128 * TOKEN_SCALE, updated_at: now }
    }

    /// Refill to `now` and take one whole token if there is one.
    pub fn try_take(&mut self, now: u128) -> (granted: bool)
        requires
            old(self).well_formed(),
        ensures
            final(self).well_formed(),
            granted == grants(*old(self), now),
            *final(self) == after_take(*old(self), now),
    {
        let elapsed: u128 = now.saturating_sub(self.updated_at);
        let rate: u128 = self.limit.rate_per_second as u128;
        let capacity: u128 = self.limit.burst as u128 * TOKEN_SCALE;
        let refill: u128 = match elapsed.checked_mul(rate) {
            Some(refill) => refill,
            None => u128::MAX,
        };
        let total: u128 = self.tokens.saturating_add(refill);
        self.tokens = if total <= capacity {
            total
        } else {
            capacity
        };
        self.updated_at = now;
        if self.tokens < TOKEN_SCALE {
            return false;
        }
        self.tokens = self.tokens - TOKEN_SCALE;
        true
    }
}

/// A bucket that is asked again at the moment of its last update grants exactly
/// as many attempts as it holds whole tokens: after a full start, `burst`.
pub proof fn law_burst_bounds_grants_at_one_moment(bucket: TokenBucket)
    requires
        bucket.well_formed(),
    ensures
        refilled(bucket, bucket.updated_at) == bucket.tokens,
        bucket.tokens == bucket.limit.capacity() ==> refilled(bucket, bucket.updated_at)
            / TOKEN_SCALE as nat == bucket.limit.burst,
{
    assert(0int * bucket.limit.rate_per_second == 0) by (nonlinear_arith);
    assert((bucket.limit.burst * TOKEN_SCALE) / (TOKEN_SCALE as int) == bucket.limit.burst)
        by (nonlinear_arith)
        requires
            TOKEN_SCALE == 1_000_000_000u128,
    ;
}

/// Waiting longer never leaves fewer tokens, and no wait leaves more than the
/// burst.
pub proof fn law_refill_is_monotone_and_bounded(bucket: TokenBucket, earlier: u128, later: u128)
    requires
        bucket.well_formed(),
        earlier <= later,
    ensures
        refilled(bucket, earlier) <= refilled(bucket, later),
        refilled(bucket, later) <= bucket.limit.capacity(),
{
    let rate: int = bucket.limit.rate_per_second as int;
    let first: int = if earlier >= bucket.updated_at {
        earlier - bucket.updated_at
    } else {
        0
    };
    let second: int = if later >= bucket.updated_at {
        later - bucket.updated_at
    } else {
        0
    };
    assert(first * rate <= second * rate) by (nonlinear_arith)
        requires
            first <= second,
            rate >= 0,
    ;
}

/// How many of the attempts at these moments a bucket grants.
pub open spec fn total_granted(bucket: TokenBucket, moments: Seq<u128>) -> nat
    decreases moments.len(),
{
    if moments.len() == 0 {
        0
    } else {
        total_granted(after_take(bucket, moments[0]), moments.skip(1)) + if grants(
            bucket,
            moments[0],
        ) {
            1nat
        } else {
            0nat
        }
    }
}

/// However attempts are spread over a time, a bucket grants no more of them
/// than it held tokens for at first and refilled since: after a full start, its
/// burst and its rate times the time that passed.
pub proof fn law_grants_are_bounded_by_burst_and_rate(bucket: TokenBucket, moments: Seq<u128>)
    requires
        bucket.well_formed(),
        moments.len() > 0,
        bucket.updated_at <= moments[0],
        forall|i: int, j: int| 0 <= i <= j < moments.len() ==> moments[i] <= moments[j],
    ensures
        total_granted(bucket, moments) * TOKEN_SCALE <= bucket.tokens + (moments.last()
            - bucket.updated_at) * bucket.limit.rate_per_second,
        total_granted(bucket, moments) * TOKEN_SCALE <= bucket.limit.capacity() + (moments.last()
            - bucket.updated_at) * bucket.limit.rate_per_second,
    decreases moments.len(),
{
    let first = moments[0];
    let after = after_take(bucket, first);
    let rest = moments.skip(1);
    let rate = bucket.limit.rate_per_second as int;
    let spent: int = if grants(bucket, first) {
        1
    } else {
        0
    };
    let later: int = total_granted(after, rest) as int;
    assert(after.tokens + spent * TOKEN_SCALE <= bucket.tokens + (first - bucket.updated_at) * rate)
        by {
        assert(spent * TOKEN_SCALE == if spent == 1 {
            TOKEN_SCALE as int
        } else {
            0
        }) by (nonlinear_arith)
            requires
                spent == 0 || spent == 1,
        ;
    }
    if rest.len() > 0 {
        assert forall|i: int, j: int| 0 <= i <= j < rest.len() implies rest[i] <= rest[j] by {
            assert(moments[i + 1] <= moments[j + 1]);
        }
        assert(moments[0] <= moments[1]);
        assert(rest.last() == moments.last());
        law_grants_are_bounded_by_burst_and_rate(after, rest);
    }
    assert(first <= moments.last());
    assert(later * TOKEN_SCALE <= after.tokens + (moments.last() - first) * rate) by {
        if rest.len() == 0 {
            assert(later == 0);
            assert((moments.last() - first) * rate >= 0) by (nonlinear_arith)
                requires
                    first <= moments.last(),
                    rate >= 0,
            ;
        }
    }
    assert((first - bucket.updated_at) * rate + (moments.last() - first) * rate == (moments.last()
        - bucket.updated_at) * rate) by (nonlinear_arith);
    assert((later + spent) * TOKEN_SCALE == later * TOKEN_SCALE + spent * TOKEN_SCALE)
        by (nonlinear_arith);
}

/// An attempt is granted exactly if what the bucket held and what came in since,
/// at its rate and up to its burst, is a whole token; and it costs just that
/// token.
pub proof fn law_a_whole_token_is_a_grant(bucket: TokenBucket, now: u128)
    requires
        bucket.well_formed(),
        bucket.updated_at <= now,
    ensures
        grants(bucket, now) <==> bucket.limit.burst >= 1 && bucket.tokens + (now
            - bucket.updated_at) * bucket.limit.rate_per_second >= 1_000_000_000,
        after_take(bucket, now).updated_at == now,
        after_take(bucket, now).limit == bucket.limit,
        after_take(bucket, now).tokens == refilled(bucket, now) - (if grants(bucket, now) {
            1_000_000_000int
        } else {
            0
        }),
        refilled(bucket, now) <= bucket.tokens + (now - bucket.updated_at)
            * bucket.limit.rate_per_second,
        refilled(bucket, now) == bucket.tokens + (now - bucket.updated_at)
            * bucket.limit.rate_per_second || refilled(bucket, now) == bucket.limit.burst
            * 1_000_000_000,
{
    if bucket.limit.burst >= 1 {
        assert(bucket.limit.burst * TOKEN_SCALE >= TOKEN_SCALE) by (nonlinear_arith)
            requires
                bucket.limit.burst >= 1,
        ;
    } else {
        assert(bucket.limit.burst * TOKEN_SCALE == 0) by (nonlinear_arith)
            requires
                bucket.limit.burst == 0,
        ;
    }
}

/// A bucket that waited long enough for all its tokens is full again, and one
/// second brings in as many tokens as its rate says.
pub proof fn law_a_second_refills_the_rate(bucket: TokenBucket, now: u128)
    requires
        bucket.well_formed(),
        bucket.updated_at + 1_000_000_000 == now,
    ensures
        bucket.tokens + bucket.limit.rate_per_second * 1_000_000_000 <= bucket.limit.burst
            * 1_000_000_000 ==> refilled(bucket, now) == bucket.tokens
            + bucket.limit.rate_per_second * 1_000_000_000,
        bucket.tokens + bucket.limit.rate_per_second * 1_000_000_000 >= bucket.limit.burst
            * 1_000_000_000 ==> refilled(bucket, now) == bucket.limit.burst * 1_000_000_000,
{
    assert((now - bucket.updated_at) * bucket.limit.rate_per_second == bucket.limit.rate_per_second
        * 1_000_000_000) by (nonlinear_arith)
        requires
            now - bucket.updated_at == 1_000_000_000,
    ;
}

/// A full bucket that is asked again and again at one moment grants exactly as
/// many attempts as its burst, or all of them where they are fewer.
pub proof fn law_a_full_bucket_grants_its_burst(bucket: TokenBucket, held: nat, attempts: nat)
    requires
        bucket.tokens == held * 1_000_000_000,
        held <= bucket.limit.burst,
    ensures
        total_granted(bucket, Seq::new(attempts, |i: int| bucket.updated_at)) == (if attempts
            <= held {
            attempts
        } else {
            held
        }),
    decreases attempts,
{
    let moments = Seq::new(attempts, |i: int| bucket.updated_at);
    assert(held * TOKEN_SCALE <= bucket.limit.burst * TOKEN_SCALE) by (nonlinear_arith)
        requires
            held <= bucket.limit.burst,
    ;
    assert(0int * bucket.limit.rate_per_second == 0) by (nonlinear_arith);
    assert(refilled(bucket, bucket.updated_at) == bucket.tokens);
    if attempts > 0 {
        let after = after_take(bucket, bucket.updated_at);
        let rest = Seq::new((attempts - 1) as nat, |i: int| after.updated_at);
        assert(moments.skip(1) =~= rest);
        assert(moments[0] == bucket.updated_at);
        if held > 0 {
            assert(held * 1_000_000_000 - 1_000_000_000 == (held - 1) * 1_000_000_000)
                by (nonlinear_arith);
            assert(grants(bucket, bucket.updated_at));
            law_a_full_bucket_grants_its_burst(after, (held - 1) as nat, (attempts - 1) as nat);
        } else {
            law_a_full_bucket_grants_its_burst(after, 0, (attempts - 1) as nat);
        }
    }
}

/// A clock that went backwards brings nothing in, and takes nothing away.
pub proof fn law_backward_clocks_refill_nothing(bucket: TokenBucket, now: u128)
    requires
        bucket.well_formed(),
        now <= bucket.updated_at,
    ensures
        refilled(bucket, now) == bucket.tokens,
        grants(bucket, now) <==> bucket.tokens >= 1_000_000_000,
{
    assert(0int * bucket.limit.rate_per_second == 0) by (nonlinear_arith);
}

} // verus!
