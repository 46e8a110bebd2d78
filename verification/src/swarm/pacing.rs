//! The pace of a swarm under rate limits. Times are in milliseconds.
use vstd::prelude::*;

verus! {

/// How long the first retry waits.
pub const SWARM_RATE_LIMIT_RETRY_BASE_MS: u64 = 3_000;

/// The least time between two launches after the initial ones.
pub const RAMP_INTERVAL_MS: u64 = 700;

/// The least time between two cuts of the capacity.
pub const RATE_LIMIT_SHRINK_INTERVAL_MS: u64 = 2_000;

/// How long it must be quiet before the capacity grows.
pub const RATE_LIMIT_RECOVERY_QUIET_PERIOD_MS: u64 = 180_000;

/// The longest interval.
pub const MAX_INTERVAL_MS: u128 = 18_446_744_073_709_551_615_999;

/// The latest time that is told.
pub const MAX_TIME_MS: u128 = 1_000_000_000_000_000_000_000_000;

/// The larger of two numbers.
pub open spec fn most(a: int, b: int) -> int {
    if a < b {
        b
    } else {
        a
    }
}

fn larger(a: u128, b: u128) -> (r: u128)
    ensures
        r == most(a as int, b as int),
{
    if a < b {
        b
    } else {
        a
    }
}

/// Twice an interval, up to the longest.
pub open spec fn doubled(ms: int) -> int {
    if 2 * ms > MAX_INTERVAL_MS {
        MAX_INTERVAL_MS as int
    } else {
        2 * ms
    }
}

fn double(ms: u128) -> (r: u128)
    requires
        ms <= MAX_INTERVAL_MS,
    ensures
        r == doubled(ms as int),
        r <= MAX_INTERVAL_MS,
{
    if 2 * ms > MAX_INTERVAL_MS {
        MAX_INTERVAL_MS
    } else {
        2 * ms
    }
}

/// How long the retry of an attempt waits: three seconds, doubled for each
/// attempt after the first.
pub open spec fn backoff(attempt: nat) -> int
    decreases attempt,
{
    if attempt <= 1 {
        SWARM_RATE_LIMIT_RETRY_BASE_MS as int
    } else {
        doubled(backoff((attempt - 1) as nat))
    }
}

proof fn lemma_backoff_capped(from: nat, attempt: nat)
    requires
        1 <= from <= attempt,
        backoff(from) == MAX_INTERVAL_MS,
    ensures
        backoff(attempt) == MAX_INTERVAL_MS,
    decreases attempt,
{
    if attempt > from {
        lemma_backoff_capped(from, (attempt - 1) as nat);
    }
}

/// How long the retry of an attempt waits.
pub fn swarm_rate_limit_backoff(attempt: u32) -> (r: u128)
    ensures
        r == backoff(attempt as nat),
        r <= MAX_INTERVAL_MS,
{
    let mut ms: u128 = SWARM_RATE_LIMIT_RETRY_BASE_MS as u128;
    let mut i: u32 = 1;
    while i < attempt
        invariant
            1 <= i,
            i <= attempt || (attempt == 0 && i == 1),
            ms == backoff(i as nat),
            ms <= MAX_INTERVAL_MS,
        decreases attempt - i,
    {
        if ms == MAX_INTERVAL_MS {
            proof {
                lemma_backoff_capped(i as nat, attempt as nat);
            }
            return ms;
        }
        ms = double(ms);
        i += 1;
    }
    proof {
        assert(backoff(0) == backoff(1));
    }
    ms
}

// ---- pauses ----

/// Holds back launches after a rate limit.
#[derive(Debug, Clone)]
pub struct RateLimitGate {
    pub active: bool,
    pub retry_interval: u128,
    pub rate_limit_pause_until: u128,
    pub last_launch_at: Option<u128>,
}

impl RateLimitGate {
    /// The times are within bounds.
    pub open spec fn wf(&self) -> bool {
        &&& self.retry_interval <= MAX_INTERVAL_MS
        &&& self.rate_limit_pause_until <= MAX_TIME_MS + MAX_INTERVAL_MS
        &&& self.last_launch_at is Some ==> self.last_launch_at->0 <= MAX_TIME_MS
    }

    /// An open gate.
    pub fn new(now: u128) -> (r: RateLimitGate)
        requires
            now <= MAX_TIME_MS,
        ensures
            r.wf(),
            !r.active,
            r.retry_interval == SWARM_RATE_LIMIT_RETRY_BASE_MS,
            r.rate_limit_pause_until == now,
            r.last_launch_at is None,
    {
        RateLimitGate {
            active: false,
            retry_interval: SWARM_RATE_LIMIT_RETRY_BASE_MS as u128,
            rate_limit_pause_until: now,
            last_launch_at: None,
        }
    }

    /// Whether a rate limit was met.
    pub fn active(&self) -> (r: bool)
        ensures
            r == self.active,
    {
        self.active
    }

    /// A rate limit was met: pauses for the interval, which then doubles.
    pub fn note_rate_limit(&mut self, now: u128)
        requires
            old(self).wf(),
            now <= MAX_TIME_MS,
        ensures
            final(self).wf(),
            *final(self) == (RateLimitGate {
                active: true,
                rate_limit_pause_until: most(
                    old(self).rate_limit_pause_until as int,
                    now + old(self).retry_interval,
                ) as u128,
                retry_interval: doubled(old(self).retry_interval as int) as u128,
                ..*old(self)
            }),
    {
        self.active = true;
        self.rate_limit_pause_until =
        larger(self.rate_limit_pause_until, now + self.retry_interval);
        self.retry_interval = double(self.retry_interval);
    }

    /// A request went through: the interval starts over.
    pub fn note_ready(&mut self)
        ensures
            old(self).wf() ==> final(self).wf(),
            *final(self) == (RateLimitGate {
                retry_interval: if old(self).active {
                    SWARM_RATE_LIMIT_RETRY_BASE_MS as u128
                } else {
                    old(self).retry_interval
                },
                ..*old(self)
            }),
    {
        if self.active {
            self.retry_interval = SWARM_RATE_LIMIT_RETRY_BASE_MS as u128;
        }
    }

    /// A launch took place.
    pub fn note_launch(&mut self, now: u128)
        requires
            now <= MAX_TIME_MS,
        ensures
            old(self).wf() ==> final(self).wf(),
            *final(self) == (RateLimitGate { last_launch_at: Some(now), ..*old(self) }),
    {
        self.last_launch_at = Some(now);
    }

    /// When the next launch may take place.
    pub open spec fn opens_at(&self, task_eligible_at: int) -> int {
        most(
            most(task_eligible_at, self.rate_limit_pause_until as int),
            match self.last_launch_at {
                Some(last) => last + self.retry_interval,
                None => self.rate_limit_pause_until as int,
            },
        )
    }

    /// When the next launch may take place: not before the task is eligible,
    /// nor before the pause is over, nor within the interval of the last one.
    pub fn launch_deadline(&self, task_eligible_at: u128) -> (r: u128)
        requires
            self.wf(),
        ensures
            r == self.opens_at(task_eligible_at as int),
    {
        let paced: u128 = match self.last_launch_at {
            Some(last) => last + self.retry_interval,
            None => self.rate_limit_pause_until,
        };
        larger(larger(task_eligible_at, self.rate_limit_pause_until), paced)
    }
}

// ---- the capacity ----

/// How many members may run at once.
#[derive(Debug, Clone)]
pub struct AdaptiveCapacity {
    pub ceiling: usize,
    pub current: usize,
    pub last_rate_limit_at: Option<u128>,
    pub last_shrink_at: Option<u128>,
    pub recovered_since_last_rate_limit: bool,
}

impl AdaptiveCapacity {
    /// Between one and the ceiling.
    pub open spec fn wf(&self) -> bool {
        &&& 1 <= self.current <= self.ceiling
        &&& self.last_rate_limit_at is Some ==> self.last_rate_limit_at->0 <= MAX_TIME_MS
        &&& self.last_shrink_at is Some ==> self.last_shrink_at->0 <= MAX_TIME_MS
    }

    /// The capacity at the start: all members, or the cap.
    pub fn new(total: usize, concurrency_cap: Option<usize>) -> (r: AdaptiveCapacity)
        ensures
            r.wf(),
            r.current == r.ceiling,
            r.ceiling == (match concurrency_cap {
                Some(c) => if c == 0 || total == 0 {
                    1
                } else if c < total {
                    c
                } else {
                    total
                },
                None => if total == 0 {
                    1
                } else {
                    total
                },
            }),
            r.last_rate_limit_at is None,
            r.last_shrink_at is None,
            !r.recovered_since_last_rate_limit,
    {
        let wanted: usize = match concurrency_cap {
            Some(c) => if c < total {
                c
            } else {
                total
            },
            None => total,
        };
        let ceiling: usize = if wanted == 0 {
            1
        } else {
            wanted
        };
        AdaptiveCapacity {
            ceiling,
            current: ceiling,
            last_rate_limit_at: None,
            last_shrink_at: None,
            recovered_since_last_rate_limit: false,
        }
    }

    /// How many members may run at once.
    pub fn current(&self) -> (r: usize)
        ensures
            r == self.current,
    {
        self.current
    }

    /// The capacity after a rate limit. The first one takes it to one less than
    /// what had started; later ones take one off, at most every two seconds.
    pub open spec fn shrunk(&self, now: u128, started: nat) -> (int, bool) {
        if self.last_rate_limit_at is None {
            let had = if started == 0 {
                1
            } else {
                started as int
            };
            let before = if self.current < had {
                self.current as int
            } else {
                had
            };
            (most(before - 1, 1), true)
        } else if self.last_shrink_at is None || now - self.last_shrink_at->0
            >= RATE_LIMIT_SHRINK_INTERVAL_MS {
            (most(self.current - 1, 1), true)
        } else {
            (self.current as int, false)
        }
    }

    /// A rate limit was met.
    pub fn note_rate_limit(&mut self, now: u128, started_count: usize)
        requires
            old(self).wf(),
            now <= MAX_TIME_MS,
        ensures
            final(self).wf(),
            *final(self) == (AdaptiveCapacity {
                current: old(self).shrunk(now, started_count as nat).0 as usize,
                last_shrink_at: if old(self).shrunk(now, started_count as nat).1 {
                    Some(now)
                } else {
                    old(self).last_shrink_at
                },
                last_rate_limit_at: Some(now),
                recovered_since_last_rate_limit: false,
                ..*old(self)
            }),
    {
        if self.last_rate_limit_at.is_none() {
            let had: usize = if started_count == 0 {
                1
            } else {
                started_count
            };
            let before: usize = if self.current < had {
                self.current
            } else {
                had
            };
            self.current = if before > 1 {
                before - 1
            } else {
                1
            };
            self.last_shrink_at = Some(now);
        } else {
            let due: bool = match self.last_shrink_at {
                Some(last) => now >= last && now - last >= RATE_LIMIT_SHRINK_INTERVAL_MS as u128,
                None => true,
            };
            if due {
                self.current = if self.current > 1 {
                    self.current - 1
                } else {
                    1
                };
                self.last_shrink_at = Some(now);
            }
        }
        self.last_rate_limit_at = Some(now);
        self.recovered_since_last_rate_limit = false;
    }

    /// When the capacity may grow again, if it may.
    pub open spec fn recovers_at(&self) -> Option<int> {
        if self.recovered_since_last_rate_limit || self.current >= self.ceiling {
            None
        } else {
            match self.last_rate_limit_at {
                Some(last) => Some(last + RATE_LIMIT_RECOVERY_QUIET_PERIOD_MS),
                None => None,
            }
        }
    }

    /// When the capacity may grow again, if it may: once after each rate limit.
    pub fn recovery_deadline(&self) -> (r: Option<u128>)
        requires
            self.wf(),
        ensures
            match (r, self.recovers_at()) {
                (Some(a), Some(b)) => a == b,
                (None, None) => true,
                _ => false,
            },
    {
        if self.recovered_since_last_rate_limit || self.current >= self.ceiling {
            return None;
        }
        match self.last_rate_limit_at {
            Some(last) => Some(last + RATE_LIMIT_RECOVERY_QUIET_PERIOD_MS as u128),
            None => None,
        }
    }

    /// Lets the capacity grow by one where it is time; says whether it did.
    pub fn recover_if_due(&mut self, now: u128) -> (r: bool)
        requires
            old(self).wf(),
        ensures
            final(self).wf(),
            r == (old(self).recovers_at() is Some && old(self).recovers_at()->0 <= now),
            *final(self) == (if r {
                AdaptiveCapacity {
                    current: (old(self).current + 1) as usize,
                    recovered_since_last_rate_limit: true,
                    ..*old(self)
                }
            } else {
                *old(self)
            }),
    {
        match self.recovery_deadline() {
            None => false,
            Some(deadline) => {
                if now < deadline {
                    return false;
                }
                self.current = self.current + 1;
                self.recovered_since_last_rate_limit = true;
                true
            },
        }
    }
}

// ---- laws ----

/// The pause never ends earlier for another rate limit, and a launch never
/// comes before it ends or before its task is eligible.
pub proof fn law_gate_holds_back(gate: RateLimitGate, task_eligible_at: int)
    ensures
        gate.opens_at(task_eligible_at) >= task_eligible_at,
        gate.opens_at(task_eligible_at) >= gate.rate_limit_pause_until,
        gate.last_launch_at is Some ==> gate.opens_at(task_eligible_at)
            >= gate.last_launch_at->0 + gate.retry_interval,
{
}

/// The backoff of an attempt is at least that of the one before.
pub proof fn law_backoff_grows(attempt: nat)
    ensures
        backoff(attempt) <= backoff(attempt + 1),
        SWARM_RATE_LIMIT_RETRY_BASE_MS <= backoff(attempt) <= MAX_INTERVAL_MS,
    decreases attempt,
{
    if attempt > 1 {
        law_backoff_grows((attempt - 1) as nat);
    }
}

} // verus!
