//! The scheduler of a swarm: what to launch, and when. Times are in
//! milliseconds.
use vstd::prelude::*;
#[allow(unused_imports)]
use vstd::string::*;

#[allow(unused_imports)]
use crate::ids::{fresh_id, uuid_text};
#[allow(unused_imports)]
use crate::swarm::pacing::{
    AdaptiveCapacity, MAX_INTERVAL_MS, MAX_TIME_MS, RAMP_INTERVAL_MS, RateLimitGate,
    SWARM_RATE_LIMIT_RETRY_BASE_MS, backoff, doubled, most, swarm_rate_limit_backoff,
};
#[allow(unused_imports)]
use crate::swarm::plan::{MAX_MEMBERS, initial_launch_count, launch_count};
#[allow(unused_imports)]
use crate::swarm::render::{MemberResult};
#[allow(unused_imports)]
use crate::table::{Key, Keyed, find, lemma_find, lookup, take_entry, without};
#[allow(unused_imports)]
use crate::text::{
    add_text, drop_text, in_list, lemma_in_list, same_text, texts_but, views, with_text,
};

verus! {

/// A member whose subagent runs.
#[derive(Debug, Clone)]
pub struct ActiveMember {
    pub agent_id: String,
    pub index: u32,
}

impl Keyed for ActiveMember {
    open spec fn key(&self) -> Key {
        (self.agent_id@, ""@)
    }

    fn has_key(&self, a: &str, b: &str) -> (r: bool) {
        same_text(self.agent_id.as_str(), a) && same_text("", b)
    }
}

/// A member that waits for a retry, and the channel on which it is told.
#[derive(Debug, Clone)]
pub struct PendingRetry {
    pub subagent_id: String,
    pub attempt: u32,
    pub eligible_at: u128,
    pub reply: u64,
}

/// What happens to a swarm.
#[derive(Debug)]
pub enum SwarmEvent {
    /// The provider took a request of a member.
    ProviderRequestStarted { subagent_id: String },
    /// A member met a rate limit and asks what to do.
    RateLimitWaiting { subagent_id: String, attempt: u32, reply: u64 },
    /// A member tries again.
    RateLimitRetrying,
    /// A member ended.
    MemberDone { agent_id: String, result: MemberResult },
    /// The quiet period is over.
    RecoveryDue,
    /// It is time for the next launch.
    LaunchDue,
    /// It is time for the next launch or retry after a rate limit.
    RateLimitedLaunchDue,
}

/// What the host does for a swarm.
#[derive(Debug)]
pub enum SwarmAction {
    Nothing,
    /// Start the member with the index under an id.
    Launch { index: usize, agent_id: String },
    /// Tell a member to try again.
    Retry { subagent_id: String, reply: u64 },
    /// Tell a member to fail.
    Fail { reply: u64 },
}

/// What a swarm waits for besides its members.
#[derive(Debug, Clone, Copy)]
pub struct SwarmWait {
    pub launch_at: Option<u128>,
    pub rate_limited_launch_at: Option<u128>,
    pub recovery_at: Option<u128>,
}

/// The scheduler.
#[derive(Debug)]
pub struct SwarmScheduler {
    /// The results, by member.
    pub slots: Vec<Option<MemberResult>>,
    /// The next member to start.
    pub next: usize,
    pub active: Vec<ActiveMember>,
    /// The members that wait for a retry.
    pub waiting: Vec<String>,
    /// The retries, the next first.
    pub pending_retries: Vec<PendingRetry>,
    /// The members whose request the provider took.
    pub ready_launches: Vec<String>,
    pub capacity: AdaptiveCapacity,
    pub gate: RateLimitGate,
    /// The earliest time of the next launch.
    pub next_launch: u128,
}

/// How many members have no result.
pub open spec fn unfinished(s: Seq<Option<MemberResult>>) -> nat
    decreases s.len(),
{
    if s.len() == 0 {
        0
    } else {
        unfinished(s.drop_last()) + (if s.last() is None {
            1nat
        } else {
            0nat
        })
    }
}

/// The retries but those of a member.
pub open spec fn retries_but(s: Seq<PendingRetry>, id: Seq<char>) -> Seq<PendingRetry>
    decreases s.len(),
{
    if s.len() == 0 {
        Seq::empty()
    } else if s.last().subagent_id@ == id {
        retries_but(s.drop_last(), id)
    } else {
        retries_but(s.drop_last(), id).push(s.last())
    }
}

fn drop_retries(v: &mut Vec<PendingRetry>, id: &str)
    ensures
        final(v)@ == retries_but(old(v)@, id@),
{
    let ghost all = v@;
    let ghost n = 0int;
    let mut kept: Vec<PendingRetry> = Vec::new();
    proof {
        assert(all.skip(0) =~= all);
    }
    while v.len() > 0
        invariant
            0 <= n <= all.len(),
            v@ == all.skip(n),
            kept@ == retries_but(all.take(n), id@),
        decreases v.len(),
    {
        let r: PendingRetry = v.remove(0);
        proof {
            assert(all.take(n + 1).drop_last() =~= all.take(n));
            assert(v@ =~= all.skip(n + 1));
            n = n + 1;
        }
        if !same_text(r.subagent_id.as_str(), id) {
            kept.push(r);
        }
    }
    proof {
        assert(all.take(n) =~= all);
    }
    *v = kept;
}

fn count_unfinished(v: &Vec<Option<MemberResult>>) -> (r: usize)
    ensures
        r == unfinished(v@),
{
    let mut n: usize = 0;
    let mut i: usize = 0;
    while i < v.len()
        invariant
            i <= v@.len(),
            n <= i,
            n == unfinished(v@.take(i as int)),
        decreases v.len() - i,
    {
        proof {
            assert(v@.take(i as int + 1).drop_last() =~= v@.take(i as int));
        }
        if v[i].is_none() {
            n += 1;
        }
        i += 1;
    }
    proof {
        assert(v@.take(i as int) =~= v@);
    }
    n
}

/// Puts a result into its slot.
pub fn store_result(slots: &mut Vec<Option<MemberResult>>, result: MemberResult)
    requires
        (result.index as int) < old(slots)@.len(),
    ensures
        final(slots)@ == old(slots)@.update(result.index as int, Some(result)),
{
    let index: usize = result.index as usize;
    slots.set(index, Some(result));
}

impl SwarmScheduler {
    /// Results stand in their slots; every member that started has a result or
    /// runs; no member is counted twice; the pace is within its bounds.
    pub open spec fn wf(&self) -> bool {
        &&& self.next <= self.slots@.len() <= u32::MAX
        &&& self.gate.wf()
        &&& self.capacity.wf()
        &&& self.next_launch <= MAX_TIME_MS + RAMP_INTERVAL_MS
        &&& views(self.waiting@).no_duplicates()
        &&& views(self.ready_launches@).no_duplicates()
        &&& forall|i: int|
            0 <= i < self.slots@.len() && (#[trigger] self.slots@[i]) is Some
                ==> self.slots@[i]->0.index == i
        &&& forall|a: int|
            0 <= a < self.active@.len() ==> (#[trigger] self.active@[a]).index < self.next
        &&& forall|i: int|
            0 <= i < self.next ==> (#[trigger] self.slots@[i]) is Some || self.runs(i)
        &&& forall|i: int|
            0 <= i < self.pending_retries@.len() ==> (
            #[trigger] self.pending_retries@[i]).eligible_at <= MAX_TIME_MS + MAX_INTERVAL_MS
    }

    /// The subagent of a member runs.
    pub open spec fn runs(&self, index: int) -> bool {
        exists|a: int| 0 <= a < self.active@.len() && (#[trigger] self.active@[a]).index == index
    }

    /// A swarm of some members, before any starts.
    pub fn new(total: usize, concurrency_cap: Option<usize>, now: u128) -> (r: SwarmScheduler)
        requires
            total <= MAX_MEMBERS,
            now <= MAX_TIME_MS,
        ensures
            r.wf(),
            r.slots@.len() == total,
            forall|i: int| 0 <= i < total ==> (#[trigger] r.slots@[i]) is None,
            r.next == 0,
            r.active@.len() == 0,
            r.waiting@.len() == 0,
            r.pending_retries@.len() == 0,
            r.ready_launches@.len() == 0,
            r.capacity.current == r.capacity.ceiling,
            r.capacity.ceiling == (match concurrency_cap {
                Some(c) => if c == 0 || total == 0 {
                    1
                } else if c < total {
                    c
                } else {
                    total
                },
                None => if total == 0 {
                    1
                } else {
                    total
                },
            }),
            r.capacity.last_rate_limit_at is None,
            r.capacity.last_shrink_at is None,
            !r.capacity.recovered_since_last_rate_limit,
            !r.gate.active,
            r.gate.retry_interval == SWARM_RATE_LIMIT_RETRY_BASE_MS,
            r.gate.rate_limit_pause_until == now,
            r.gate.last_launch_at is None,
            r.next_launch == now + RAMP_INTERVAL_MS,
    {
        let mut slots: Vec<Option<MemberResult>> = Vec::new();
        let mut i: usize = 0;
        while i < total
            invariant
                i <= total,
                slots@.len() == i,
                forall|j: int| 0 <= j < i ==> (#[trigger] slots@[j]) is None,
            decreases total - i,
        {
            slots.push(None);
            i += 1;
        }
        proof {
            assert(views(Seq::<String>::empty()).len() == 0);
        }
        SwarmScheduler {
            slots,
            next: 0,
            active: Vec::new(),
            waiting: Vec::new(),
            pending_retries: Vec::new(),
            ready_launches: Vec::new(),
            capacity: AdaptiveCapacity::new(total, concurrency_cap),
            gate: RateLimitGate::new(now),
            next_launch: now + RAMP_INTERVAL_MS as u128,
        }
    }

    /// The next member was started.
    pub open spec fn launched(&self, before: SwarmScheduler, action: SwarmAction) -> bool {
        &&& *self == (SwarmScheduler {
            next: (before.next + 1) as usize,
            active: self.active,
            gate: self.gate,
            next_launch: self.next_launch,
            ..before
        })
        &&& self.active@.len() == before.active@.len() + 1
        &&& self.active@.drop_last() == before.active@
        &&& self.active@.last().index == before.next
        &&& uuid_text(self.active@.last().agent_id@)
        &&& match action {
            SwarmAction::Launch { index, agent_id } => index == before.next && agent_id@
                == self.active@.last().agent_id@,
            _ => false,
        }
    }

    /// Starts the next member, under a fresh id.
    pub fn launch_next(&mut self) -> (r: SwarmAction)
        requires
            old(self).wf(),
            old(self).next < old(self).slots@.len(),
        ensures
            final(self).wf(),
            final(self).launched(*old(self), r),
            final(self).gate == old(self).gate,
            final(self).next_launch == old(self).next_launch,
    {
        let ghost before = *self;
        let index: usize = self.next;
        let agent_id: String = fresh_id();
        self.active.push(ActiveMember { agent_id: agent_id.clone(), index: index as u32 });
        self.next = index + 1;
        proof {
            assert(self.active@.drop_last() =~= before.active@);
            assert forall|i: int| 0 <= i < self.next implies (#[trigger] self.slots@[i]) is Some
                || self.runs(i) by {
                if i < index {
                    if before.runs(i) {
                        let a = choose|a: int|
                            0 <= a < before.active@.len() && (#[trigger] before.active@[a]).index
                                == i;
                        assert(self.active@[a].index == i);
                    }
                } else {
                    assert(self.active@[before.active@.len() as int].index == i);
                }
            }
        }
        SwarmAction::Launch { index, agent_id }
    }

    /// Starts the first members at once; the next launch waits for the ramp.
    pub fn start(&mut self, concurrency_cap: Option<usize>, now: u128) -> (r: Vec<SwarmAction>)
        requires
            old(self).wf(),
            old(self).next == 0,
            old(self).active@.len() == 0,
            now <= MAX_TIME_MS,
        ensures
            final(self).wf(),
            *final(self) == (SwarmScheduler {
                next: final(self).next,
                active: final(self).active,
                next_launch: (now + RAMP_INTERVAL_MS) as u128,
                ..*old(self)
            }),
            final(self).next == launch_count(old(self).slots@.len() as int, concurrency_cap),
            final(self).active@.len() == final(self).next,
            r@.len() == final(self).next,
            forall|i: int|
                0 <= i < r@.len() ==> final(self).active@[i].index == i && uuid_text(
                    final(self).active@[i].agent_id@,
                ) && (#[trigger] r@[i] matches SwarmAction::Launch { index, agent_id } && index == i
                    && agent_id@ == final(self).active@[i].agent_id@),
    {
        let ghost before = *self;
        let initial: usize = initial_launch_count(self.slots.len(), concurrency_cap);
        let mut out: Vec<SwarmAction> = Vec::new();
        while self.next < initial
            invariant
                self.wf(),
                initial == launch_count(before.slots@.len() as int, concurrency_cap),
                *self == (SwarmScheduler { next: self.next, active: self.active, ..before }),
                self.next <= initial <= self.slots@.len(),
                self.active@.len() == self.next,
                out@.len() == self.next,
                forall|i: int|
                    0 <= i < out@.len() ==> self.active@[i].index == i && uuid_text(
                        self.active@[i].agent_id@,
                    ) && (#[trigger] out@[i] matches SwarmAction::Launch { index, agent_id } && index == i
                        && agent_id@ == self.active@[i].agent_id@),
            decreases initial - self.next,
        {
            let ghost held = self.active@;
            let action: SwarmAction = self.launch_next();
            proof {
                assert forall|i: int| 0 <= i < held.len() implies self.active@[i] == held[i] by {
                    assert(self.active@.drop_last()[i] == held[i]);
                }
            }
            out.push(action);
        }
        self.next_launch = now + RAMP_INTERVAL_MS as u128;
        out
    }

    /// How many members take up capacity: those that wait for a retry do not.
    pub open spec fn effective_active(&self) -> int {
        most(self.active@.len() - self.waiting@.len(), 0)
    }

    /// There is something to start or to try again.
    pub open spec fn has_queued_work(&self) -> bool {
        self.next < self.slots@.len() || self.pending_retries@.len() > 0
    }

    /// The next member may start.
    pub open spec fn may_launch(&self) -> bool {
        !self.gate.active && self.next < self.slots@.len() && self.effective_active()
            < self.capacity.current
    }

    /// A retry or the next member may start after a rate limit.
    pub open spec fn may_launch_rate_limited(&self) -> bool {
        self.gate.active && self.has_queued_work() && self.effective_active()
            < self.capacity.current
    }

    /// All members have ended.
    pub open spec fn done(&self) -> bool {
        self.next == self.slots@.len() && self.active@.len() == 0 && self.pending_retries@.len()
            == 0
    }

    /// Whether all members have ended.
    pub fn is_done(&self) -> (r: bool)
        requires
            self.wf(),
        ensures
            r == self.done(),
    {
        self.next == self.slots.len() && self.active.len() == 0 && self.pending_retries.len() == 0
    }

    fn below_capacity(&self) -> (r: bool)
        ensures
            r == (self.effective_active() < self.capacity.current),
    {
        let effective: usize = if self.active.len() > self.waiting.len() {
            self.active.len() - self.waiting.len()
        } else {
            0
        };
        effective < self.capacity.current()
    }

    /// When a task that is tried again may go: the first retry's time, or now.
    pub open spec fn eligible_at(&self, now: u128) -> u128 {
        if self.pending_retries@.len() > 0 {
            self.pending_retries@[0].eligible_at
        } else {
            now
        }
    }

    fn first_eligible(&self, now: u128) -> (r: u128)
        ensures
            r == self.eligible_at(now),
    {
        if self.pending_retries.len() > 0 {
            self.pending_retries[0].eligible_at
        } else {
            now
        }
    }

    /// What the swarm waits for besides its members.
    pub fn wait(&self, now: u128) -> (r: SwarmWait)
        requires
            self.wf(),
            now <= MAX_TIME_MS,
        ensures
            r.launch_at == (if self.may_launch() {
                Some(self.next_launch)
            } else {
                None
            }),
            match r.rate_limited_launch_at {
                Some(t) => self.may_launch_rate_limited() && t == self.gate.opens_at(
                    self.eligible_at(now) as int,
                ),
                None => !self.may_launch_rate_limited(),
            },
            match (r.recovery_at, self.capacity.recovers_at()) {
                (Some(a), Some(b)) => self.gate.active && self.has_queued_work() && a == b,
                (Some(_), None) => false,
                (None, b) => !(self.gate.active && self.has_queued_work()) || b is None,
            },
    {
        let queued: bool = self.next < self.slots.len() || self.pending_retries.len() > 0;
        let below: bool = self.below_capacity();
        let launch_at: Option<u128> = if !self.gate.active() && self.next < self.slots.len()
            && below {
            Some(self.next_launch)
        } else {
            None
        };
        let eligible: u128 = self.first_eligible(now);
        let rate_limited_launch_at: Option<u128> = if self.gate.active() && queued && below {
            Some(self.gate.launch_deadline(eligible))
        } else {
            None
        };
        let recovery_at: Option<u128> = if self.gate.active() && queued {
            self.capacity.recovery_deadline()
        } else {
            None
        };
        SwarmWait { launch_at, rate_limited_launch_at, recovery_at }
    }

    /// The event can happen: a member that ended was running, and its result is
    /// its own.
    pub open spec fn can_happen(&self, event: SwarmEvent) -> bool {
        match event {
            SwarmEvent::MemberDone { agent_id, result } => match lookup(
                self.active@,
                (agent_id@, ""@),
            ) {
                Some(m) => m.index == result.index,
                None => false,
            },
            _ => true,
        }
    }

    /// What a rate limit leaves and asks for: the last unfinished member fails,
    /// others wait, the capacity shrinks, and launches pause.
    pub open spec fn rate_limit_post(
        &self,
        before: SwarmScheduler,
        id: String,
        attempt: u32,
        reply: u64,
        now: u128,
        action: SwarmAction,
    ) -> bool {
        if unfinished(before.slots@) <= 1 {
            &&& *self == before
            &&& action matches SwarmAction::Fail { reply: to } && to == reply
        } else {
            let started = before.ready_launches@.len();
            &&& action is Nothing
            &&& *self == (SwarmScheduler {
                waiting: self.waiting,
                pending_retries: self.pending_retries,
                capacity: self.capacity,
                gate: self.gate,
                ..before
            })
            &&& views(self.waiting@) == with_text(views(before.waiting@), id@)
            &&& self.pending_retries@.len() > 0
            &&& self.pending_retries@[0] == (PendingRetry {
                subagent_id: id,
                attempt,
                eligible_at: (now + backoff(attempt as nat)) as u128,
                reply,
            })
            &&& self.pending_retries@.drop_first() == retries_but(before.pending_retries@, id@)
            &&& self.capacity == (AdaptiveCapacity {
                current: before.capacity.shrunk(now, started).0 as usize,
                last_shrink_at: if before.capacity.shrunk(now, started).1 {
                    Some(now)
                } else {
                    before.capacity.last_shrink_at
                },
                last_rate_limit_at: Some(now),
                recovered_since_last_rate_limit: false,
                ..before.capacity
            })
            &&& self.gate == (RateLimitGate {
                active: true,
                rate_limit_pause_until: most(
                    before.gate.rate_limit_pause_until as int,
                    now + before.gate.retry_interval,
                ) as u128,
                retry_interval: doubled(before.gate.retry_interval as int) as u128,
                ..before.gate
            })
        }
    }

    /// What an event leaves and asks for.
    pub open spec fn event_post(
        &self,
        before: SwarmScheduler,
        event: SwarmEvent,
        now: u128,
        action: SwarmAction,
    ) -> bool {
        match event {
            SwarmEvent::ProviderRequestStarted { subagent_id } => {
                &&& action is Nothing
                &&& *self == (SwarmScheduler {
                    ready_launches: self.ready_launches,
                    gate: self.gate,
                    ..before
                })
                &&& views(self.ready_launches@) == with_text(
                    views(before.ready_launches@),
                    subagent_id@,
                )
                &&& self.gate == (RateLimitGate {
                    retry_interval: if before.gate.active {
                        SWARM_RATE_LIMIT_RETRY_BASE_MS as u128
                    } else {
                        before.gate.retry_interval
                    },
                    ..before.gate
                })
            },
            SwarmEvent::RateLimitWaiting { subagent_id, attempt, reply } => self.rate_limit_post(
                before,
                subagent_id,
                attempt,
                reply,
                now,
                action,
            ),
            SwarmEvent::RateLimitRetrying => action is Nothing && *self == before,
            SwarmEvent::MemberDone { agent_id, result } => {
                &&& action is Nothing
                &&& *self == (SwarmScheduler {
                    active: self.active,
                    waiting: self.waiting,
                    pending_retries: self.pending_retries,
                    slots: self.slots,
                    ..before
                })
                &&& self.active@ == without(before.active@, (agent_id@, ""@))
                &&& self.waiting@ == texts_but(before.waiting@, agent_id@)
                &&& self.pending_retries@ == retries_but(before.pending_retries@, agent_id@)
                &&& self.slots@ == before.slots@.update(result.index as int, Some(result))
            },
            SwarmEvent::RecoveryDue => {
                let due = before.capacity.recovers_at() is Some
                    && before.capacity.recovers_at()->0 <= now;
                &&& action is Nothing
                &&& *self == (SwarmScheduler { capacity: self.capacity, ..before })
                &&& self.capacity == (if due {
                    AdaptiveCapacity {
                        current: (before.capacity.current + 1) as usize,
                        recovered_since_last_rate_limit: true,
                        ..before.capacity
                    }
                } else {
                    before.capacity
                })
            },
            SwarmEvent::LaunchDue => if before.may_launch() && before.next_launch <= now {
                &&& self.launched(before, action)
                &&& self.gate == before.gate
                &&& self.next_launch == now + RAMP_INTERVAL_MS
            } else {
                action is Nothing && *self == before
            },
            SwarmEvent::RateLimitedLaunchDue => if before.may_launch_rate_limited()
                && before.gate.opens_at(before.eligible_at(now) as int) <= now {
                &&& self.gate == (RateLimitGate { last_launch_at: Some(now), ..before.gate })
                &&& if before.pending_retries@.len() > 0 {
                    let retry = before.pending_retries@[0];
                    &&& *self == (SwarmScheduler {
                        waiting: self.waiting,
                        pending_retries: self.pending_retries,
                        gate: self.gate,
                        ..before
                    })
                    &&& self.pending_retries@ == before.pending_retries@.drop_first()
                    &&& self.waiting@ == texts_but(before.waiting@, retry.subagent_id@)
                    &&& action == (SwarmAction::Retry {
                        subagent_id: retry.subagent_id,
                        reply: retry.reply,
                    })
                } else {
                    &&& self.launched(before, action)
                    &&& self.next_launch == before.next_launch
                }
            } else {
                action is Nothing && *self == before
            },
        }
    }

    fn member_done(&mut self, agent_id: &str, result: MemberResult)
        requires
            old(self).wf(),
            lookup(old(self).active@, (agent_id@, ""@)) is Some,
            lookup(old(self).active@, (agent_id@, ""@))->0.index == result.index,
        ensures
            final(self).wf(),
            *final(self) == (SwarmScheduler {
                active: final(self).active,
                waiting: final(self).waiting,
                pending_retries: final(self).pending_retries,
                slots: final(self).slots,
                ..*old(self)
            }),
            final(self).active@ == without(old(self).active@, (agent_id@, ""@)),
            final(self).waiting@ == texts_but(old(self).waiting@, agent_id@),
            final(self).pending_retries@ == retries_but(
                old(self).pending_retries@,
                agent_id@,
            ),
            final(self).slots@ == old(self).slots@.update(result.index as int, Some(result)),
    {
        let ghost before = *self;
        proof {
            lemma_find(before.active@, (agent_id@, ""@));
        }
        let ghost g = find(before.active@, (agent_id@, ""@))->0;
        let ghost index = result.index as int;
        let _ = take_entry(&mut self.active, agent_id, "");
        drop_text(&mut self.waiting, agent_id);
        drop_retries(&mut self.pending_retries, agent_id);
        store_result(&mut self.slots, result);
        proof {
            let after = *self;
            assert forall|i: int| 0 <= i < after.next implies (#[trigger] after.slots@[i]) is Some
                || after.runs(i) by {
                if i != index && before.slots@[i] is None {
                    assert(before.runs(i));
                    let a = choose|a: int|
                        0 <= a < before.active@.len() && (#[trigger] before.active@[a]).index == i;
                    assert(a != g);
                    let b = if a < g { a } else { a - 1 };
                    assert(after.active@[b] == before.active@[a]);
                }
            }
            assert forall|a: int| 0 <= a < after.active@.len() implies (
            #[trigger] after.active@[a]).index < after.next by {
                let b = if a < g { a } else { a + 1 };
                assert(after.active@[a] == before.active@[b]);
            }
            lemma_retries_within(before.pending_retries@, agent_id@);
        }
    }

    fn rate_limited(&mut self, id: String, attempt: u32, reply: u64, now: u128) -> (r: SwarmAction)
        requires
            old(self).wf(),
            now <= MAX_TIME_MS,
        ensures
            final(self).wf(),
            final(self).rate_limit_post(*old(self), id, attempt, reply, now, r),
    {
        let ghost before = *self;
        if count_unfinished(&self.slots) <= 1 {
            return SwarmAction::Fail { reply };
        }
        add_text(&mut self.waiting, id.as_str());
        self.capacity.note_rate_limit(now, self.ready_launches.len());
        self.gate.note_rate_limit(now);
        drop_retries(&mut self.pending_retries, id.as_str());
        let ghost others = self.pending_retries@;
        let eligible_at: u128 = now + swarm_rate_limit_backoff(attempt);
        self.pending_retries.insert(
            0,
            PendingRetry { subagent_id: id, attempt, eligible_at, reply },
        );
        proof {
            assert(self.pending_retries@.drop_first() =~= others);
            lemma_retries_within(before.pending_retries@, id@);
            assert forall|i: int| 0 <= i < self.pending_retries@.len() implies (
            #[trigger] self.pending_retries@[i]).eligible_at <= MAX_TIME_MS + MAX_INTERVAL_MS by {
                if i > 0 {
                    assert(self.pending_retries@[i] == others[i - 1]);
                }
            }
        }
        SwarmAction::Nothing
    }

    /// Handles an event.
    pub fn handle(&mut self, event: SwarmEvent, now: u128) -> (r: SwarmAction)
        requires
            old(self).wf(),
            now <= MAX_TIME_MS,
            old(self).can_happen(event),
        ensures
            final(self).wf(),
            final(self).event_post(*old(self), event, now, r),
    {
        match event {
            SwarmEvent::ProviderRequestStarted { subagent_id } => {
                add_text(&mut self.ready_launches, subagent_id.as_str());
                self.gate.note_ready();
                SwarmAction::Nothing
            },
            SwarmEvent::RateLimitWaiting { subagent_id, attempt, reply } => self.rate_limited(
                subagent_id,
                attempt,
                reply,
                now,
            ),
            SwarmEvent::RateLimitRetrying => SwarmAction::Nothing,
            SwarmEvent::MemberDone { agent_id, result } => {
                self.member_done(agent_id.as_str(), result);
                SwarmAction::Nothing
            },
            SwarmEvent::RecoveryDue => {
                let _ = self.capacity.recover_if_due(now);
                SwarmAction::Nothing
            },
            SwarmEvent::LaunchDue => {
                if self.next_launch <= now && !self.gate.active() && self.next < self.slots.len()
                    && self.below_capacity() {
                    let action: SwarmAction = self.launch_next();
                    self.next_launch = now + RAMP_INTERVAL_MS as u128;
                    action
                } else {
                    SwarmAction::Nothing
                }
            },
            SwarmEvent::RateLimitedLaunchDue => {
                let queued: bool = self.next < self.slots.len() || self.pending_retries.len() > 0;
                let eligible: u128 = self.first_eligible(now);
                if self.gate.active() && queued && self.below_capacity()
                    && self.gate.launch_deadline(eligible) <= now {
                    if self.pending_retries.len() > 0 {
                        let ghost before = self.pending_retries@;
                        let retry: PendingRetry = self.pending_retries.remove(0);
                        proof {
                            assert(self.pending_retries@ =~= before.drop_first());
                        }
                        drop_text(&mut self.waiting, retry.subagent_id.as_str());
                        self.gate.note_launch(now);
                        SwarmAction::Retry { subagent_id: retry.subagent_id, reply: retry.reply }
                    } else {
                        let action: SwarmAction = self.launch_next();
                        self.gate.note_launch(now);
                        action
                    }
                } else {
                    SwarmAction::Nothing
                }
            },
        }
    }

    /// The results of a swarm whose members have all ended, in order.
    pub fn results(self) -> (r: Vec<MemberResult>)
        requires
            self.wf(),
            self.done(),
        ensures
            r@.len() == self.slots@.len(),
            forall|i: int|
                0 <= i < r@.len() ==> Some(#[trigger] r@[i]) == self.slots@[i] && r@[i].index == i,
    {
        let ghost all = self.slots@;
        let ghost whole = self;
        proof {
            assert forall|i: int| 0 <= i < all.len() implies (#[trigger] all[i]) is Some by {
                assert(whole.slots@[i] is Some || whole.runs(i));
            }
        }
        let mut rest: Vec<Option<MemberResult>> = self.slots;
        let mut out: Vec<MemberResult> = Vec::new();
        while rest.len() > 0
            invariant
                out@.len() <= all.len(),
                rest@ == all.skip(out@.len() as int),
                forall|i: int| 0 <= i < all.len() ==> (#[trigger] all[i]) is Some,
                forall|i: int| 0 <= i < out@.len() ==> Some(#[trigger] out@[i]) == all[i],
            decreases rest.len(),
        {
            let ghost n = out@.len() as int;
            let slot: Option<MemberResult> = rest.remove(0);
            proof {
                assert(slot == all[n]);
                assert(rest@ =~= all.skip(n + 1));
            }
            if let Some(result) = slot {
                out.push(result);
            }
        }
        proof {
            assert forall|i: int| 0 <= i < out@.len() implies out@[i].index == i by {
                assert(whole.slots@[i] is Some);
            }
        }
        out
    }
}

proof fn lemma_retries_within(s: Seq<PendingRetry>, id: Seq<char>)
    requires
        forall|i: int|
            0 <= i < s.len() ==> (#[trigger] s[i]).eligible_at <= MAX_TIME_MS + MAX_INTERVAL_MS,
    ensures
        forall|i: int|
            0 <= i < retries_but(s, id).len() ==> (#[trigger] retries_but(s, id)[i]).eligible_at
                <= MAX_TIME_MS + MAX_INTERVAL_MS,
    decreases s.len(),
{
    if s.len() > 0 {
        assert forall|i: int| 0 <= i < s.drop_last().len() implies (
        #[trigger] s.drop_last()[i]).eligible_at <= MAX_TIME_MS + MAX_INTERVAL_MS by {
            assert(s[i].eligible_at <= MAX_TIME_MS + MAX_INTERVAL_MS);
        }
        lemma_retries_within(s.drop_last(), id);
        let rest = retries_but(s.drop_last(), id);
        assert forall|i: int| 0 <= i < retries_but(s, id).len() implies (
        #[trigger] retries_but(s, id)[i]).eligible_at <= MAX_TIME_MS + MAX_INTERVAL_MS by {
            if i < rest.len() {
                assert(retries_but(s, id)[i] == rest[i]);
            } else {
                assert(retries_but(s, id)[i] == s[s.len() - 1]);
            }
        }
    }
}

// ---- laws ----

/// A swarm that is done has a result for every member.
pub proof fn law_done_swarm_has_all_results(s: SwarmScheduler, i: int)
    requires
        s.wf(),
        s.done(),
        0 <= i < s.slots@.len(),
    ensures
        s.slots@[i] is Some,
        s.slots@[i]->0.index == i,
{
    assert(s.slots@[i] is Some || s.runs(i));
}

/// The swarm starts with at most the first few members, and no other launch
/// comes before the ramp interval is over.
pub proof fn law_later_launches_are_ramped(
    before: SwarmScheduler,
    after: SwarmScheduler,
    now: u128,
    action: SwarmAction,
)
    requires
        before.wf(),
        after.event_post(before, SwarmEvent::LaunchDue, now, action),
        now < before.next_launch,
    ensures
        action is Nothing,
        after == before,
{
}

/// After a rate limit, one member at a time starts or tries again: the next
/// waits for the retry interval.
pub proof fn law_one_rate_limited_launch_at_a_time(
    before: SwarmScheduler,
    middle: SwarmScheduler,
    after: SwarmScheduler,
    first: u128,
    second: u128,
    a: SwarmAction,
    b: SwarmAction,
)
    requires
        before.wf(),
        middle.wf(),
        middle.event_post(before, SwarmEvent::RateLimitedLaunchDue, first, a),
        !(a is Nothing),
        after.event_post(middle, SwarmEvent::RateLimitedLaunchDue, second, b),
        second < first + middle.gate.retry_interval,
    ensures
        b is Nothing,
{
}

/// No member starts while the capacity is taken up.
pub proof fn law_launches_keep_to_capacity(
    before: SwarmScheduler,
    after: SwarmScheduler,
    event: SwarmEvent,
    now: u128,
    index: usize,
    agent_id: String,
)
    requires
        before.wf(),
        after.event_post(before, event, now, (SwarmAction::Launch { index, agent_id })),
    ensures
        before.effective_active() < before.capacity.current,
        index == before.next,
        after.next == before.next + 1,
{
}

/// After a rate limit, members that wait for a retry go before members that
/// have not started.
pub proof fn law_retries_go_first(
    before: SwarmScheduler,
    after: SwarmScheduler,
    event: SwarmEvent,
    now: u128,
    action: SwarmAction,
)
    requires
        before.gate.active,
        before.pending_retries@.len() > 0,
        after.event_post(before, event, now, action),
    ensures
        !(action is Launch),
{
}

/// A member that meets a second rate limit while it waits frees no further
/// place.
pub proof fn law_a_waiting_member_frees_one_place(
    before: SwarmScheduler,
    after: SwarmScheduler,
    subagent_id: String,
    attempt: u32,
    reply: u64,
    now: u128,
    action: SwarmAction,
)
    requires
        in_list(before.waiting@, subagent_id@),
        after.event_post(
            before,
            (SwarmEvent::RateLimitWaiting { subagent_id, attempt, reply }),
            now,
            action,
        ),
    ensures
        after.effective_active() == before.effective_active(),
{
    lemma_in_list(before.waiting@, subagent_id@);
    assert(views(after.waiting@).len() == after.waiting@.len());
    assert(views(before.waiting@).len() == before.waiting@.len());
}

/// The swarm starts with the capacity that is asked for, and never has more.
pub proof fn law_capacity_keeps_to_the_cap(
    before: SwarmScheduler,
    after: SwarmScheduler,
    event: SwarmEvent,
    now: u128,
    action: SwarmAction,
)
    requires
        before.wf(),
        after.wf(),
        after.event_post(before, event, now, action),
    ensures
        after.capacity.ceiling == before.capacity.ceiling,
        after.capacity.current <= before.capacity.ceiling,
{
}

/// The last unfinished member does not wait out a rate limit: it fails.
pub proof fn law_last_member_fails_on_rate_limit(
    before: SwarmScheduler,
    after: SwarmScheduler,
    subagent_id: String,
    attempt: u32,
    reply: u64,
    now: u128,
    action: SwarmAction,
)
    requires
        unfinished(before.slots@) <= 1,
        after.event_post(
            before,
            (SwarmEvent::RateLimitWaiting { subagent_id, attempt, reply }),
            now,
            action,
        ),
    ensures
        action == (SwarmAction::Fail { reply }),
        after == before,
{
}

} // verus!
