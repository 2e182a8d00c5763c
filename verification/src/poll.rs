//! The poll cycle: whether a tick queries the feed, and what the outcome of a
//! query does to the state.

use vstd::prelude::*;

verus! {

/// After a failed query the feed is left alone until more than this many
/// milliseconds have passed.
pub const RETRY_INTERVAL_MS: u64 = 5000;

/// What a tick does.
#[derive(Clone, Copy, Debug, PartialEq, Eq, Structural)]
pub enum Tick {
    /// Not yet due: the feed is not queried.
    Idle,
    /// Due: the feed is queried now.
    Poll,
}

/// The state of the poll cycle as plain values: the time of the last failed
/// query, if there was one, and whether the last query succeeded.
pub ghost struct PollView {
    pub last_failure: Option<int>,
    pub source_alive: bool,
}

/// The time that has passed at `now` since the last failure; none where no
/// query has failed yet. A clock that has gone back counts as no time passed.
pub open spec fn elapsed(s: PollView, now: int) -> Option<int> {
    match s.last_failure {
        Some(t) => Some(if now > t { now - t } else { 0 }),
        None => None,
    }
}

/// Whether a tick at `now` queries the feed: no query has failed yet, or the
/// time since the last failure exceeds the retry interval.
pub open spec fn due(s: PollView, now: int) -> bool {
    match elapsed(s, now) {
        Some(e) => e > RETRY_INTERVAL_MS,
        None => true,
    }
}

/// The state after a query at `now`: a success marks the source alive and
/// leaves the time of the last failure as it is; a failure marks the source
/// not alive and records `now`.
pub open spec fn after_query(s: PollView, now: int, success: bool) -> PollView {
    if success {
        PollView { last_failure: s.last_failure, source_alive: true }
    } else {
        PollView { last_failure: Some(now), source_alive: false }
    }
}

/// The state after a whole tick at `now`, where `available` says how a query
/// would end: an idle tick changes nothing.
pub open spec fn after_tick(s: PollView, now: int, available: bool) -> PollView {
    if due(s, now) {
        after_query(s, now, available)
    } else {
        s
    }
}

/// One tick: the time it happens and how a query would end then.
pub ghost struct TickInput {
    pub now: int,
    pub available: bool,
}

/// The state after the ticks `ticks`, one after the other.
pub open spec fn after_ticks(s: PollView, ticks: Seq<TickInput>) -> PollView
    decreases ticks.len(),
{
    if ticks.len() == 0 {
        s
    } else {
        after_tick(after_ticks(s, ticks.drop_last()), ticks.last().now, ticks.last().available)
    }
}

/// How many of the ticks `ticks` query the feed.
pub open spec fn queries_during(s: PollView, ticks: Seq<TickInput>) -> nat
    decreases ticks.len(),
{
    if ticks.len() == 0 {
        0
    } else {
        let before = after_ticks(s, ticks.drop_last());
        queries_during(s, ticks.drop_last()) + if due(before, ticks.last().now) {
            1nat
        } else {
            0nat
        }
    }
}

/// The state of the poll cycle.
#[derive(Clone, Copy, Debug)]
pub struct PollState {
    last_failure: Option<u64>,
    source_alive: bool,
}

impl View for PollState {
    type V = PollView;

    closed spec fn view(&self) -> PollView {
        PollView {
            last_failure: match self.last_failure {
                Some(t) => Some(t as int),
                None => None,
            },
            source_alive: self.source_alive,
        }
    }
}

impl PollState {
    /// The state at start-up: no query has failed, so the first tick is due,
    /// and the source is not known to be alive.
    pub fn new() -> (s: PollState)
        ensures
            s@ == (PollView { last_failure: None, source_alive: false }),
    {
        PollState { last_failure: None, source_alive: false }
    }

    /// Whether the last query succeeded.
    pub fn is_source_alive(&self) -> (alive: bool)
        ensures
            alive == self@.source_alive,
    {
        self.source_alive
    }

    /// The time of the last failed query, in milliseconds.
    pub fn last_failure(&self) -> (t: Option<u64>)
        ensures
            t is Some <==> self@.last_failure is Some,
            t is Some ==> t->0 == self@.last_failure->0,
    {
        self.last_failure
    }

    /// Decides what the tick at `now`, in milliseconds, does.
    pub fn decide(&self, now: u64) -> (tick: Tick)
        ensures
            tick == if due(self@, now as int) {
                Tick::Poll
            } else {
                Tick::Idle
            },
    {
        match self.last_failure {
            Some(t) => {
                if now > t && now - t > RETRY_INTERVAL_MS {
                    Tick::Poll
                } else {
                    Tick::Idle
                }
            },
            None => Tick::Poll,
        }
    }

    /// Records how the query made at `now` ended.
    pub fn record(&mut self, now: u64, success: bool)
        ensures
            final(self)@ == after_query(old(self)@, now as int, success),
    {
        if success {
            self.source_alive = true;
        } else {
            self.source_alive = false;
            self.last_failure = Some(now);
        }
    }

    /// The milliseconds left at `now` until a tick is due again; 0 where one
    /// is due, or will be at the next instant.
    pub fn retry_remaining(&self, now: u64) -> (left: u64)
        ensures
            left == match elapsed(self@, now as int) {
                Some(e) => if e < RETRY_INTERVAL_MS {
                    RETRY_INTERVAL_MS - e
                } else {
                    0
                },
                None => 0,
            },
    {
        match self.last_failure {
            Some(t) => {
                let e: u64 = if now > t { now - t } else { 0 };
                if e < RETRY_INTERVAL_MS {
                    RETRY_INTERVAL_MS - e
                } else {
                    0
                }
            },
            None => 0,
        }
    }
}

/// After a failed query at `failed_at`, a tick within the retry interval is
/// idle, and a tick after it queries the feed.
pub proof fn lemma_retry_interval(s: PollView, failed_at: int, now: int)
    ensures
        now - failed_at <= RETRY_INTERVAL_MS ==> !due(after_query(s, failed_at, false), now),
        now - failed_at > RETRY_INTERVAL_MS ==> due(after_query(s, failed_at, false), now),
{
}

/// At start-up a tick is due at once, whatever the time.
pub proof fn lemma_first_tick_is_due(now: int)
    ensures
        due(PollView { last_failure: None, source_alive: false }, now),
{
}

/// A success leaves the time of the last failure as it is.
pub proof fn lemma_success_keeps_failure_time(s: PollView, now: int)
    ensures
        after_query(s, now, true).last_failure == s.last_failure,
        after_query(s, now, true).source_alive,
{
}

/// After a failed query at `failed_at`, ticks that all fall within the retry
/// interval query the feed not once, however many they are and however a
/// query would end, and they leave the state as the failure left it.
pub proof fn lemma_no_query_within_interval(s: PollView, failed_at: int, ticks: Seq<TickInput>)
    requires
        forall|i: int|
            0 <= i < ticks.len() ==> (#[trigger] ticks[i]).now - failed_at <= RETRY_INTERVAL_MS,
    ensures
        queries_during(after_query(s, failed_at, false), ticks) == 0,
        after_ticks(after_query(s, failed_at, false), ticks) == after_query(s, failed_at, false),
    decreases ticks.len(),
{
    if ticks.len() > 0 {
        let earlier = ticks.drop_last();
        assert forall|i: int| 0 <= i < earlier.len() implies (#[trigger] earlier[i]).now
            - failed_at <= RETRY_INTERVAL_MS by {
            assert(earlier[i] == ticks[i]);
        }
        lemma_no_query_within_interval(s, failed_at, earlier);
        assert(ticks.last() == ticks[ticks.len() - 1]);
    }
}

} // verus!
