//! The bridge as a whole: configuration, readings and poll cycle, driven tick
//! by tick. The caller owns the clock and the network: it asks what a tick
//! does, queries the feed where the tick is due, hands back what came, and
//! sends the messages it is given.

use crate::clock::LocalTime;
use crate::config::Config;
use crate::emit::{initial_readings, messages, refreshed, views_of, Emission, Readings};
use crate::poll::{after_query, due, PollState, PollView, Tick};
use crate::tree::SensorNode;
use vstd::prelude::*;

verus! {

/// The state of the bridge.
#[derive(Clone, Debug)]
pub struct Monitor {
    pub config: Config,
    pub readings: Readings,
    pub poll: PollState,
}

impl Monitor {
    /// The bridge at start-up: nothing read yet, the first tick due.
    pub fn new(config: Config) -> (m: Monitor)
        ensures
            m.config == config,
            m.readings@ == initial_readings(),
            m.poll@ == (PollView { last_failure: None, source_alive: false }),
    {
        Monitor { config, readings: Readings::new(), poll: PollState::new() }
    }

    /// Decides what the tick at `now`, in milliseconds, does.
    pub fn begin_tick(&self, now: u64) -> (tick: Tick)
        ensures
            tick == if due(self.poll@, now as int) {
                Tick::Poll
            } else {
                Tick::Idle
            },
    {
        self.poll.decide(now)
    }

    /// Takes in the outcome of the query made at `now`. Where the feed gave a
    /// tree, the source is alive, the readings are taken from the tree, and
    /// the messages of this poll are returned, to be sent one by one in their
    /// order. Where it gave none, the failure is recorded at `now`, the
    /// readings stay as they were, and nothing is to be sent.
    pub fn finish_poll(&mut self, now: u64, fetched: Option<&SensorNode>, time: &LocalTime) -> (out:
        Vec<Emission>)
        ensures
            final(self).config == old(self).config,
            final(self).poll@ == after_query(old(self).poll@, now as int, fetched is Some),
            match fetched {
                Some(tree) => {
                    &&& final(self).readings@ == refreshed(
                        old(self).readings@,
                        tree@,
                        old(self).config,
                    )
                    &&& views_of(out@) == messages(final(self).readings@, *time)
                },
                None => {
                    &&& final(self).readings@ == old(self).readings@
                    &&& out@.len() == 0
                },
            },
    {
        match fetched {
            Some(tree) => {
                self.poll.record(now, true);
                self.readings.refresh(tree, &self.config);
                self.readings.emissions(time)
            },
            None => {
                self.poll.record(now, false);
                Vec::new()
            },
        }
    }
}

} // verus!
