//! The long-running cycle of one feed: wait for a tick, retrieve with a
//! bounded number of attempts, hand on what came, wait again.
//!
//! The cycle is a function from state and event to next state and action. Its
//! owner runs the timers and the transport, reports each event and carries out
//! the action that comes back.

use vstd::prelude::*;
use crate::error::Error;
use crate::fetch::{settled, ConditionalHeaders, FetchState, Outcome, Reply};

verus! {

/// How many times one tick tries to retrieve before it gives up.
pub const MAX_ATTEMPTS: u8 = 3;

/// The pause between a failed attempt and the next, in seconds.
pub const RETRY_DELAY: u64 = 4;

/// Where a feed is and how it is polled.
#[derive(Debug, Clone, Copy)]
pub struct FeedDescriptor {
    /// The absolute address of the feed's archive.
    pub url: &'static str,
    /// The time between two ticks, in seconds.
    pub interval_secs: u64,
    /// The number of ticks after which the cycle ends, if it ends at all.
    pub max_ticks: Option<u64>,
}

/// What a cycle is waiting for.
#[derive(Debug, Clone, Copy, PartialEq, Eq, Structural)]
pub enum Phase {
    /// The next tick.
    Waiting,
    /// The reply to the attempt of this number, counted from 1 within the tick.
    Fetching(u8),
    /// The end of the pause that follows the failed attempt of this number.
    Pausing(u8),
    /// Nothing: the cycle has run all its ticks.
    Finished,
}

/// The state of one feed's cycle.
#[derive(Debug)]
pub struct FetchCycle {
    /// The validators of the last retrieval that brought content.
    pub validators: FetchState,
    pub phase: Phase,
    /// The ticks that may still begin, where the cycle is bounded.
    pub ticks_left: Option<u64>,
}

/// What the owner of a cycle reports to it.
#[derive(Debug)]
pub enum Event {
    /// The feed's ticker fired.
    Tick,
    /// The transport finished the exchange that the cycle asked for.
    Reply(Reply),
    /// The pause that the cycle asked for is over.
    DelayElapsed,
}

/// What a cycle asks of its owner.
#[derive(Debug)]
pub enum Action {
    /// Send a request with these conditional headers and report the reply.
    Fetch(ConditionalHeaders),
    /// Wait this many seconds and report that they elapsed.
    Pause(u64),
    /// Nothing: go on waiting for what the cycle awaits.
    Idle,
    /// Hand this content to expansion; the tick is complete.
    Deliver(Vec<u8>),
    /// Hand this error to the consumer; the tick is complete.
    Surface(Error),
    /// Stop: the cycle will ask for nothing more.
    Halt,
}

/// The headers of a request made with `validators`.
pub open spec fn headers_for(validators: FetchState) -> ConditionalHeaders {
    ConditionalHeaders {
        if_none_match: validators.etag,
        if_modified_since: validators.last_modified,
    }
}

/// The phase after a tick is complete: waiting, unless no tick is left.
pub open spec fn phase_after_tick(ticks_left: Option<u64>) -> Phase {
    if ticks_left == Some(0u64) {
        Phase::Finished
    } else {
        Phase::Waiting
    }
}

/// The cycle's rule: the state and the action that follow `event` in `cycle`.
///
/// A tick starts the first attempt. A reply that is unchanged or fresh
/// completes the tick; a failed one leads to a pause and the next attempt, or,
/// after the last attempt, to its error and the end of the tick. An event that
/// the cycle is not waiting for changes nothing: ticks that fire during a
/// retrieval are not made up for.
pub open spec fn transition(cycle: FetchCycle, event: Event) -> (FetchCycle, Action) {
    match cycle.phase {
        Phase::Finished => (cycle, Action::Halt),
        Phase::Waiting => match event {
            Event::Tick => (
                FetchCycle {
                    validators: cycle.validators,
                    phase: Phase::Fetching(1),
                    ticks_left: match cycle.ticks_left {
                        Some(n) => Some((n - 1) as u64),
                        None => None,
                    },
                },
                Action::Fetch(headers_for(cycle.validators)),
            ),
            _ => (cycle, Action::Idle),
        },
        Phase::Fetching(attempt) => match event {
            Event::Reply(reply) => {
                let (validators, outcome) = settled(cycle.validators, reply);
                let done = FetchCycle {
                    validators,
                    phase: phase_after_tick(cycle.ticks_left),
                    ticks_left: cycle.ticks_left,
                };
                match outcome {
                    Outcome::Unchanged => (done, Action::Idle),
                    Outcome::Fresh(bytes) => (done, Action::Deliver(bytes)),
                    Outcome::Failed(error) => if attempt < MAX_ATTEMPTS {
                        (
                            FetchCycle {
                                validators,
                                phase: Phase::Pausing(attempt),
                                ticks_left: cycle.ticks_left,
                            },
                            Action::Pause(RETRY_DELAY),
                        )
                    } else {
                        (done, Action::Surface(error))
                    },
                }
            },
            _ => (cycle, Action::Idle),
        },
        Phase::Pausing(attempt) => match event {
            Event::DelayElapsed => (
                FetchCycle {
                    validators: cycle.validators,
                    phase: Phase::Fetching((attempt + 1) as u8),
                    ticks_left: cycle.ticks_left,
                },
                Action::Fetch(headers_for(cycle.validators)),
            ),
            _ => (cycle, Action::Idle),
        },
    }
}

/// The state after `events` have been taken in order, and the actions that
/// answered them.
pub open spec fn run(cycle: FetchCycle, events: Seq<Event>) -> (FetchCycle, Seq<Action>)
    decreases events.len(),
{
    if events.len() == 0 {
        (cycle, Seq::empty())
    } else {
        let (before, actions) = run(cycle, events.drop_last());
        let (after, action) = transition(before, events.last());
        (after, actions.push(action))
    }
}

/// The events of consecutive ticks on each of which the first attempt is
/// answered at once: a tick, then the reply, for each of `replies`.
pub open spec fn tick_events(replies: Seq<Reply>) -> Seq<Event>
    decreases replies.len(),
{
    if replies.len() == 0 {
        Seq::empty()
    } else {
        tick_events(replies.drop_last()).push(Event::Tick).push(Event::Reply(replies.last()))
    }
}

/// A response that says "not modified".
pub open spec fn is_not_modified(reply: Reply) -> bool {
    reply matches Reply::Answered { status, .. } && status == crate::fetch::NOT_MODIFIED
}

/// A reply that, in answer to a request made with `validators`, is a failure.
pub open spec fn fails(validators: FetchState, reply: Reply) -> bool {
    settled(validators, reply).1 is Failed
}

/// An action that hands something on: content to expand, or an error.
pub open spec fn emits(action: Action) -> bool {
    action is Deliver || action is Surface
}

/// The cycle keeps itself well formed: whatever the event, the next state is
/// as well formed as the one before.
pub proof fn lemma_transition_preserves_wf(cycle: FetchCycle, event: Event)
    requires
        cycle.wf(),
    ensures
        transition(cycle, event).0.wf(),
{
}

/// The validators change only with fresh content: after any event that does
/// not deliver, they are what they were.
pub proof fn lemma_validators_change_only_on_delivery(cycle: FetchCycle, event: Event)
    ensures
        !(transition(cycle, event).1 is Deliver) ==> transition(cycle, event).0.validators
            == cycle.validators,
{
}

/// Idempotence under "not modified": a feed that holds a validator and is
/// answered "not modified" on every tick emits nothing on any of them, however
/// many there are, and keeps its validators.
pub proof fn lemma_unchanged_ticks_emit_nothing(cycle: FetchCycle, replies: Seq<Reply>)
    requires
        cycle.wf(),
        cycle.phase == Phase::Waiting || cycle.phase == Phase::Finished,
        cycle.validators.has_validator(),
        forall|i: int| 0 <= i < replies.len() ==> is_not_modified(#[trigger] replies[i]),
    ensures
        ({
            let (end, actions) = run(cycle, tick_events(replies));
            &&& end.validators == cycle.validators
            &&& end.wf()
            &&& end.phase == Phase::Waiting || end.phase == Phase::Finished
            &&& actions.len() == 2 * replies.len()
            &&& forall|k: int| 0 <= k < actions.len() ==> !emits(#[trigger] actions[k])
        }),
    decreases replies.len(),
{
    if replies.len() > 0 {
        let front = replies.drop_last();
        lemma_unchanged_ticks_emit_nothing(cycle, front);
        let events = tick_events(replies);
        let ticked = tick_events(front).push(Event::Tick);
        assert(events.drop_last() =~= ticked);
        assert(ticked.drop_last() =~= tick_events(front));
        let (start, earlier) = run(cycle, tick_events(front));
        let (middle, fetch) = transition(start, Event::Tick);
        assert(run(cycle, ticked) == (middle, earlier.push(fetch)));
        let (end, last) = transition(middle, Event::Reply(replies.last()));
        assert(run(cycle, events) == (end, earlier.push(fetch).push(last)));
        assert(is_not_modified(replies[replies.len() - 1]));
    }
}

/// A tick on which two attempts fail and the third brings content surfaces no
/// error: the actions are a request, a pause, a request, a pause, a request,
/// and the delivery of that content. The validators become those of the third
/// reply.
pub proof fn lemma_third_attempt_succeeds(
    cycle: FetchCycle,
    first: Reply,
    second: Reply,
    third: Reply,
)
    requires
        cycle.wf(),
        cycle.phase == Phase::Waiting,
        fails(cycle.validators, first),
        fails(cycle.validators, second),
        settled(cycle.validators, third).1 is Fresh,
    ensures
        ({
            let (s1, a1) = transition(cycle, Event::Tick);
            let (s2, a2) = transition(s1, Event::Reply(first));
            let (s3, a3) = transition(s2, Event::DelayElapsed);
            let (s4, a4) = transition(s3, Event::Reply(second));
            let (s5, a5) = transition(s4, Event::DelayElapsed);
            let (s6, a6) = transition(s5, Event::Reply(third));
            &&& a1 == Action::Fetch(headers_for(cycle.validators))
            &&& a2 == Action::Pause(RETRY_DELAY)
            &&& a3 == a1
            &&& a4 == a2
            &&& a5 == a1
            &&& a6 == Action::Deliver(settled(cycle.validators, third).1->Fresh_0)
            &&& s6.validators == settled(cycle.validators, third).0
            &&& s6.phase == phase_after_tick(s1.ticks_left)
        }),
{
}

/// A tick on which all three attempts fail surfaces exactly one error, that
/// of the last attempt, and leaves the cycle as a tick without news would:
/// the validators are those from before the tick, and the cycle waits for the
/// next tick (or has finished, where this was its last).
pub proof fn lemma_exhausted_tick_surfaces_one_error(
    cycle: FetchCycle,
    first: Reply,
    second: Reply,
    third: Reply,
)
    requires
        cycle.wf(),
        cycle.phase == Phase::Waiting,
        fails(cycle.validators, first),
        fails(cycle.validators, second),
        fails(cycle.validators, third),
    ensures
        ({
            let (s1, a1) = transition(cycle, Event::Tick);
            let (s2, a2) = transition(s1, Event::Reply(first));
            let (s3, a3) = transition(s2, Event::DelayElapsed);
            let (s4, a4) = transition(s3, Event::Reply(second));
            let (s5, a5) = transition(s4, Event::DelayElapsed);
            let (s6, a6) = transition(s5, Event::Reply(third));
            &&& !emits(a1) && !emits(a2) && !emits(a3) && !emits(a4) && !emits(a5)
            &&& a6 == Action::Surface(settled(cycle.validators, third).1->Failed_0)
            &&& s6.validators == cycle.validators
            &&& s6.phase == phase_after_tick(s1.ticks_left)
            &&& s6.wf()
        }),
{
}


impl FetchCycle {
    /// Attempts are numbered from 1 to [`MAX_ATTEMPTS`], a pause follows only
    /// an attempt that is not the last, and a cycle with no tick left is not
    /// waiting for one.
    pub open spec fn wf(&self) -> bool {
        match self.phase {
            Phase::Waiting => self.ticks_left != Some(0u64),
            Phase::Fetching(attempt) => 1 <= attempt <= MAX_ATTEMPTS,
            Phase::Pausing(attempt) => 1 <= attempt < MAX_ATTEMPTS,
            Phase::Finished => true,
        }
    }

    /// The cycle of a feed that has retrieved nothing yet. It waits for its
    /// first tick, or has finished already where the feed allows no tick.
    pub fn new(feed: &FeedDescriptor) -> (cycle: Self)
        ensures
            cycle.wf(),
            cycle.validators.etag is None,
            cycle.validators.last_modified is None,
            cycle.ticks_left == feed.max_ticks,
            cycle.phase == phase_after_tick(feed.max_ticks),
    {
        let phase = match feed.max_ticks {
            Some(0) => Phase::Finished,
            _ => Phase::Waiting,
        };
        FetchCycle { validators: FetchState::new(), phase, ticks_left: feed.max_ticks }
    }

    /// Whether the cycle is well formed, which every cycle is that was made by
    /// [`FetchCycle::new`] and moved by [`FetchCycle::step`].
    pub fn is_wf(&self) -> (ok: bool)
        ensures
            ok == self.wf(),
    {
        match self.phase {
            Phase::Waiting => match self.ticks_left {
                Some(0) => false,
                _ => true,
            },
            Phase::Fetching(attempt) => 1 <= attempt && attempt <= MAX_ATTEMPTS,
            Phase::Pausing(attempt) => 1 <= attempt && attempt < MAX_ATTEMPTS,
            Phase::Finished => true,
        }
    }

    /// Whether the cycle has run all its ticks.
    pub fn is_finished(&self) -> (done: bool)
        ensures
            done == (self.phase == Phase::Finished),
    {
        match self.phase {
            Phase::Finished => true,
            _ => false,
        }
    }

    /// Takes `event` and says what to do next, as [`transition`] rules.
    pub fn step(&mut self, event: Event) -> (action: Action)
        requires
            old(self).wf(),
        ensures
            (*final(self), action) == transition(*old(self), event),
            final(self).wf(),
    {
        match self.phase {
            Phase::Finished => Action::Halt,
            Phase::Waiting => match event {
                Event::Tick => {
                    self.phase = Phase::Fetching(1);
                    self.ticks_left = match self.ticks_left {
                        Some(n) => Some(n - 1),
                        None => None,
                    };
                    Action::Fetch(self.validators.request_headers())
                },
                _ => Action::Idle,
            },
            Phase::Fetching(attempt) => match event {
                Event::Reply(reply) => {
                    let outcome = self.validators.settle(reply);
                    match outcome {
                        Outcome::Unchanged => {
                            self.phase = self.phase_at_rest();
                            Action::Idle
                        },
                        Outcome::Fresh(bytes) => {
                            self.phase = self.phase_at_rest();
                            Action::Deliver(bytes)
                        },
                        Outcome::Failed(error) => {
                            if attempt < MAX_ATTEMPTS {
                                self.phase = Phase::Pausing(attempt);
                                Action::Pause(RETRY_DELAY)
                            } else {
                                self.phase = self.phase_at_rest();
                                Action::Surface(error)
                            }
                        },
                    }
                },
                _ => Action::Idle,
            },
            Phase::Pausing(attempt) => match event {
                Event::DelayElapsed => {
                    self.phase = Phase::Fetching(attempt + 1);
                    Action::Fetch(self.validators.request_headers())
                },
                _ => Action::Idle,
            },
        }
    }

    fn phase_at_rest(&self) -> (phase: Phase)
        ensures
            phase == phase_after_tick(self.ticks_left),
    {
        match self.ticks_left {
            Some(0) => Phase::Finished,
            _ => Phase::Waiting,
        }
    }
}

} // verus!
