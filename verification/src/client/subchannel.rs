//! The connection lifecycle of one address, and the pool that owns the
//! lifecycles of all subchannels of a channel.
//!
//! The library decides; the program around it acts. Each event (a request
//! to connect, the outcome of an attempt, a lost connection, an elapsed
//! backoff) is handed to the state machine, which answers with the new
//! state, the state to report to the policy, and what to do next.

use crate::client::connectivity::ConnectivityState;
use crate::client::load_balancing::{Pick, PickResult, Subchannel, SubchannelState};
use crate::error::LbError;
use std::collections::HashMap;
use vstd::prelude::*;

pub mod watcher;

verus! {

/// The backoff after the first failed attempt, in milliseconds.
pub const INITIAL_BACKOFF_MILLIS: u64 = 1_000;

/// The longest backoff, in milliseconds.
pub const MAX_BACKOFF_MILLIS: u64 = 120_000;

/// Where the connection of a subchannel stands.
#[derive(Debug)]
pub enum InternalSubchannelState {
    /// No connection and no attempt.
    Idle,
    /// One attempt is under way.
    Connecting,
    /// One connection is up.
    Ready,
    /// The last attempt failed with the given error; the next one waits for
    /// the backoff.
    TransientFailure(String),
}

impl InternalSubchannelState {
    /// The connectivity state that a policy sees for this state.
    pub open spec fn connectivity(&self) -> ConnectivityState {
        match self {
            InternalSubchannelState::Idle => ConnectivityState::Idle,
            InternalSubchannelState::Connecting => ConnectivityState::Connecting,
            InternalSubchannelState::Ready => ConnectivityState::Ready,
            InternalSubchannelState::TransientFailure(_) => ConnectivityState::TransientFailure,
        }
    }

    /// What is reported to the policy for this state.
    pub open spec fn report(&self) -> SubchannelState {
        SubchannelState {
            connectivity_state: self.connectivity(),
            last_connection_error: match self {
                InternalSubchannelState::TransientFailure(error) => Some(*error),
                _ => None,
            },
        }
    }

    /// The connectivity state that a policy sees for this state.
    pub fn connectivity_state(&self) -> (state: ConnectivityState)
        ensures
            state == self.connectivity(),
    {
        match self {
            InternalSubchannelState::Idle => ConnectivityState::Idle,
            InternalSubchannelState::Connecting => ConnectivityState::Connecting,
            InternalSubchannelState::Ready => ConnectivityState::Ready,
            InternalSubchannelState::TransientFailure(_) => ConnectivityState::TransientFailure,
        }
    }
}

/// What the owner of the connection has to do after an event.
#[derive(Debug, PartialEq, Eq)]
pub enum SubchannelAction {
    /// Nothing.
    Nothing,
    /// Start one attempt to connect to the address, and drop the backoff
    /// timer if one is running.
    StartConnecting,
    /// Start the backoff timer with the given delay in milliseconds.
    StartBackoff(u64),
    /// Abort the attempt that is under way.
    AbortAttempt,
    /// Let go of the connection.
    ReleaseConnection,
    /// Drop the backoff timer.
    CancelBackoff,
}

/// The outcome of one event.
#[derive(Debug)]
pub struct Transition {
    /// What to do.
    pub action: SubchannelAction,
    /// The state to report to the listeners, if the state has changed.
    pub notify: Option<SubchannelState>,
}

/// What happened to a subchannel.
#[derive(Debug)]
pub enum SubchannelEvent {
    /// Somebody asked for a connection. With `true`, a pending backoff is
    /// not waited for.
    ConnectRequested(bool),
    /// The attempt succeeded.
    Connected,
    /// The attempt failed with the given error.
    ConnectFailed(String),
    /// The connection was lost.
    Disconnected,
    /// The backoff has elapsed.
    BackoffElapsed,
    /// The subchannel is being shut down.
    Shutdown,
}

/// Where a subchannel stands after an event.
pub struct Stepped {
    /// The state after the event.
    pub state: InternalSubchannelState,
    /// The backoff after the next failed attempt, in milliseconds.
    pub backoff: u64,
    /// What the owner of the connection has to do.
    pub action: SubchannelAction,
}

/// The transitions of a subchannel. Every pair of a state and an event that
/// is not listed leaves the subchannel as it is and asks for nothing.
///
/// | state | event | next state | action |
/// |---|---|---|---|
/// | `Idle` | connect requested | `Connecting` | start connecting |
/// | `TransientFailure` | connect requested now | `Connecting` | start connecting |
/// | `TransientFailure` | backoff elapsed | `Connecting` | start connecting |
/// | `Connecting` | connected | `Ready`, backoff at its minimum | nothing |
/// | `Connecting` | connect failed | `TransientFailure`, backoff doubled | start backoff |
/// | `Ready` | disconnected | `Idle` | release connection |
/// | `Connecting` | shutdown | `Idle` | abort attempt |
/// | `Ready` | shutdown | `Idle` | release connection |
/// | `TransientFailure` | shutdown | `Idle` | cancel backoff |
pub open spec fn step(
    state: InternalSubchannelState,
    backoff: u64,
    event: SubchannelEvent,
) -> Stepped {
    match (state, event) {
        (InternalSubchannelState::Idle, SubchannelEvent::ConnectRequested(_)) => Stepped {
            state: InternalSubchannelState::Connecting,
            backoff,
            action: SubchannelAction::StartConnecting,
        },
        (
            InternalSubchannelState::TransientFailure(_),
            SubchannelEvent::ConnectRequested(true),
        ) => Stepped {
            state: InternalSubchannelState::Connecting,
            backoff,
            action: SubchannelAction::StartConnecting,
        },
        (InternalSubchannelState::TransientFailure(_), SubchannelEvent::BackoffElapsed) => Stepped {
            state: InternalSubchannelState::Connecting,
            backoff,
            action: SubchannelAction::StartConnecting,
        },
        (InternalSubchannelState::Connecting, SubchannelEvent::Connected) => Stepped {
            state: InternalSubchannelState::Ready,
            backoff: INITIAL_BACKOFF_MILLIS,
            action: SubchannelAction::Nothing,
        },
        (InternalSubchannelState::Connecting, SubchannelEvent::ConnectFailed(error)) => Stepped {
            state: InternalSubchannelState::TransientFailure(error),
            backoff: next_backoff(backoff),
            action: SubchannelAction::StartBackoff(backoff),
        },
        (InternalSubchannelState::Ready, SubchannelEvent::Disconnected) => Stepped {
            state: InternalSubchannelState::Idle,
            backoff,
            action: SubchannelAction::ReleaseConnection,
        },
        (InternalSubchannelState::Connecting, SubchannelEvent::Shutdown) => Stepped {
            state: InternalSubchannelState::Idle,
            backoff,
            action: SubchannelAction::AbortAttempt,
        },
        (InternalSubchannelState::Ready, SubchannelEvent::Shutdown) => Stepped {
            state: InternalSubchannelState::Idle,
            backoff,
            action: SubchannelAction::ReleaseConnection,
        },
        (InternalSubchannelState::TransientFailure(_), SubchannelEvent::Shutdown) => Stepped {
            state: InternalSubchannelState::Idle,
            backoff,
            action: SubchannelAction::CancelBackoff,
        },
        _ => Stepped { state, backoff, action: SubchannelAction::Nothing },
    }
}

/// What is reported to the listeners when a subchannel goes from `before`
/// to `after`: the new state if it differs from the old one, and nothing
/// otherwise.
pub open spec fn reported(
    before: InternalSubchannelState,
    after: InternalSubchannelState,
) -> Option<SubchannelState> {
    if after == before {
        None
    } else {
        Some(after.report())
    }
}

/// An attempt is only ever started while there is neither an attempt nor a
/// connection, and the subchannel is `Connecting` from then on: there are
/// never two.
pub proof fn lemma_one_attempt_at_a_time(
    state: InternalSubchannelState,
    backoff: u64,
    event: SubchannelEvent,
)
    requires
        step(state, backoff, event).action is StartConnecting,
    ensures
        state is Idle || state is TransientFailure,
        step(state, backoff, event).state is Connecting,
{
}

/// The backoff never shrinks except by reaching `Ready`, where it starts
/// over from its minimum; it stays within its limits.
pub proof fn lemma_backoff_is_monotonic(
    state: InternalSubchannelState,
    backoff: u64,
    event: SubchannelEvent,
)
    requires
        INITIAL_BACKOFF_MILLIS <= backoff <= MAX_BACKOFF_MILLIS,
    ensures
        INITIAL_BACKOFF_MILLIS <= step(state, backoff, event).backoff <= MAX_BACKOFF_MILLIS,
        step(state, backoff, event).backoff >= backoff || (step(state, backoff, event).state
            is Ready && step(state, backoff, event).backoff == INITIAL_BACKOFF_MILLIS),
{
}

/// Shutting down twice is the same as shutting down once.
pub proof fn lemma_shutdown_is_idempotent(state: InternalSubchannelState, backoff: u64)
    ensures
        ({
            let once = step(state, backoff, SubchannelEvent::Shutdown);
            let twice = step(once.state, once.backoff, SubchannelEvent::Shutdown);
            &&& once.state is Idle
            &&& twice.state == once.state
            &&& twice.backoff == once.backoff
            &&& twice.action is Nothing
        }),
{
}

/// The connection lifecycle of one address.
///
/// At most one attempt or one connection exists at any time: an attempt is
/// only ever started from `Idle` or `TransientFailure`, and the state then
/// is `Connecting` until the attempt has ended.
#[derive(Debug)]
pub struct InternalSubchannel {
    handle: Subchannel,
    address: String,
    state: InternalSubchannelState,
    backoff_millis: u64,
}

/// The backoff that follows `backoff`: twice as long, up to the maximum.
pub open spec fn next_backoff(backoff: u64) -> u64 {
    if backoff >= MAX_BACKOFF_MILLIS / 2 {
        MAX_BACKOFF_MILLIS
    } else {
        (2 * backoff) as u64
    }
}

impl InternalSubchannel {
    /// The handle through which policies refer to the subchannel.
    pub closed spec fn spec_subchannel(&self) -> Subchannel {
        self.handle
    }

    /// The address that the subchannel connects to.
    pub closed spec fn address(&self) -> Seq<char> {
        self.address@
    }

    /// Where the connection stands.
    pub closed spec fn state(&self) -> InternalSubchannelState {
        self.state
    }

    /// How long the backoff after the next failed attempt will be, in
    /// milliseconds.
    pub closed spec fn backoff(&self) -> u64 {
        self.backoff_millis
    }

    /// The backoff is within its limits.
    pub open spec fn wf(&self) -> bool {
        INITIAL_BACKOFF_MILLIS <= self.backoff() <= MAX_BACKOFF_MILLIS
    }

    /// A new subchannel in idle state.
    pub fn new(handle: Subchannel, address: String) -> (subchannel: InternalSubchannel)
        ensures
            subchannel.subchannel() == handle,
            subchannel.address() == address@,
            subchannel.state() is Idle,
            subchannel.backoff() == INITIAL_BACKOFF_MILLIS,
            subchannel.wf(),
    {
        InternalSubchannel {
            handle,
            address,
            state: InternalSubchannelState::Idle,
            backoff_millis: INITIAL_BACKOFF_MILLIS,
        }
    }

    /// The address that the subchannel connects to.
    pub fn target(&self) -> (address: &String)
        ensures
            address@ == self.address(),
    {
        &self.address
    }

    /// The handle through which policies refer to the subchannel.
    #[verifier::when_used_as_spec(spec_subchannel)]
    pub fn subchannel(&self) -> (handle: Subchannel)
        ensures
            handle == self.spec_subchannel(),
    {
        self.handle.clone()
    }

    /// The connectivity state that a policy sees.
    pub fn connectivity_state(&self) -> (state: ConnectivityState)
        ensures
            state == self.state().connectivity(),
    {
        self.state.connectivity_state()
    }

    /// Whether calls can be sent on the subchannel.
    pub fn is_ready(&self) -> (ready: bool)
        ensures
            ready == (self.state() is Ready),
    {
        match self.state {
            InternalSubchannelState::Ready => true,
            _ => false,
        }
    }

    /// Begins connecting. From `Idle` an attempt is started. During a
    /// backoff one is started only if `now` is set; otherwise the backoff
    /// runs on. While an attempt is under way or a connection is up, nothing
    /// happens: there is never a second attempt.
    pub fn connect(&mut self, now: bool) -> (transition: Transition)
        ensures
            final(self).address() == old(self).address(),
            final(self).subchannel() == old(self).subchannel(),
            final(self).backoff() == old(self).backoff(),
            (old(self).state() is Idle || (old(self).state() is TransientFailure && now)) ==> {
                &&& final(self).state() is Connecting
                &&& transition.action == SubchannelAction::StartConnecting
                &&& transition.notify == Some(final(self).state().report())
            },
            !(old(self).state() is Idle || (old(self).state() is TransientFailure && now)) ==> {
                &&& final(self).state() == old(self).state()
                &&& transition.action == SubchannelAction::Nothing
                &&& transition.notify is None
            },
    {
        let start = match &self.state {
            InternalSubchannelState::Idle => true,
            InternalSubchannelState::TransientFailure(_) => now,
            InternalSubchannelState::Connecting => false,
            InternalSubchannelState::Ready => false,
        };
        if start {
            self.state = InternalSubchannelState::Connecting;
            Transition {
                action: SubchannelAction::StartConnecting,
                notify: Some(SubchannelState::new(ConnectivityState::Connecting)),
            }
        } else {
            Transition { action: SubchannelAction::Nothing, notify: None }
        }
    }

    /// The attempt succeeded: the subchannel is `Ready` and the backoff
    /// starts over from its minimum. Without an attempt under way nothing
    /// happens.
    pub fn to_ready(&mut self) -> (transition: Transition)
        ensures
            final(self).address() == old(self).address(),
            final(self).subchannel() == old(self).subchannel(),
            transition.action == SubchannelAction::Nothing,
            old(self).state() is Connecting ==> {
                &&& final(self).state() is Ready
                &&& final(self).backoff() == INITIAL_BACKOFF_MILLIS
                &&& transition.notify == Some(final(self).state().report())
            },
            !(old(self).state() is Connecting) ==> {
                &&& final(self).state() == old(self).state()
                &&& final(self).backoff() == old(self).backoff()
                &&& transition.notify is None
            },
    {
        match self.state {
            InternalSubchannelState::Connecting => {
                self.state = InternalSubchannelState::Ready;
                self.backoff_millis = INITIAL_BACKOFF_MILLIS;
                Transition {
                    action: SubchannelAction::Nothing,
                    notify: Some(SubchannelState::new(ConnectivityState::Ready)),
                }
            },
            _ => Transition { action: SubchannelAction::Nothing, notify: None },
        }
    }

    /// The attempt failed: the subchannel is in `TransientFailure` with the
    /// error, the backoff timer is to be started, and the backoff after the
    /// next failure will be longer. Without an attempt under way nothing
    /// happens.
    pub fn connect_failed(&mut self, error: String) -> (transition: Transition)
        ensures
            final(self).address() == old(self).address(),
            final(self).subchannel() == old(self).subchannel(),
            old(self).state() is Connecting ==> {
                &&& final(self).state() == InternalSubchannelState::TransientFailure(error)
                &&& final(self).backoff() == next_backoff(old(self).backoff())
                &&& final(self).backoff() >= old(self).backoff() || old(self).backoff()
                    > MAX_BACKOFF_MILLIS
                &&& transition.action == SubchannelAction::StartBackoff(old(self).backoff())
                &&& transition.notify == Some(final(self).state().report())
            },
            !(old(self).state() is Connecting) ==> {
                &&& final(self).state() == old(self).state()
                &&& final(self).backoff() == old(self).backoff()
                &&& transition.action == SubchannelAction::Nothing
                &&& transition.notify is None
            },
            old(self).wf() ==> final(self).wf(),
    {
        match self.state {
            InternalSubchannelState::Connecting => {
                let delay = self.backoff_millis;
                self.backoff_millis = if delay >= MAX_BACKOFF_MILLIS / 2 {
                    MAX_BACKOFF_MILLIS
                } else {
                    2 * delay
                };
                let report = SubchannelState::failed(error.clone());
                self.state = InternalSubchannelState::TransientFailure(error);
                Transition { action: SubchannelAction::StartBackoff(delay), notify: Some(report) }
            },
            _ => Transition { action: SubchannelAction::Nothing, notify: None },
        }
    }

    /// The connection was lost: the subchannel is `Idle` and the connection
    /// is to be let go of. Without a connection nothing happens.
    pub fn to_idle(&mut self) -> (transition: Transition)
        ensures
            final(self).address() == old(self).address(),
            final(self).subchannel() == old(self).subchannel(),
            final(self).backoff() == old(self).backoff(),
            old(self).state() is Ready ==> {
                &&& final(self).state() is Idle
                &&& transition.action == SubchannelAction::ReleaseConnection
                &&& transition.notify == Some(final(self).state().report())
            },
            !(old(self).state() is Ready) ==> {
                &&& final(self).state() == old(self).state()
                &&& transition.action == SubchannelAction::Nothing
                &&& transition.notify is None
            },
    {
        match self.state {
            InternalSubchannelState::Ready => {
                self.state = InternalSubchannelState::Idle;
                Transition {
                    action: SubchannelAction::ReleaseConnection,
                    notify: Some(SubchannelState::new(ConnectivityState::Idle)),
                }
            },
            _ => Transition { action: SubchannelAction::Nothing, notify: None },
        }
    }

    /// The backoff has elapsed: the next attempt is started. Outside
    /// `TransientFailure` nothing happens.
    pub fn backoff_elapsed(&mut self) -> (transition: Transition)
        ensures
            final(self).address() == old(self).address(),
            final(self).subchannel() == old(self).subchannel(),
            final(self).backoff() == old(self).backoff(),
            old(self).state() is TransientFailure ==> {
                &&& final(self).state() is Connecting
                &&& transition.action == SubchannelAction::StartConnecting
                &&& transition.notify == Some(final(self).state().report())
            },
            !(old(self).state() is TransientFailure) ==> {
                &&& final(self).state() == old(self).state()
                &&& transition.action == SubchannelAction::Nothing
                &&& transition.notify is None
            },
    {
        let waiting = match &self.state {
            InternalSubchannelState::TransientFailure(_) => true,
            _ => false,
        };
        if waiting {
            self.state = InternalSubchannelState::Connecting;
            Transition {
                action: SubchannelAction::StartConnecting,
                notify: Some(SubchannelState::new(ConnectivityState::Connecting)),
            }
        } else {
            Transition { action: SubchannelAction::Nothing, notify: None }
        }
    }

    /// Forces the subchannel to `Idle`: an attempt is aborted, a connection
    /// let go of, a backoff timer dropped. Shutting down an idle subchannel
    /// does nothing, so shutting down twice is the same as once.
    pub fn shutdown(&mut self) -> (transition: Transition)
        ensures
            final(self).address() == old(self).address(),
            final(self).subchannel() == old(self).subchannel(),
            final(self).backoff() == old(self).backoff(),
            final(self).state() is Idle,
            transition.action == (match old(self).state() {
                InternalSubchannelState::Idle => SubchannelAction::Nothing,
                InternalSubchannelState::Connecting => SubchannelAction::AbortAttempt,
                InternalSubchannelState::Ready => SubchannelAction::ReleaseConnection,
                InternalSubchannelState::TransientFailure(_) => SubchannelAction::CancelBackoff,
            }),
            transition.notify == (if old(self).state() is Idle {
                None
            } else {
                Some(final(self).state().report())
            }),
    {
        let action = match &self.state {
            InternalSubchannelState::Idle => {
                return Transition { action: SubchannelAction::Nothing, notify: None };
            },
            InternalSubchannelState::Connecting => SubchannelAction::AbortAttempt,
            InternalSubchannelState::Ready => SubchannelAction::ReleaseConnection,
            InternalSubchannelState::TransientFailure(_) => SubchannelAction::CancelBackoff,
        };
        self.state = InternalSubchannelState::Idle;
        Transition { action, notify: Some(SubchannelState::new(ConnectivityState::Idle)) }
    }

    /// Hands one event to the state machine, which moves as `step` says.
    pub fn handle(&mut self, event: SubchannelEvent) -> (transition: Transition)
        ensures
            final(self).address() == old(self).address(),
            final(self).subchannel() == old(self).subchannel(),
            final(self).state() == step(old(self).state(), old(self).backoff(), event).state,
            final(self).backoff() == step(old(self).state(), old(self).backoff(), event).backoff,
            transition.action == step(old(self).state(), old(self).backoff(), event).action,
            transition.notify == reported(old(self).state(), final(self).state()),
            old(self).wf() ==> final(self).wf(),
    {
        match event {
            SubchannelEvent::ConnectRequested(now) => self.connect(now),
            SubchannelEvent::Connected => self.to_ready(),
            SubchannelEvent::ConnectFailed(error) => self.connect_failed(error),
            SubchannelEvent::Disconnected => self.to_idle(),
            SubchannelEvent::BackoffElapsed => self.backoff_elapsed(),
            SubchannelEvent::Shutdown => self.shutdown(),
        }
    }
}

/// Where a call goes after a pick.
pub enum Route {
    /// Send the call on the picked subchannel.
    Send(Pick),
    /// Hold the call until a newer picker is published.
    Wait,
    /// Fail the call with the error.
    Fail(LbError),
}

/// The subchannels of a channel, by id.
pub struct InternalSubchannelPool {
    subchannels: HashMap<u32, InternalSubchannel>,
}

impl View for InternalSubchannelPool {
    type V = Map<u32, InternalSubchannel>;

    closed spec fn view(&self) -> Map<u32, InternalSubchannel> {
        self.subchannels@
    }
}

impl InternalSubchannelPool {
    /// An empty pool.
    pub fn new() -> (pool: InternalSubchannelPool)
        ensures
            pool@ == Map::<u32, InternalSubchannel>::empty(),
    {
        InternalSubchannelPool { subchannels: HashMap::new() }
    }

    /// Whether the pool holds the subchannel with the given id.
    pub fn contains(&self, id: u32) -> (held: bool)
        ensures
            held == self@.contains_key(id),
    {
        broadcast use vstd::std_specs::hash::group_hash_axioms;

        self.subchannels.contains_key(&id)
    }

    /// The connectivity state of the subchannel with the given id, if the
    /// pool holds it.
    pub fn connectivity_state(&self, id: u32) -> (state: Option<ConnectivityState>)
        ensures
            state == (if self@.contains_key(id) {
                Some(self@[id].state().connectivity())
            } else {
                None
            }),
    {
        broadcast use vstd::std_specs::hash::group_hash_axioms;

        match self.subchannels.get(&id) {
            Some(subchannel) => Some(subchannel.connectivity_state()),
            None => None,
        }
    }

    /// The handle of the subchannel with the given id, if the pool holds
    /// it.
    pub fn subchannel(&self, id: u32) -> (handle: Option<Subchannel>)
        ensures
            handle == (if self@.contains_key(id) {
                Some(self@[id].subchannel())
            } else {
                None
            }),
    {
        broadcast use vstd::std_specs::hash::group_hash_axioms;

        match self.subchannels.get(&id) {
            Some(subchannel) => Some(subchannel.subchannel()),
            None => None,
        }
    }

    /// The address of the subchannel with the given id, if the pool holds
    /// it.
    pub fn address(&self, id: u32) -> (address: Option<String>)
        ensures
            match address {
                Some(text) => self@.contains_key(id) && text@ == self@[id].address(),
                None => !self@.contains_key(id),
            },
    {
        broadcast use vstd::std_specs::hash::group_hash_axioms;

        match self.subchannels.get(&id) {
            Some(subchannel) => Some(subchannel.target().clone()),
            None => None,
        }
    }

    /// Takes a new subchannel for `address` into the pool, in idle state.
    /// If the pool holds a subchannel with the same id already, that one
    /// stays and `false` is returned: there are never two connections under
    /// one id.
    pub fn new_subchannel(&mut self, subchannel: &Subchannel, address: String) -> (added: bool)
        ensures
            added == !old(self)@.contains_key(subchannel.id()),
            added ==> final(self)@.dom() == old(self)@.dom().insert(subchannel.id())
                && final(self)@[subchannel.id()].state() is Idle
                    && final(self)@[subchannel.id()].address() == address@
                    && final(self)@[subchannel.id()].wf()
                    && final(self)@[subchannel.id()].subchannel() == *subchannel,
            !added ==> final(self)@ == old(self)@,
            forall|id: u32|
                id != subchannel.id() && old(self)@.contains_key(id) ==> #[trigger] final(self)@[id]
                    == old(self)@[id],
    {
        broadcast use vstd::std_specs::hash::group_hash_axioms;

        let id = subchannel.id();
        if self.subchannels.contains_key(&id) {
            return false;
        }
        self.subchannels.insert(id, InternalSubchannel::new(subchannel.clone(), address));
        true
    }

    /// Hands an event to the subchannel with the given id. An event for a
    /// subchannel that the pool does not hold changes nothing and yields
    /// `None`: a subchannel that has left the pool reports no more states.
    pub fn handle(&mut self, id: u32, event: SubchannelEvent) -> (transition: Option<Transition>)
        ensures
            final(self)@.dom() == old(self)@.dom(),
            forall|other: u32|
                other != id && old(self)@.contains_key(other) ==> #[trigger] final(self)@[other]
                    == old(self)@[other],
            !old(self)@.contains_key(id) ==> transition is None && final(self)@ == old(self)@,
            old(self)@.contains_key(id) ==> (transition matches Some(outcome) && {
                let stepped = step(old(self)@[id].state(), old(self)@[id].backoff(), event);
                &&& final(self)@[id].address() == old(self)@[id].address()
                &&& final(self)@[id].subchannel() == old(self)@[id].subchannel()
                &&& final(self)@[id].state() == stepped.state
                &&& final(self)@[id].backoff() == stepped.backoff
                &&& old(self)@[id].wf() ==> final(self)@[id].wf()
                &&& outcome.action == stepped.action
                &&& outcome.notify == reported(old(self)@[id].state(), stepped.state)
            }),
    {
        broadcast use vstd::std_specs::hash::group_hash_axioms;

        let mut subchannel = match self.subchannels.remove(&id) {
            Some(subchannel) => subchannel,
            None => {
                proof {
                    assert(self@ =~= old(self)@);
                }
                return None;
            },
        };
        let transition = subchannel.handle(event);
        self.subchannels.insert(id, subchannel);
        proof {
            assert(self@.dom() =~= old(self)@.dom());
        }
        Some(transition)
    }

    /// Shuts the subchannel with the given id down and takes it out of the
    /// pool. The transition says what has to be let go of.
    pub fn remove(&mut self, id: u32) -> (transition: Option<Transition>)
        ensures
            final(self)@ == old(self)@.remove(id),
            transition is Some == old(self)@.contains_key(id),
            transition matches Some(outcome) ==> (outcome.action == (match old(self)@[id].state() {
                InternalSubchannelState::Idle => SubchannelAction::Nothing,
                InternalSubchannelState::Connecting => SubchannelAction::AbortAttempt,
                InternalSubchannelState::Ready => SubchannelAction::ReleaseConnection,
                InternalSubchannelState::TransientFailure(_) => SubchannelAction::CancelBackoff,
            })),
    {
        broadcast use vstd::std_specs::hash::group_hash_axioms;

        match self.subchannels.remove(&id) {
            Some(subchannel) => {
                let mut subchannel = subchannel;
                Some(subchannel.shutdown())
            },
            None => {
                proof {
                    assert(self@ =~= old(self)@.remove(id));
                }
                None
            },
        }
    }

    /// Decides where a call goes after a pick. A call is sent only on a
    /// subchannel that the pool holds and that is `Ready`. A pick of a
    /// subchannel that is not ready is held like a queued one; a pick of a
    /// subchannel that the pool does not hold fails the call.
    pub fn route(&self, result: PickResult) -> (route: Route)
        ensures
            route == route_of(self@, result),
    {
        broadcast use vstd::std_specs::hash::group_hash_axioms;

        match result {
            PickResult::Subchannel(pick) => {
                let id = pick.subchannel.id();
                match self.subchannels.get(&id) {
                    Some(subchannel) => if subchannel.is_ready() {
                        Route::Send(pick)
                    } else {
                        Route::Wait
                    },
                    None => Route::Fail(LbError::UnknownSubchannel),
                }
            },
            PickResult::Queue => Route::Wait,
            PickResult::Fail(error) => Route::Fail(error),
        }
    }
}

/// Where a call goes after the pick `result` when the pool holds
/// `subchannels`: on the subchannel picked if the pool holds it and it is
/// `Ready`; nowhere yet if it is not ready or the pick was queued; and the
/// call fails if the pool does not hold the subchannel or the pick failed.
pub open spec fn route_of(subchannels: Map<u32, InternalSubchannel>, result: PickResult) -> Route {
    match result {
        PickResult::Subchannel(pick) => if !subchannels.contains_key(pick.subchannel.id()) {
            Route::Fail(LbError::UnknownSubchannel)
        } else if subchannels[pick.subchannel.id()].state() is Ready {
            Route::Send(pick)
        } else {
            Route::Wait
        },
        PickResult::Queue => Route::Wait,
        PickResult::Fail(error) => Route::Fail(error),
    }
}

} // verus!
