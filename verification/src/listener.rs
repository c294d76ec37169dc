//! The life of one listener: the unit that owns the bound socket of one rule.
//!
//! A unit is created for a rule, binds the rule's address, starts an
//! execution context of its own, and accepts connections there until it is
//! told to stop or accepting fails. Each connection is served in a task of
//! its own, so that a slow client holds up neither the others nor the
//! accepting of new ones. A unit that has stopped accepts no more; the
//! connections that it serves then are left to come to their end, and the
//! context is left after the last of them.
//!
//! The unit decides; whoever drives it binds the socket, starts the context,
//! accepts, and tells the unit what came of it.

use vstd::prelude::*;
use crate::address::SocketAddress;
use crate::error::{Error, ErrorView};
use crate::resolver::ForwardingRule;
use crate::text::{byte_chars, string_of_bytes};

verus! {

/// Where a unit stands in its life.
#[derive(Clone, Copy, Debug, PartialEq, Eq, Structural)]
pub enum UnitState {
    /// The unit has its rule and nothing else.
    Created,
    /// The rule's address is bound.
    Bound,
    /// Connections are accepted on a context of the unit's own.
    Running,
    /// The unit is at its end and stays there.
    Stopped,
}

/// What happened to a unit.
#[derive(Clone, Debug, PartialEq, Eq)]
pub enum UnitEvent {
    /// The rule's address was bound.
    BindSucceeded,
    /// The rule's address could not be bound.
    BindFailed,
    /// The unit's context runs.
    ContextStarted,
    /// The unit's context could not be started.
    ContextFailed,
    /// A client connected; `local` is the address that it reached.
    Accepted { client: SocketAddress, local: SocketAddress },
    /// Accepting failed.
    AcceptFailed { cause: String },
    /// The owner asked the unit to stop.
    StopRequested,
    /// The owner is gone without having asked the unit to stop.
    StopChannelClosed,
    /// A connection that was served has come to its end.
    ConnectionEnded,
}

/// An event with the characters of its text.
pub enum UnitEventView {
    BindSucceeded,
    BindFailed,
    ContextStarted,
    ContextFailed,
    Accepted { client: SocketAddress, local: SocketAddress },
    AcceptFailed { cause: Seq<char> },
    StopRequested,
    StopChannelClosed,
    ConnectionEnded,
}

impl View for UnitEvent {
    type V = UnitEventView;

    open spec fn view(&self) -> UnitEventView {
        match self {
            UnitEvent::BindSucceeded => UnitEventView::BindSucceeded,
            UnitEvent::BindFailed => UnitEventView::BindFailed,
            UnitEvent::ContextStarted => UnitEventView::ContextStarted,
            UnitEvent::ContextFailed => UnitEventView::ContextFailed,
            UnitEvent::Accepted { client, local } => UnitEventView::Accepted {
                client: *client,
                local: *local,
            },
            UnitEvent::AcceptFailed { cause } => UnitEventView::AcceptFailed { cause: cause@ },
            UnitEvent::StopRequested => UnitEventView::StopRequested,
            UnitEvent::StopChannelClosed => UnitEventView::StopChannelClosed,
            UnitEvent::ConnectionEnded => UnitEventView::ConnectionEnded,
        }
    }
}

/// What is to be done for a unit.
#[derive(Clone, Debug, PartialEq, Eq)]
pub enum UnitAction {
    /// Start the unit's context and accept connections there.
    StartContext,
    /// Accept connections.
    Accept,
    /// Serve the client in a task of its own, from the header to the end of
    /// the relay, and go on accepting meanwhile.
    Serve { client: SocketAddress, local: SocketAddress, target: SocketAddress },
    /// Accept no more connections. The context is left once the connections
    /// that are served have come to their end.
    StopAccepting,
    /// The same, after reporting the error.
    Fail { error: Error },
    /// Nothing.
    Ignore,
}

/// An action with the characters of its text.
pub enum UnitActionView {
    StartContext,
    Accept,
    Serve { client: SocketAddress, local: SocketAddress, target: SocketAddress },
    StopAccepting,
    Fail { error: ErrorView },
    Ignore,
}

impl View for UnitAction {
    type V = UnitActionView;

    open spec fn view(&self) -> UnitActionView {
        match self {
            UnitAction::StartContext => UnitActionView::StartContext,
            UnitAction::Accept => UnitActionView::Accept,
            UnitAction::Serve { client, local, target } => UnitActionView::Serve {
                client: *client,
                local: *local,
                target: *target,
            },
            UnitAction::StopAccepting => UnitActionView::StopAccepting,
            UnitAction::Fail { error } => UnitActionView::Fail { error: error@ },
            UnitAction::Ignore => UnitActionView::Ignore,
        }
    }
}

/// Where a unit stands: its state, and the number of connections that are
/// being served.
pub struct Standing {
    pub state: UnitState,
    pub in_flight: nat,
}

impl Standing {
    /// The standing with another state.
    pub open spec fn at(self, state: UnitState) -> Standing {
        Standing { state, in_flight: self.in_flight }
    }

    /// The unit has stopped and serves no connection any more: its context
    /// can be left.
    pub open spec fn may_exit(self) -> bool {
        self.state == UnitState::Stopped && self.in_flight == 0
    }
}

/// Where a unit stands after `event`, and what is to be done.
///
/// An event that does not belong to the state changes nothing. From the last
/// state no event leads away. The end of a connection is counted in every
/// state.
pub open spec fn transition(rule: ForwardingRule, from: Standing, event: UnitEventView) -> (
    Standing,
    UnitActionView,
) {
    match (from.state, event) {
        (UnitState::Created, UnitEventView::BindSucceeded) => (
            from.at(UnitState::Bound),
            UnitActionView::StartContext,
        ),
        (UnitState::Created, UnitEventView::BindFailed) => (
            from.at(UnitState::Stopped),
            UnitActionView::Fail {
                error: ErrorView::Bind { addr: byte_chars(rule.bind_spec().text_spec()) },
            },
        ),
        (UnitState::Bound, UnitEventView::ContextStarted) => (
            from.at(UnitState::Running),
            UnitActionView::Accept,
        ),
        (UnitState::Bound, UnitEventView::ContextFailed) => (
            from.at(UnitState::Stopped),
            UnitActionView::Fail { error: ErrorView::ThreadStart },
        ),
        (UnitState::Running, UnitEventView::Accepted { client, local }) => if from.in_flight
            < usize::MAX {
            (
                Standing { state: UnitState::Running, in_flight: from.in_flight + 1 },
                UnitActionView::Serve { client, local, target: rule.target_spec() },
            )
        } else {
            (from, UnitActionView::Ignore)
        },
        (UnitState::Running, UnitEventView::AcceptFailed { cause }) => (
            from.at(UnitState::Stopped),
            UnitActionView::Fail { error: ErrorView::Listen { cause } },
        ),
        (UnitState::Running, UnitEventView::StopRequested) => (
            from.at(UnitState::Stopped),
            UnitActionView::StopAccepting,
        ),
        (UnitState::Running, UnitEventView::StopChannelClosed) => (
            from.at(UnitState::Stopped),
            UnitActionView::Fail { error: ErrorView::ChannelCancelled },
        ),
        (_, UnitEventView::ConnectionEnded) => if from.in_flight > 0 {
            (
                Standing { state: from.state, in_flight: (from.in_flight - 1) as nat },
                UnitActionView::Ignore,
            )
        } else {
            (from, UnitActionView::Ignore)
        },
        _ => (from, UnitActionView::Ignore),
    }
}

/// The listener of one rule.
#[derive(Clone, Debug)]
pub struct ListenerUnit {
    rule: ForwardingRule,
    state: UnitState,
    in_flight: usize,
}

impl ListenerUnit {
    /// The rule of the unit.
    pub closed spec fn rule_spec(self) -> ForwardingRule {
        self.rule
    }

    /// Where the unit stands.
    pub closed spec fn standing(self) -> Standing {
        Standing { state: self.state, in_flight: self.in_flight as nat }
    }

    /// A unit for the rule. The rule's bind address is to be bound next.
    pub fn new(rule: ForwardingRule) -> (unit: ListenerUnit)
        ensures
            unit.rule_spec() == rule,
            unit.standing() == (Standing { state: UnitState::Created, in_flight: 0 }),
    {
        ListenerUnit { rule, state: UnitState::Created, in_flight: 0 }
    }

    /// The rule of the unit.
    pub fn rule(&self) -> (rule: ForwardingRule)
        ensures
            rule == self.rule_spec(),
    {
        self.rule
    }

    /// The state of the unit.
    pub fn state(&self) -> (state: UnitState)
        ensures
            state == self.standing().state,
    {
        self.state
    }

    /// The number of connections that are being served.
    pub fn in_flight(&self) -> (count: usize)
        ensures
            count == self.standing().in_flight,
    {
        self.in_flight
    }

    /// Whether the context of the unit can be left: the unit has stopped,
    /// and the last connection that it served has come to its end.
    pub fn may_exit(&self) -> (yes: bool)
        ensures
            yes == self.standing().may_exit(),
    {
        self.state == UnitState::Stopped && self.in_flight == 0
    }

    /// Takes an event: the unit moves on, and the result is what is to be
    /// done.
    pub fn handle(&mut self, event: UnitEvent) -> (action: UnitAction)
        ensures
            final(self).rule_spec() == old(self).rule_spec(),
            (final(self).standing(), action@) == transition(
                old(self).rule_spec(),
                old(self).standing(),
                event@,
            ),
    {
        match (self.state, event) {
            (UnitState::Created, UnitEvent::BindSucceeded) => {
                self.state = UnitState::Bound;
                UnitAction::StartContext
            },
            (UnitState::Created, UnitEvent::BindFailed) => {
                self.state = UnitState::Stopped;
                let addr = string_of_bytes(self.rule.bind().text().as_slice());
                UnitAction::Fail { error: Error::Bind { addr } }
            },
            (UnitState::Bound, UnitEvent::ContextStarted) => {
                self.state = UnitState::Running;
                UnitAction::Accept
            },
            (UnitState::Bound, UnitEvent::ContextFailed) => {
                self.state = UnitState::Stopped;
                UnitAction::Fail { error: Error::ThreadStart }
            },
            (UnitState::Running, UnitEvent::Accepted { client, local }) => {
                if self.in_flight < usize::MAX {
                    self.in_flight = self.in_flight + 1;
                    UnitAction::Serve { client, local, target: self.rule.target() }
                } else {
                    UnitAction::Ignore
                }
            },
            (UnitState::Running, UnitEvent::AcceptFailed { cause }) => {
                self.state = UnitState::Stopped;
                UnitAction::Fail { error: Error::Listen { cause } }
            },
            (UnitState::Running, UnitEvent::StopRequested) => {
                self.state = UnitState::Stopped;
                UnitAction::StopAccepting
            },
            (UnitState::Running, UnitEvent::StopChannelClosed) => {
                self.state = UnitState::Stopped;
                UnitAction::Fail { error: Error::ChannelCancelled }
            },
            (_, UnitEvent::ConnectionEnded) => {
                if self.in_flight > 0 {
                    self.in_flight = self.in_flight - 1;
                }
                UnitAction::Ignore
            },
            _ => UnitAction::Ignore,
        }
    }
}

/// Where a unit stands after a sequence of events.
pub open spec fn standing_after(
    rule: ForwardingRule,
    from: Standing,
    events: Seq<UnitEventView>,
) -> Standing
    decreases events.len(),
{
    if events.len() == 0 {
        from
    } else {
        transition(rule, standing_after(rule, from, events.drop_last()), events.last()).0
    }
}

/// What is to be done on the last of a sequence of events.
pub open spec fn last_action(
    rule: ForwardingRule,
    from: Standing,
    events: Seq<UnitEventView>,
) -> UnitActionView
    recommends
        events.len() > 0,
{
    transition(rule, standing_after(rule, from, events.drop_last()), events.last()).1
}

/// A unit that has stopped stays stopped whatever happens: nothing is done
/// for it any more, and no connection is added to those that it serves.
pub proof fn lemma_stopped_is_final(
    rule: ForwardingRule,
    from: Standing,
    events: Seq<UnitEventView>,
)
    requires
        from.state == UnitState::Stopped,
    ensures
        standing_after(rule, from, events).state == UnitState::Stopped,
        standing_after(rule, from, events).in_flight <= from.in_flight,
        events.len() > 0 ==> last_action(rule, from, events) == UnitActionView::Ignore,
    decreases events.len(),
{
    if events.len() > 0 {
        lemma_stopped_is_final(rule, from, events.drop_last());
    }
}

/// A request to stop ends a running unit, however many connections it
/// serves: it accepts no more connections and is stopped, and it stays so
/// whatever happens afterwards. No connection is served and no error is
/// reported after the request.
pub proof fn lemma_stop_request_is_final(
    rule: ForwardingRule,
    from: Standing,
    later: Seq<UnitEventView>,
)
    requires
        from.state == UnitState::Running,
    ensures
        transition(rule, from, UnitEventView::StopRequested) == (
            from.at(UnitState::Stopped),
            UnitActionView::StopAccepting,
        ),
        standing_after(rule, from, seq![UnitEventView::StopRequested] + later).state
            == UnitState::Stopped,
        standing_after(rule, from, seq![UnitEventView::StopRequested] + later).in_flight
            <= from.in_flight,
        later.len() > 0 ==> last_action(rule, from, seq![UnitEventView::StopRequested] + later)
            == UnitActionView::Ignore,
    decreases later.len(),
{
    let first = seq![UnitEventView::StopRequested];
    if later.len() == 0 {
        assert(first + later =~= first);
        assert(first.drop_last() =~= Seq::<UnitEventView>::empty());
    } else {
        lemma_stop_request_is_final(rule, from, later.drop_last());
        assert((first + later).drop_last() =~= first + later.drop_last());
        assert((first + later).last() == later.last());
    }
}

/// The connections of a unit that has stopped come to their end one by one,
/// and the context can be left after the last of them: when as many
/// connections have ended as were being served, and not before.
pub proof fn lemma_stopped_unit_drains(
    rule: ForwardingRule,
    from: Standing,
    ended: nat,
)
    requires
        from.state == UnitState::Stopped,
        ended <= from.in_flight,
    ensures
        ({
            let events = Seq::new(ended, |i: int| UnitEventView::ConnectionEnded);
            let left = standing_after(rule, from, events);
            &&& left.state == UnitState::Stopped
            &&& left.in_flight == from.in_flight - ended
            &&& left.may_exit() <==> ended == from.in_flight
        }),
    decreases ended,
{
    let events = Seq::new(ended, |i: int| UnitEventView::ConnectionEnded);
    if ended > 0 {
        let shorter = Seq::new((ended - 1) as nat, |i: int| UnitEventView::ConnectionEnded);
        lemma_stopped_unit_drains(rule, from, (ended - 1) as nat);
        assert(events.drop_last() =~= shorter);
        assert(events.last() == UnitEventView::ConnectionEnded);
    }
}

/// The place of a state in the order in which a unit passes through them.
pub open spec fn rank(state: UnitState) -> nat {
    match state {
        UnitState::Created => 0,
        UnitState::Bound => 1,
        UnitState::Running => 2,
        UnitState::Stopped => 3,
    }
}

/// No event takes a unit back to a state that it has left, and connections
/// are served by a running unit only.
pub proof fn lemma_transition_moves_forward(
    rule: ForwardingRule,
    from: Standing,
    event: UnitEventView,
)
    ensures
        rank(from.state) <= rank(transition(rule, from, event).0.state),
        transition(rule, from, event).1 is Serve ==> from.state == UnitState::Running
            && transition(rule, from, event).0.state == UnitState::Running,
{
}

} // verus!
