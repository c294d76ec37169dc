//! The relay between a client and a target: two directions that carry bytes
//! independently of each other, each until its own end.
//!
//! The relay decides; whoever drives it reads from both endpoints, tells the
//! relay what was read, and does what the relay answers.

use vstd::prelude::*;

verus! {

/// One of the two endpoints of a connection.
#[derive(Clone, Copy, Debug, PartialEq, Eq, Structural)]
pub enum Side {
    Client,
    Target,
}

impl Side {
    /// The other endpoint.
    pub open spec fn other_spec(self) -> Side {
        match self {
            Side::Client => Side::Target,
            Side::Target => Side::Client,
        }
    }

    /// The other endpoint.
    #[verifier::when_used_as_spec(other_spec)]
    pub fn other(self) -> (side: Side)
        ensures
            side == self.other_spec(),
    {
        match self {
            Side::Client => Side::Target,
            Side::Target => Side::Client,
        }
    }
}

/// How one direction stands.
#[derive(Clone, Copy, Debug, PartialEq, Eq, Structural)]
pub enum Flow {
    /// Bytes are carried.
    Open,
    /// The source came to its end, and the destination was told so.
    Finished,
    /// Reading or writing failed.
    Failed,
}

/// What happened at an endpoint.
#[derive(Clone, Debug, PartialEq, Eq)]
pub enum RelayEvent {
    /// Bytes were read from `from`.
    Data { from: Side, bytes: Vec<u8> },
    /// `from` closed its sending side: no more bytes will come from it.
    End { from: Side },
    /// Carrying bytes away from `from` failed: at reading them, at writing
    /// them to the other endpoint, or at closing its sending side.
    Fault { from: Side },
}

/// An event with the bytes that it carries.
pub enum RelayEventView {
    Data { from: Side, bytes: Seq<u8> },
    End { from: Side },
    Fault { from: Side },
}

impl View for RelayEvent {
    type V = RelayEventView;

    open spec fn view(&self) -> RelayEventView {
        match self {
            RelayEvent::Data { from, bytes } => RelayEventView::Data { from: *from, bytes: bytes@ },
            RelayEvent::End { from } => RelayEventView::End { from: *from },
            RelayEvent::Fault { from } => RelayEventView::Fault { from: *from },
        }
    }
}

impl RelayEventView {
    /// The endpoint at which the event happened.
    pub open spec fn from(self) -> Side {
        match self {
            RelayEventView::Data { from, .. } => from,
            RelayEventView::End { from } => from,
            RelayEventView::Fault { from } => from,
        }
    }
}

/// What is to be done at an endpoint.
#[derive(Clone, Debug, PartialEq, Eq)]
pub enum RelayAction {
    /// Write the bytes to `to`.
    Write { to: Side, bytes: Vec<u8> },
    /// Close the sending side of `to`, and leave its receiving side open.
    ShutdownWrite { to: Side },
    /// Nothing.
    Nothing,
}

/// An action with the bytes that it carries.
pub enum RelayActionView {
    Write { to: Side, bytes: Seq<u8> },
    ShutdownWrite { to: Side },
    Nothing,
}

impl View for RelayAction {
    type V = RelayActionView;

    open spec fn view(&self) -> RelayActionView {
        match self {
            RelayAction::Write { to, bytes } => RelayActionView::Write { to: *to, bytes: bytes@ },
            RelayAction::ShutdownWrite { to } => RelayActionView::ShutdownWrite { to: *to },
            RelayAction::Nothing => RelayActionView::Nothing,
        }
    }
}

/// The two directions of one connection.
#[derive(Clone, Copy, Debug, PartialEq, Eq, Structural)]
pub struct Relay {
    /// The direction from the client to the target.
    pub upstream: Flow,
    /// The direction from the target to the client.
    pub downstream: Flow,
}

impl Relay {
    /// The direction that carries bytes away from `from`.
    pub open spec fn flow_spec(self, from: Side) -> Flow {
        match from {
            Side::Client => self.upstream,
            Side::Target => self.downstream,
        }
    }

    /// The relay with the direction away from `from` set to `flow`.
    pub open spec fn with_flow(self, from: Side, flow: Flow) -> Relay {
        match from {
            Side::Client => Relay { upstream: flow, downstream: self.downstream },
            Side::Target => Relay { upstream: self.upstream, downstream: flow },
        }
    }

    /// Both directions have come to their end, one way or the other: the
    /// connection can be released.
    pub open spec fn is_done_spec(self) -> bool {
        self.upstream != Flow::Open && self.downstream != Flow::Open
    }

    /// Both directions have come to their end, and neither has failed.
    pub open spec fn is_clean_spec(self) -> bool {
        self.upstream == Flow::Finished && self.downstream == Flow::Finished
    }

    /// The relay that follows on an event, and what is to be done.
    ///
    /// An event of an open direction: bytes that were read are written to
    /// the other endpoint; at the end of the source the sending side of the
    /// other endpoint is closed, and the direction is finished. Bytes and
    /// the end of a direction that is not open change nothing. A fault is
    /// recorded whenever it comes, also after the end of the source, where
    /// closing the sending side failed: the direction has failed. The other
    /// direction is left as it is.
    pub open spec fn step_spec(self, event: RelayEventView) -> (Relay, RelayActionView) {
        match event {
            RelayEventView::Fault { from } => (
                self.with_flow(from, Flow::Failed),
                RelayActionView::Nothing,
            ),
            RelayEventView::Data { from, bytes } => if self.flow_spec(from) == Flow::Open {
                (self, RelayActionView::Write { to: from.other_spec(), bytes })
            } else {
                (self, RelayActionView::Nothing)
            },
            RelayEventView::End { from } => if self.flow_spec(from) == Flow::Open {
                (
                    self.with_flow(from, Flow::Finished),
                    RelayActionView::ShutdownWrite { to: from.other_spec() },
                )
            } else {
                (self, RelayActionView::Nothing)
            },
        }
    }

    /// The relay of a connection that has just been made: both directions
    /// are open.
    pub fn new() -> (relay: Relay)
        ensures
            relay == (Relay { upstream: Flow::Open, downstream: Flow::Open }),
    {
        Relay { upstream: Flow::Open, downstream: Flow::Open }
    }

    /// The direction that carries bytes away from `from`.
    #[verifier::when_used_as_spec(flow_spec)]
    pub fn flow(self, from: Side) -> (flow: Flow)
        ensures
            flow == self.flow_spec(from),
    {
        match from {
            Side::Client => self.upstream,
            Side::Target => self.downstream,
        }
    }

    /// Whether the connection can be released.
    #[verifier::when_used_as_spec(is_done_spec)]
    pub fn is_done(self) -> (done: bool)
        ensures
            done == self.is_done_spec(),
    {
        self.upstream != Flow::Open && self.downstream != Flow::Open
    }

    /// Whether both directions came to their end without a fault.
    #[verifier::when_used_as_spec(is_clean_spec)]
    pub fn is_clean(self) -> (clean: bool)
        ensures
            clean == self.is_clean_spec(),
    {
        self.upstream == Flow::Finished && self.downstream == Flow::Finished
    }

    fn set_flow(&mut self, from: Side, flow: Flow)
        ensures
            *final(self) == old(self).with_flow(from, flow),
    {
        match from {
            Side::Client => {
                self.upstream = flow;
            },
            Side::Target => {
                self.downstream = flow;
            },
        }
    }

    /// Takes an event: the relay moves on, and the result is what is to be
    /// done.
    pub fn step(&mut self, event: RelayEvent) -> (action: RelayAction)
        ensures
            (*final(self), action@) == old(self).step_spec(event@),
    {
        match event {
            RelayEvent::Data { from, bytes } => {
                if self.flow(from) != Flow::Open {
                    RelayAction::Nothing
                } else {
                    RelayAction::Write { to: from.other(), bytes }
                }
            },
            RelayEvent::End { from } => {
                if self.flow(from) != Flow::Open {
                    RelayAction::Nothing
                } else {
                    self.set_flow(from, Flow::Finished);
                    RelayAction::ShutdownWrite { to: from.other() }
                }
            },
            RelayEvent::Fault { from } => {
                self.set_flow(from, Flow::Failed);
                RelayAction::Nothing
            },
        }
    }
}

/// The relay that a new connection has after a sequence of events.
pub open spec fn relay_after(events: Seq<RelayEventView>) -> Relay
    decreases events.len(),
{
    if events.len() == 0 {
        Relay { upstream: Flow::Open, downstream: Flow::Open }
    } else {
        relay_after(events.drop_last()).step_spec(events.last()).0
    }
}

/// The bytes that `action` has written to `to`.
pub open spec fn written_by(action: RelayActionView, to: Side) -> Seq<u8> {
    match action {
        RelayActionView::Write { to: side, bytes } => if side == to {
            bytes
        } else {
            Seq::empty()
        },
        _ => Seq::empty(),
    }
}

/// The bytes that `event` has read from `from`.
pub open spec fn read_by(event: RelayEventView, from: Side) -> Seq<u8> {
    match event {
        RelayEventView::Data { from: side, bytes } => if side == from {
            bytes
        } else {
            Seq::empty()
        },
        _ => Seq::empty(),
    }
}

/// All the bytes that are written to `to` when a new connection meets a
/// sequence of events, in the order in which they are written.
pub open spec fn delivered(events: Seq<RelayEventView>, to: Side) -> Seq<u8>
    decreases events.len(),
{
    if events.len() == 0 {
        Seq::empty()
    } else {
        delivered(events.drop_last(), to) + written_by(
            relay_after(events.drop_last()).step_spec(events.last()).1,
            to,
        )
    }
}

/// All the bytes that are read from `from` in a sequence of events, in the
/// order in which they are read.
pub open spec fn received(events: Seq<RelayEventView>, from: Side) -> Seq<u8>
    decreases events.len(),
{
    if events.len() == 0 {
        Seq::empty()
    } else {
        received(events.drop_last(), from) + read_by(events.last(), from)
    }
}

/// The event closes the direction away from `from`.
pub open spec fn closes(event: RelayEventView, from: Side) -> bool {
    event.from() == from && !(event is Data)
}

/// No bytes are read from an endpoint after its end or after a fault of its
/// direction.
pub open spec fn orderly(events: Seq<RelayEventView>) -> bool {
    forall|i: int, j: int|
        0 <= i < j < events.len() && events[j] is Data ==> !closes(
            #[trigger] events[i],
            (#[trigger] events[j]).from(),
        )
}

/// A direction is open exactly as long as no event has closed it.
pub proof fn lemma_open_until_closed(events: Seq<RelayEventView>, from: Side)
    ensures
        relay_after(events).flow_spec(from) == Flow::Open <==> forall|i: int|
            0 <= i < events.len() ==> !closes(#[trigger] events[i], from),
    decreases events.len(),
{
    if events.len() > 0 {
        let before = events.drop_last();
        lemma_open_until_closed(before, from);
        assert forall|i: int| 0 <= i < before.len() implies before[i] == events[i] by {}
        if relay_after(events).flow_spec(from) == Flow::Open {
            assert forall|i: int| 0 <= i < events.len() implies !closes(
                #[trigger] events[i],
                from,
            ) by {
                if i < before.len() {
                    assert(before[i] == events[i]);
                }
            }
        } else {
            if relay_after(before).flow_spec(from) == Flow::Open {
                assert(closes(events[events.len() - 1], from));
            } else {
                let i = choose|i: int| 0 <= i < before.len() && closes(#[trigger] before[i], from);
                assert(closes(events[i], from));
            }
        }
    }
}

/// An event of one direction leaves the other direction as it is: neither
/// the end of a direction nor its failure stops the other.
pub proof fn lemma_directions_are_independent(relay: Relay, event: RelayEventView)
    ensures
        relay.step_spec(event).0.flow_spec(event.from().other_spec()) == relay.flow_spec(
            event.from().other_spec(),
        ),
{
}

/// The relay is transparent: whatever an endpoint sends, the other endpoint
/// is written exactly that, in the same order, with nothing added, left out
/// or repeated.
pub proof fn lemma_payload_is_relayed(events: Seq<RelayEventView>, from: Side)
    requires
        orderly(events),
    ensures
        delivered(events, from.other_spec()) == received(events, from),
    decreases events.len(),
{
    if events.len() > 0 {
        let before = events.drop_last();
        let last = events.last();
        assert(orderly(before)) by {
            assert forall|i: int, j: int|
                0 <= i < j < before.len() && before[j] is Data implies !closes(
                #[trigger] before[i],
                (#[trigger] before[j]).from(),
            ) by {
                assert(before[i] == events[i]);
                assert(before[j] == events[j]);
            }
        }
        lemma_payload_is_relayed(before, from);
        if last is Data {
            let side = last.from();
            lemma_open_until_closed(before, side);
            assert forall|i: int| 0 <= i < before.len() implies !closes(
                #[trigger] before[i],
                side,
            ) by {
                assert(before[i] == events[i]);
                assert(events[events.len() - 1] is Data);
            }
        }
    }
}

/// One endpoint may close its sending side while the other goes on sending.
///
/// When `from` comes to its end first, the other endpoint is told so: its
/// sending side of the connection stays open, and so does the connection.
/// What the other endpoint sends afterwards is still written to `from`,
/// until the other endpoint comes to its end as well; only then is the
/// connection done.
pub proof fn lemma_half_close(relay: Relay, from: Side, bytes: Seq<u8>)
    requires
        relay.flow_spec(from) == Flow::Open,
        relay.flow_spec(from.other_spec()) == Flow::Open,
    ensures
        ({
            let other = from.other_spec();
            let (halved, told) = relay.step_spec(RelayEventView::End { from });
            let (still, answer) = halved.step_spec(RelayEventView::Data { from: other, bytes });
            let (ended, last) = still.step_spec(RelayEventView::End { from: other });
            &&& told == RelayActionView::ShutdownWrite { to: other }
            &&& halved.flow_spec(other) == Flow::Open
            &&& !halved.is_done_spec()
            &&& still == halved
            &&& answer == RelayActionView::Write { to: from, bytes }
            &&& last == RelayActionView::ShutdownWrite { to: from }
            &&& ended.is_done_spec()
            &&& ended.is_clean_spec()
        }),
{
}

} // verus!
