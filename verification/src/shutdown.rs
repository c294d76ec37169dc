//! Stopping a listener: the handle that its owner keeps.
//!
//! A handle pairs the sending end of the unit's stop channel with the token
//! by which the end of the unit's context is awaited. Asking a unit to stop
//! sends the notification; the owner then waits on the token, so that the
//! unit has come to its end, and its port is free, before the owner goes on.

use vstd::prelude::*;
use futures::sync::oneshot::Sender;

verus! {

#[verifier::external_type_specification]
#[verifier::external_body]
#[verifier::reject_recursive_types(T)]
pub struct ExSender<T>(Sender<T>);

/// `Sender::send` of the oneshot channel of `futures`, with the stop
/// notification as the value sent. The result tells whether the notification
/// was put into the channel; it is not when the receiving end has gone. Which
/// of the two happens lies with the receiving end, so nothing is stated of
/// the result.
#[verifier::external_body]
fn send_stop(sender: Sender<()>) -> (sent: Result<(), ()>) {
    sender.send(())
}

/// What came of asking a unit to stop.
#[derive(Debug, PartialEq, Eq)]
pub enum StopOutcome<J> {
    /// The unit was notified: its end is to be awaited on this token.
    Join(J),
    /// The unit had stopped by itself before: there is nothing to await.
    AlreadyStopped,
    /// The handle had been used before.
    Spent,
}

/// What follows from the attempt to notify a unit: a unit that was notified
/// is to be awaited, one whose channel is closed has stopped already.
pub fn after_notification<J>(sent: Result<(), ()>, join_token: J) -> (outcome: StopOutcome<J>)
    ensures
        sent is Ok ==> outcome == StopOutcome::Join(join_token),
        sent is Err ==> outcome == StopOutcome::<J>::AlreadyStopped,
{
    match sent {
        Ok(_) => StopOutcome::Join(join_token),
        Err(_) => StopOutcome::AlreadyStopped,
    }
}

/// The handle of one running unit.
pub struct ListenerHandle<J> {
    closer: Option<(Sender<()>, J)>,
}

impl<J> ListenerHandle<J> {
    /// The sending end of the stop channel, in a handle that has not been
    /// used yet.
    pub closed spec fn sender(self) -> Option<Sender<()>> {
        match self.closer {
            Some(pair) => Some(pair.0),
            None => None,
        }
    }

    /// The token of a handle that has not been used yet.
    pub closed spec fn token(self) -> Option<J> {
        match self.closer {
            Some(pair) => Some(pair.1),
            None => None,
        }
    }

    /// The handle of the unit that listens to `stop_sender` and whose end is
    /// awaited on `join_token`. The handle holds the two as they are: nothing
    /// is sent and nothing is awaited yet.
    pub fn new(stop_sender: Sender<()>, join_token: J) -> (handle: Self)
        ensures
            handle.sender() == Some(stop_sender),
            handle.token() == Some(join_token),
    {
        ListenerHandle { closer: Some((stop_sender, join_token)) }
    }

    /// Whether the handle has not been used yet.
    pub fn is_armed(&self) -> (armed: bool)
        ensures
            armed == self.token() is Some,
            armed == self.sender() is Some,
    {
        self.closer.is_some()
    }

    /// Asks the unit to stop.
    ///
    /// The handle is used up by this. Where the unit was notified, the
    /// outcome holds the token on which its end is to be awaited; where its
    /// channel was closed already, the unit has stopped by itself.
    pub fn request_stop(&mut self) -> (outcome: StopOutcome<J>)
        ensures
            final(self).sender() is None,
            final(self).token() is None,
            old(self).token() is None ==> outcome == StopOutcome::<J>::Spent,
            old(self).token() is Some ==> outcome == StopOutcome::Join(old(self).token()->Some_0)
                || outcome == StopOutcome::<J>::AlreadyStopped,
    {
        match self.closer.take() {
            Some(pair) => {
                let (sender, join_token) = pair;
                after_notification(send_stop(sender), join_token)
            },
            None => StopOutcome::Spent,
        }
    }
}

} // verus!
