//! The errors of the forwarder and the messages that report them.

use vstd::prelude::*;
use vstd::string::StringExecFns;

verus! {

/// What can go wrong while a forwarder is configured, started and run.
#[derive(Clone, Debug, PartialEq, Eq)]
pub enum Error {
    /// The command line as a whole was not understood; `usage` is the text to show.
    Arguments { usage: String },
    /// A forwarding rule is not of the form `bind@target`.
    Argument { input: String },
    /// An address of a rule could not be resolved.
    AddressParse { input: String },
    /// The bind address could not be bound.
    Bind { addr: String },
    /// The listener's thread could not be started.
    ThreadStart,
    /// Accepting connections failed.
    Listen { cause: String },
    /// The stop channel was closed without a stop request.
    ChannelCancelled,
    /// The header of an incoming connection could not be read or understood.
    ProxyHeaderFailed { cause: String },
    /// An IPv4 address met an IPv6 address where both have to be of one family.
    FamilyMix,
}

/// An error with the characters of its texts.
pub enum ErrorView {
    Arguments { usage: Seq<char> },
    Argument { input: Seq<char> },
    AddressParse { input: Seq<char> },
    Bind { addr: Seq<char> },
    ThreadStart,
    Listen { cause: Seq<char> },
    ChannelCancelled,
    ProxyHeaderFailed { cause: Seq<char> },
    FamilyMix,
}

impl ErrorView {
    /// The message that reports the error.
    pub open spec fn message(self) -> Seq<char> {
        match self {
            ErrorView::Arguments { usage } => usage,
            ErrorView::Argument { input } => "Could not parse forwarder input: "@ + input,
            ErrorView::AddressParse { input } => "Could not parse bind address: "@ + input,
            ErrorView::Bind { addr } => "Could not bind to address: "@ + addr,
            ErrorView::ThreadStart => "Could not start thread (OS problem?)"@,
            ErrorView::Listen { cause } => "Could not listen to connections: "@ + cause,
            ErrorView::ChannelCancelled => "Shutdown channel was cancelled"@,
            ErrorView::ProxyHeaderFailed { cause } => "Could not read PROXY header: "@ + cause,
            ErrorView::FamilyMix => "Attempted to mix IPv4 and IPv6"@,
        }
    }
}

impl View for Error {
    type V = ErrorView;

    open spec fn view(&self) -> ErrorView {
        match self {
            Error::Arguments { usage } => ErrorView::Arguments { usage: usage@ },
            Error::Argument { input } => ErrorView::Argument { input: input@ },
            Error::AddressParse { input } => ErrorView::AddressParse { input: input@ },
            Error::Bind { addr } => ErrorView::Bind { addr: addr@ },
            Error::ThreadStart => ErrorView::ThreadStart,
            Error::Listen { cause } => ErrorView::Listen { cause: cause@ },
            Error::ChannelCancelled => ErrorView::ChannelCancelled,
            Error::ProxyHeaderFailed { cause } => ErrorView::ProxyHeaderFailed { cause: cause@ },
            Error::FamilyMix => ErrorView::FamilyMix,
        }
    }
}

impl Error {
    /// The message that reports the error.
    pub fn message(&self) -> (text: String)
        ensures
            text@ == self@.message(),
    {
        match self {
            Error::Arguments { usage } => usage.clone(),
            Error::Argument { input } => String::from_str(
                "Could not parse forwarder input: ",
            ).concat(input.as_str()),
            Error::AddressParse { input } => String::from_str(
                "Could not parse bind address: ",
            ).concat(input.as_str()),
            Error::Bind { addr } => String::from_str("Could not bind to address: ").concat(
                addr.as_str(),
            ),
            Error::ThreadStart => String::from_str("Could not start thread (OS problem?)"),
            Error::Listen { cause } => String::from_str(
                "Could not listen to connections: ",
            ).concat(cause.as_str()),
            Error::ChannelCancelled => String::from_str("Shutdown channel was cancelled"),
            Error::ProxyHeaderFailed { cause } => String::from_str(
                "Could not read PROXY header: ",
            ).concat(cause.as_str()),
            Error::FamilyMix => String::from_str("Attempted to mix IPv4 and IPv6"),
        }
    }
}

} // verus!
