//! What an adapter that offers the configuration to a host runtime decides:
//! what to hand back for a load, and how to raise an error there.
//!
//! The adapter itself talks to the runtime and is not part of this library.
//! It asks here what to do next and does it.

use crate::config::{Config, Record};
use crate::error::{message_of, ConfigError};
use vstd::prelude::*;
use vstd::string::*;

verus! {

/// What the adapter hands back for a load.
#[derive(Debug, PartialEq)]
pub enum Opened {
    /// A record, which the host owns until it releases it.
    Handle(Config),
    /// Nothing, and no error: there is no configuration file.
    Absent,
    /// Nothing, and an error to raise with this message.
    Raised(String),
}

/// The mathematical value of an [`Opened`].
pub ghost enum Opening {
    Handle(Record),
    Absent,
    Raised(Seq<char>),
}

impl View for Opened {
    type V = Opening;

    open spec fn view(&self) -> Opening {
        match self {
            Opened::Handle(config) => Opening::Handle(config@),
            Opened::Absent => Opening::Absent,
            Opened::Raised(message) => Opening::Raised(message@),
        }
    }
}

/// Decides what to hand back for the outcome of loading a file. A file that
/// is not there is no error: the host gets nothing, silently. Every other
/// failure is raised with its message, never passed over.
pub fn open(loaded: Result<Config, ConfigError>) -> (opened: Opened)
    ensures
        opened@ == match loaded {
            Ok(config) => Opening::Handle(config@),
            Err(ConfigError::FileNotFound(_)) => Opening::Absent,
            Err(error) => Opening::Raised(message_of(error@)),
        },
{
    match loaded {
        Ok(config) => Opened::Handle(config),
        Err(ConfigError::FileNotFound(_)) => Opened::Absent,
        Err(error) => Opened::Raised(error.message()),
    }
}

/// The kinds of error that the adapter can raise in the host.
#[derive(Debug, PartialEq, Eq, Clone, Copy)]
pub enum Exception {
    /// The adapter's own kind of error.
    Custom,
    /// The host's general kind of error, which is always there.
    Runtime,
}

/// What the adapter does next to make an error known.
#[derive(Debug, PartialEq, Eq)]
pub enum Signal {
    /// Raise an error of this kind with this message.
    Throw(Exception, String),
    /// Give up and stop the process with this message: no error can be raised.
    Abort(String),
}

/// The mathematical value of a [`Signal`].
pub ghost enum Signalled {
    Throw(Exception, Seq<char>),
    Abort(Seq<char>),
}

impl View for Signal {
    type V = Signalled;

    open spec fn view(&self) -> Signalled {
        match self {
            Signal::Throw(kind, message) => Signalled::Throw(*kind, message@),
            Signal::Abort(message) => Signalled::Abort(message@),
        }
    }
}

/// What follows a signal that could not be carried out for `cause`. An error
/// of the adapter's own kind falls back to one of the host's general kind,
/// whose message holds the first message and the cause. When that cannot be
/// raised either, nothing is left but to stop.
pub open spec fn fallback(failed: Signalled, cause: Seq<char>) -> Signalled {
    match failed {
        Signalled::Throw(Exception::Custom, message) => Signalled::Throw(
            Exception::Runtime,
            message + "\n\nCreating custom exception failed:\n"@ + cause,
        ),
        Signalled::Throw(Exception::Runtime, message) => Signalled::Abort(
            "Could not throw exception for message:\n"@ + message,
        ),
        Signalled::Abort(message) => Signalled::Abort(message),
    }
}

/// The first thing to do to make `message` known: raise an error of the
/// adapter's own kind.
pub fn raise(message: String) -> (signal: Signal)
    ensures
        signal@ == Signalled::Throw(Exception::Custom, message@),
{
    Signal::Throw(Exception::Custom, message)
}

/// What to do after `failed` could not be carried out for `cause`: see
/// [`fallback`].
pub fn after_failure(failed: Signal, cause: &str) -> (signal: Signal)
    ensures
        signal@ == fallback(failed@, cause@),
{
    match failed {
        Signal::Throw(Exception::Custom, message) => {
            let mut text = message;
            text.append("\n\nCreating custom exception failed:\n");
            text.append(cause);
            Signal::Throw(Exception::Runtime, text)
        },
        Signal::Throw(Exception::Runtime, message) => {
            let mut text = "Could not throw exception for message:\n".to_owned();
            text.append(message.as_str());
            Signal::Abort(text)
        },
        Signal::Abort(message) => Signal::Abort(message),
    }
}

} // verus!
