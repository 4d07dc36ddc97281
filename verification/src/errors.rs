//! Errors of the registration subsystem.
//!
//! None of them is fatal to the service: a connect failure is retried, a
//! queueing failure is logged and retried on the next heartbeat, and a
//! flush failure on deregistration is logged while shutdown proceeds.
//! The underlying transport failure travels as its message text.

use vstd::prelude::*;
use vstd::string::*;

verus! {

/// What went wrong while talking to the message bus.
#[derive(Debug)]
pub enum Error {
    /// Opening a session to the bus at `server` failed.
    ConnectFailed { cause: String, server: String },
    /// A request was issued before the bus was started.
    NotStarted,
    /// Queueing a register message failed.
    QueueRegister { cause: String },
    /// Queueing a deregister message failed.
    QueueDeregister { cause: String },
}

impl Error {
    /// The characters of the human-readable message.
    pub open spec fn spec_message(self) -> Seq<char> {
        match self {
            Error::ConnectFailed { cause, server } => "Failed to connect to the NATS server "@
                + server@ + ": "@ + cause@,
            Error::NotStarted => "Cannot issue requests if message bus hasn't been started"@,
            Error::QueueRegister { cause } => "Failed to queue register request: "@ + cause@,
            Error::QueueDeregister { cause } => "Failed to queue deregister request: "@ + cause@,
        }
    }

    /// The human-readable message, for the host's log lines.
    pub fn message(&self) -> (m: String)
        ensures
            m@ == self.spec_message(),
    {
        match self {
            Error::ConnectFailed { cause, server } => {
                let mut m = String::from_str("Failed to connect to the NATS server ");
                m.append(server.as_str());
                m.append(": ");
                m.append(cause.as_str());
                m
            },
            Error::NotStarted => String::from_str(
                "Cannot issue requests if message bus hasn't been started",
            ),
            Error::QueueRegister { cause } => {
                let mut m = String::from_str("Failed to queue register request: ");
                m.append(cause.as_str());
                m
            },
            Error::QueueDeregister { cause } => {
                let mut m = String::from_str("Failed to queue deregister request: ");
                m.append(cause.as_str());
                m
            },
        }
    }
}

} // verus!
