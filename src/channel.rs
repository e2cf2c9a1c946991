//! The command channel: the input sources send commands, or a fatal error,
//! to the single consumer that drives the session.
use crate::session::Command;
use std::sync::mpsc::Sender;
use vstd::prelude::*;

verus! {

#[verifier::external_type_specification]
#[verifier::external_body]
#[verifier::reject_recursive_types(T)]
pub struct ExSender<T>(Sender<T>);

#[verifier::external_type_specification]
#[verifier::external_body]
pub struct ExAnyhowError(anyhow::Error);

/// Relies on `std::sync::mpsc::Sender::send`: it fails only when the receiver
/// is gone, and then its `SendError` holds the message that was not sent.
#[verifier::external_body]
fn send_message<T>(sender: &Sender<T>, message: T) -> (r: Result<(), T>)
    ensures
        r matches Err(m) ==> m == message,
{
    sender.send(message).map_err(|e| e.0)
}

/// Sends `command` to the consumer. When the consumer is gone the command
/// comes back as the error.
pub fn send_command(cmd_sender: &Sender<Result<Command, anyhow::Error>>, command: Command) -> (r:
    Result<(), Command>)
    ensures
        r matches Err(c) ==> c == command,
{
    match send_message(cmd_sender, Ok(command)) {
        Ok(()) => Ok(()),
        Err(Ok(c)) => Err(c),
        Err(Err(_)) => vstd::pervasive::unreached(),
    }
}

/// Sends a fatal `error` to the consumer. When the consumer is gone the error
/// comes back.
pub fn send_error_command(
    cmd_sender: &Sender<Result<Command, anyhow::Error>>,
    error: anyhow::Error,
) -> (r: Result<(), anyhow::Error>)
    ensures
        r matches Err(e) ==> e == error,
{
    match send_message(cmd_sender, Err(error)) {
        Ok(()) => Ok(()),
        Err(Err(e)) => Err(e),
        Err(Ok(_)) => vstd::pervasive::unreached(),
    }
}

} // verus!
