//! What to do with completed input and output operations.

use vstd::prelude::*;

verus! {

/// Connections that may wait to be accepted.
pub const MAX_PENDING_CONNECTIONS: u32 = 1024;

/// The key of a completed accept.
pub const IOCP_KEY_ACCEPT: usize = 1;

/// The key of a completed receive.
pub const IOCP_KEY_RECV: usize = 2;

/// The key of a completed send.
pub const IOCP_KEY_SEND: usize = 3;

/// Bytes in a receive buffer.
pub const DEFAULT_BUFFER_SIZE: usize = 65536;

/// Milliseconds to wait for a completion.
pub const WAIT_MS: u32 = 1000;

/// The error code of an operation that is still under way.
pub const ERROR_IO_PENDING: u32 = 997;

/// What a completion asks for.
#[derive(Debug, Clone, Copy, PartialEq, Eq, Structural)]
pub enum CompletionAction {
    /// Nothing was completed.
    Wait,
    Accept,
    Received,
    Sent,
    /// The key means nothing.
    Unknown,
}

/// What a completion asks for, as its key says.
pub open spec fn action_for(completion_key: usize, has_operation: bool) -> CompletionAction {
    if !has_operation && completion_key == 0 {
        CompletionAction::Wait
    } else if completion_key == 1 {
        CompletionAction::Accept
    } else if completion_key == 2 {
        CompletionAction::Received
    } else if completion_key == 3 {
        CompletionAction::Sent
    } else {
        CompletionAction::Unknown
    }
}

/// What a completion asks for, given its key and whether it belongs to an
/// operation.
pub fn completion_action(completion_key: usize, has_operation: bool) -> (r: CompletionAction)
    ensures
        r == action_for(completion_key, has_operation),
{
    if !has_operation && completion_key == 0 {
        return CompletionAction::Wait;
    }
    if completion_key == IOCP_KEY_ACCEPT {
        CompletionAction::Accept
    } else if completion_key == IOCP_KEY_RECV {
        CompletionAction::Received
    } else if completion_key == IOCP_KEY_SEND {
        CompletionAction::Sent
    } else {
        CompletionAction::Unknown
    }
}

/// Whether the posting of a receive failed: an error that says it is under way
/// is none.
pub fn receive_failed(error: Option<u32>) -> (r: bool)
    ensures
        r == (error is Some && error->0 != 997),
{
    match error {
        Some(code) => code != ERROR_IO_PENDING,
        None => false,
    }
}

} // verus!
