//! Sharing the sample stream with local processes through a Unix domain socket.
use vstd::prelude::*;

verus! {

/// What happens at the listening socket.
#[derive(Debug, Clone, Copy, PartialEq, Eq, Structural)]
pub enum ListenEvent {
    Cancelled,
    Connected,
    AcceptFailed,
}

/// What the listener does about it.
#[derive(Debug, Clone, Copy, PartialEq, Eq, Structural)]
pub enum ListenAction {
    /// Serve the new client, and go on listening.
    Serve,
    /// Stop listening, and remove the socket's file.
    Close,
}

/// Decides what the listener does.
pub fn listen_action(event: ListenEvent) -> (action: ListenAction)
    ensures
        action == if event == ListenEvent::Connected {
            ListenAction::Serve
        } else {
            ListenAction::Close
        },
{
    match event {
        ListenEvent::Connected => ListenAction::Serve,
        ListenEvent::Cancelled => ListenAction::Close,
        ListenEvent::AcceptFailed => ListenAction::Close,
    }
}

/// What happens between the sample stream and a client, or between the hardware and
/// the sample stream.
#[derive(Debug, Clone, Copy, PartialEq, Eq, Structural)]
pub enum ShareEvent {
    Cancelled,
    /// Samples came, and were passed on or not.
    Samples { passed: bool },
    /// No more samples come.
    Ended,
}

/// Whether a client goes on being served: as long as samples reach it.
pub fn keeps_serving(event: ShareEvent) -> (b: bool)
    ensures
        b == (event == ShareEvent::Samples { passed: true }),
{
    match event {
        ShareEvent::Samples { passed } => passed,
        ShareEvent::Cancelled => false,
        ShareEvent::Ended => false,
    }
}

/// Whether samples go on being relayed: as long as there are any, even while nobody
/// listens.
pub fn keeps_relaying(event: ShareEvent) -> (b: bool)
    ensures
        b == (event is Samples),
{
    match event {
        ShareEvent::Samples { .. } => true,
        ShareEvent::Cancelled => false,
        ShareEvent::Ended => false,
    }
}

} // verus!
