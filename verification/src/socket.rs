//! The decisions of one subscriber connection. The caller owns the
//! socket and the room's event stream; it reports what woke it and does
//! what it is told.

use vstd::prelude::*;
use vstd::string::*;
use crate::game::{GameEvent, GameSnapshot};
use crate::text::{ascii_lower, eq_ignoring_ascii_case, trim_text, trimmed_of};

verus! {

/// What woke a connection.
#[derive(Debug, PartialEq, Eq)]
pub enum SocketInput {
    /// The keepalive timer fired.
    Tick,
    /// The client sent a close frame.
    ClientClose,
    /// The client sent a ping frame.
    ClientPing,
    /// The client sent a text frame.
    ClientText(String),
    /// The client sent a binary or pong frame.
    ClientOther,
    /// Receiving from the client failed.
    ClientError,
    /// The client's stream ended.
    ClientGone,
    /// The room published an event.
    Event,
    /// Events were dropped because this subscriber fell behind.
    Lagged,
    /// The room's event stream closed.
    BusClosed,
}

/// What a connection does next.
#[derive(Clone, Copy, Debug, PartialEq, Eq, Structural)]
pub enum SocketAction {
    /// Send a keepalive ping.
    SendPing,
    /// Send the client's close frame back, then stop.
    EchoClose,
    /// Answer the client's ping frame with a pong frame of the same payload.
    SendPong,
    /// Send the pong event.
    SendPongEvent,
    /// Send the event that the room published.
    Forward,
    /// Send a fresh snapshot of the room as it stands now.
    Resync,
    /// Do nothing.
    Ignore,
    /// Stop.
    Stop,
}

/// Whether a word is "ping" in any ASCII case.
pub open spec fn spells_ping(word: Seq<char>) -> bool {
    word.map_values(|c: char| ascii_lower(c)) == "ping"@.map_values(|c: char| ascii_lower(c))
}

/// The action that answers an input: a tick sends a ping; a close frame
/// is echoed; a ping is answered; a text that is "ping" once trimmed, in
/// any ASCII case, is answered with the pong event and any other text
/// ignored, as are binary and pong frames; an event is passed on; a lag
/// asks for a resync; an error or the end of either stream stops.
pub open spec fn answer_to(input: SocketInput) -> SocketAction {
    match input {
        SocketInput::Tick => SocketAction::SendPing,
        SocketInput::ClientClose => SocketAction::EchoClose,
        SocketInput::ClientPing => SocketAction::SendPong,
        SocketInput::ClientText(text) => if spells_ping(trimmed_of(text@)) {
            SocketAction::SendPongEvent
        } else {
            SocketAction::Ignore
        },
        SocketInput::ClientOther => SocketAction::Ignore,
        SocketInput::ClientError => SocketAction::Stop,
        SocketInput::ClientGone => SocketAction::Stop,
        SocketInput::Event => SocketAction::Forward,
        SocketInput::Lagged => SocketAction::Resync,
        SocketInput::BusClosed => SocketAction::Stop,
    }
}

/// Whether the connection goes on after an action: never after a stop or
/// an echoed close; always after an ignored input; otherwise unless a
/// send was attempted and failed.
pub open spec fn goes_on(action: SocketAction, attempted: bool, delivered: bool) -> bool {
    match action {
        SocketAction::Stop => false,
        SocketAction::EchoClose => false,
        SocketAction::Ignore => true,
        _ => !attempted || delivered,
    }
}

/// Whether a word is "ping" in any ASCII case.
pub fn is_ping_word(word: &str) -> (r: bool)
    ensures
        r == spells_ping(word@),
{
    eq_ignoring_ascii_case(word, "ping")
}

/// Decides what a connection does about an input.
pub fn socket_step(input: SocketInput) -> (action: SocketAction)
    ensures
        action == answer_to(input),
{
    match input {
        SocketInput::Tick => SocketAction::SendPing,
        SocketInput::ClientClose => SocketAction::EchoClose,
        SocketInput::ClientPing => SocketAction::SendPong,
        SocketInput::ClientText(text) => {
            let word = trim_text(text.as_str());
            if is_ping_word(word) {
                SocketAction::SendPongEvent
            } else {
                SocketAction::Ignore
            }
        },
        SocketInput::ClientOther => SocketAction::Ignore,
        SocketInput::ClientError => SocketAction::Stop,
        SocketInput::ClientGone => SocketAction::Stop,
        SocketInput::Event => SocketAction::Forward,
        SocketInput::Lagged => SocketAction::Resync,
        SocketInput::BusClosed => SocketAction::Stop,
    }
}

/// Decides whether the connection goes on after an action, given
/// whether a send was attempted and whether it was delivered.
pub fn keeps_running(action: SocketAction, attempted: bool, delivered: bool) -> (r: bool)
    ensures
        r == goes_on(action, attempted, delivered),
{
    match action {
        SocketAction::Stop => false,
        SocketAction::EchoClose => false,
        SocketAction::Ignore => true,
        _ => !attempted || delivered,
    }
}

/// The event that opens a subscription, and that heals a lag: the snapshot.
pub fn snapshot_event(snapshot: GameSnapshot) -> (event: GameEvent)
    ensures
        event == GameEvent::Snapshot(snapshot),
{
    GameEvent::Snapshot(snapshot)
}

/// A subscriber that fell behind is sent a fresh snapshot, whatever else
/// is known of the connection.
pub proof fn lemma_lag_resyncs()
    ensures
        answer_to(SocketInput::Lagged) == SocketAction::Resync,
        forall|delivered: bool| goes_on(SocketAction::Resync, true, delivered) == delivered,
        goes_on(SocketAction::Resync, false, false),
{
}

} // verus!
