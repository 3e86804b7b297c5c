//! The messages that a server and its clients exchange about a running game.

use vstd::prelude::*;

verus! {

/// The state of the game.
#[derive(Debug)]
pub struct State;

/// Something a player may do.
#[derive(Debug)]
pub struct Action;

/// Something that happened.
#[derive(Debug)]
pub struct Event;

/// What the server tells a client.
#[derive(Debug)]
pub struct ServerMessage {
    /// The current state of the game
    pub state: State,
    /// The available actions to the player
    pub available_actions: Vec<Action>,
    /// The events that transpired since last state
    pub events: Vec<Event>,
}

/// What a client tells the server.
#[derive(Debug)]
pub struct ClientMessage {
    /// The action the player wants to take
    pub action: Action,
}

} // verus!
