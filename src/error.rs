//! Why a connection ends.

use vstd::prelude::*;

verus! {

/// Why a connection, or the server, stopped.
#[derive(Debug, PartialEq, Eq)]
pub enum ServerError {
    /// Binding the listener to the address failed.
    Bind(String),
    /// The peer at this address sent no first line.
    NoJoin(String),
    /// The first line of the peer at this address was no join command.
    InvalidJoin(String),
    /// A message could not be handed to the channel's group.
    BroadcastMessage,
    /// A line could not be written to the peer at this address.
    SendMessage(String),
    /// The user name is taken in the channel.
    UserAlreadyInChannel(String),
    /// The listener's own address could not be read.
    GetLocalAddress,
}

} // verus!
