//! Per-connection authentication state.

use vstd::prelude::*;

verus! {

#[derive(Clone, Copy, Debug, PartialEq, Eq, Structural)]
pub enum ConnectionState {
    NotAuthenticated,
    Authenticated,
}

/// The protocol-level state of one client connection. The byte stream it
/// belongs to is held by whoever drives the session.
pub struct Connection {
    state: ConnectionState,
}

impl View for Connection {
    type V = ConnectionState;

    closed spec fn view(&self) -> ConnectionState {
        self.state
    }
}

impl Connection {
    /// The current authentication state.
    pub fn state(&self) -> (r: ConnectionState)
        ensures
            r == self@,
    {
        self.state
    }

    pub fn is_authenticated(&self) -> (r: bool)
        ensures
            r == (self@ == ConnectionState::Authenticated),
    {
        self.state == ConnectionState::Authenticated
    }
}

/// A freshly accepted connection, not yet authenticated.
pub fn new() -> (r: Connection)
    ensures
        r@ == ConnectionState::NotAuthenticated,
{
    Connection { state: ConnectionState::NotAuthenticated }
}

/// Marks the connection authenticated; calling it again changes nothing.
pub fn set_authenticated_state(connection: &mut Connection)
    ensures
        final(connection)@ == ConnectionState::Authenticated,
{
    set_state(connection, ConnectionState::Authenticated);
}

fn set_state(connection: &mut Connection, state: ConnectionState)
    ensures
        final(connection)@ == state,
{
    connection.state = state;
}

} // verus!
