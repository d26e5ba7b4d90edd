//! Connections, and what a pool remembers of them.
use crate::time::Instant;
use vstd::prelude::*;

verus! {

/// A connection and the time it was opened.
#[derive(Debug)]
pub struct Conn<C> {
    /// The connection.
    pub conn: C,
    /// When the connection was opened.
    pub birth: Instant,
}

/// A connection that nobody uses, and the time it was last put aside.
#[derive(Debug)]
pub struct IdleConn<C> {
    /// The connection.
    pub conn: Conn<C>,
    /// Since when the connection has been idle.
    pub idle_start: Instant,
}

impl<C> IdleConn<C> {
    /// Puts `conn` aside at the time `now`.
    pub fn make_idle(conn: Conn<C>, now: Instant) -> (idle: IdleConn<C>)
        ensures
            idle.conn == conn,
            idle.idle_start == now,
    {
        IdleConn { conn, idle_start: now }
    }
}

} // verus!
