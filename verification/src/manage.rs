//! What a pool asks of the connections it manages.
use std::future::Future;
use vstd::prelude::*;

verus! {

/// A trait which provides connection-specific functionality.
pub trait ManageConnection: Send + Sync + 'static {
    /// The connection type this manager deals with.
    type Connection: Send + 'static;

    /// The error type returned by `Connection`s.
    type Error: std::fmt::Debug + Send + 'static;

    /// What `connect` resolves through.
    type Connecting: Future<Output = Result<Self::Connection, Self::Error>> + Send + 'static;

    /// What `is_valid` resolves through.
    type Validating: Future<
        Output = Result<Self::Connection, (Self::Error, Self::Connection)>,
    > + Send + 'static;

    /// Attempts to create a new connection.
    fn connect(&self) -> Self::Connecting;

    /// Determines if the connection is still connected to the database.
    fn is_valid(&self, conn: Self::Connection) -> Self::Validating;

    /// Synchronously determine if the connection is no longer usable, if possible.
    fn has_broken(&self, conn: &mut Self::Connection) -> bool;
}

} // verus!
