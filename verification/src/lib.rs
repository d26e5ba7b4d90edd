//! The core of an asynchronous connection pool.
//!
//! Opening a new database connection every time one is needed is both
//! inefficient and can lead to resource exhaustion under high traffic
//! conditions. A connection pool maintains a set of open connections to a
//! database, handing them out for repeated use.
//!
//! This crate holds every decision of the pool: which connection is handed out,
//! who waits, when a connection is opened, tested, closed or replaced. What it
//! leaves to a driver is waiting: locking the pool, awaiting the futures of a
//! [`ManageConnection`], timers and spawned tasks. Each decision says what the
//! driver does next, and takes what came of it.
//!
//! The pool is agnostic to the connection type it is managing. Implementors of
//! the [`ManageConnection`] trait provide the database-specific logic to create
//! and check the health of connections.
pub mod builder;
pub mod channel;
pub mod conn;
pub mod error;
pub mod internals;
pub mod laws;
pub mod manage;
pub mod meaning;
pub mod pool;
pub mod run;
pub mod time;

pub use crate::builder::Builder;
pub use crate::conn::{Conn, IdleConn};
pub use crate::error::{ErrorSink, NopErrorSink, RunError};
pub use crate::internals::{PoolInternals, State};
pub use crate::manage::ManageConnection;
pub use crate::pool::{
    AddEvent, AddStep, Built, CheckOut, Dropped, Opening, Pool, ReapStep, SharedPool,
};
pub use crate::run::{AfterReplenish, Request, RunStep, Spawn, Turn};
pub use crate::time::{Deadline, Duration, Instant};
