//! The settings of a pool.
use crate::error::{ErrorSink, Sink};
use crate::manage::ManageConnection;
use crate::time::{Duration, NANOS_PER_SEC};
use vstd::prelude::*;

verus! {

/// The settings of a pool, as its contracts speak of them. Times are in
/// nanoseconds.
pub struct Settings {
    /// The maximum number of connections allowed.
    pub max_size: nat,
    /// The minimum idle connection count the pool will attempt to maintain.
    pub min_idle: Option<nat>,
    /// Whether or not to test the connection on checkout.
    pub test_on_check_out: bool,
    /// The maximum lifetime, if any, that a connection is allowed.
    pub max_lifetime: Option<nat>,
    /// The time, if any, after which idle connections in excess of `min_idle` are closed.
    pub idle_timeout: Option<nat>,
    /// The time to wait for a connection before giving up.
    pub connection_timeout: nat,
    /// The time interval used to wake up and reap connections.
    pub reaper_rate: nat,
}

impl Settings {
    /// No limit is zero.
    pub open spec fn wf(self) -> bool {
        &&& self.max_size > 0
        &&& self.max_lifetime != Some(0nat)
        &&& self.idle_timeout != Some(0nat)
        &&& self.connection_timeout > 0
    }

    /// The idle count that the pool aims at.
    pub open spec fn desired_idle(self) -> nat {
        match self.min_idle {
            Some(n) => n,
            None => 0,
        }
    }

    /// Whether connections are ever closed for their age.
    pub open spec fn reaps(self) -> bool {
        self.max_lifetime is Some || self.idle_timeout is Some
    }

    /// Whether a pool can be built with these settings: it never has to keep more
    /// idle connections than it may open, and it wakes up to reap at intervals
    /// that are longer than nothing.
    pub open spec fn buildable(self) -> bool {
        &&& self.desired_idle() <= self.max_size
        &&& self.reaps() ==> self.reaper_rate > 0
    }

    /// The settings of a builder that nothing was said to.
    pub open spec fn defaults() -> Settings {
        Settings {
            max_size: 10,
            min_idle: None,
            test_on_check_out: true,
            max_lifetime: Some((30 * 60 * NANOS_PER_SEC) as nat),
            idle_timeout: Some((10 * 60 * NANOS_PER_SEC) as nat),
            connection_timeout: (30 * NANOS_PER_SEC) as nat,
            reaper_rate: (30 * NANOS_PER_SEC) as nat,
        }
    }
}

/// The nanoseconds of a span that may be missing.
pub open spec fn span(d: Option<Duration>) -> Option<nat> {
    match d {
        Some(d) => Some(d@),
        None => None,
    }
}

/// A count that may be missing.
pub open spec fn count(n: Option<u32>) -> Option<nat> {
    match n {
        Some(n) => Some(n as nat),
        None => None,
    }
}

/// A builder for a connection pool.
#[derive(Debug)]
#[verifier::reject_recursive_types(M)]
pub struct Builder<M: ManageConnection> {
    /// The maximum number of connections allowed.
    max_size: u32,
    /// The minimum idle connection count the pool will attempt to maintain.
    min_idle: Option<u32>,
    /// Whether or not to test the connection on checkout.
    test_on_check_out: bool,
    /// The maximum lifetime, if any, that a connection is allowed.
    max_lifetime: Option<Duration>,
    /// The duration, if any, after which idle connections in excess of `min_idle` are closed.
    idle_timeout: Option<Duration>,
    /// The duration to wait to start a connection before giving up.
    connection_timeout: Duration,
    /// The error sink, if it is another than `NopErrorSink`.
    error_sink: Option<Sink<dyn ErrorSink<M::Error>>>,
    /// The time interval used to wake up and reap connections.
    reaper_rate: Duration,
}

impl<M: ManageConnection> View for Builder<M> {
    type V = Settings;

    closed spec fn view(&self) -> Settings {
        Settings {
            max_size: self.max_size as nat,
            min_idle: count(self.min_idle),
            test_on_check_out: self.test_on_check_out,
            max_lifetime: span(self.max_lifetime),
            idle_timeout: span(self.idle_timeout),
            connection_timeout: self.connection_timeout@,
            reaper_rate: self.reaper_rate@,
        }
    }
}

impl<M: ManageConnection> Default for Builder<M> {
    fn default() -> (builder: Self)
        ensures
            builder@ == Settings::defaults(),
            builder@.wf(),
            builder.sink() is None,
    {
        Builder {
            max_size: 10,
            min_idle: None,
            test_on_check_out: true,
            max_lifetime: Some(Duration::from_secs(30 * 60)),
            idle_timeout: Some(Duration::from_secs(10 * 60)),
            connection_timeout: Duration::from_secs(30),
            error_sink: None,
            reaper_rate: Duration::from_secs(30),
        }
    }
}

impl<M: ManageConnection> Builder<M> {
    /// The sink that errors go to, if it is another than `NopErrorSink`.
    pub closed spec fn sink(&self) -> Option<Sink<dyn ErrorSink<M::Error>>> {
        self.error_sink
    }

    /// Constructs a new `Builder`.
    ///
    /// Parameters are initialized with their default values.
    pub fn new() -> (builder: Builder<M>)
        ensures
            builder@ == Settings::defaults(),
            builder@.wf(),
            builder.sink() is None,
    {
        Default::default()
    }

    /// Sets the maximum number of connections managed by the pool.
    ///
    /// Defaults to 10.
    pub fn max_size(self, max_size: u32) -> (builder: Builder<M>)
        requires
            max_size > 0,
        ensures
            builder@ == (Settings { max_size: max_size as nat, ..self@ }),
            builder.sink() == self.sink(),
            self@.wf() ==> builder@.wf(),
    {
        Builder { max_size, ..self }
    }

    /// Sets the minimum idle connection count maintained by the pool.
    ///
    /// If set, the pool will try to maintain at least this many idle
    /// connections at all times, while respecting the value of `max_size`.
    ///
    /// Defaults to None.
    pub fn min_idle(self, min_idle: Option<u32>) -> (builder: Builder<M>)
        ensures
            builder@ == (Settings { min_idle: count(min_idle), ..self@ }),
            builder.sink() == self.sink(),
            self@.wf() ==> builder@.wf(),
    {
        Builder { min_idle, ..self }
    }

    /// If true, the health of a connection will be verified through a call to
    /// `ManageConnection::is_valid` before it is provided to a pool user.
    ///
    /// Defaults to true.
    pub fn test_on_check_out(self, test_on_check_out: bool) -> (builder: Builder<M>)
        ensures
            builder@ == (Settings { test_on_check_out, ..self@ }),
            builder.sink() == self.sink(),
            self@.wf() ==> builder@.wf(),
    {
        Builder { test_on_check_out, ..self }
    }

    /// Sets the maximum lifetime of connections in the pool.
    ///
    /// If set, connections will be closed at the next reaping after surviving
    /// past this duration.
    ///
    /// If a connection reachs its maximum lifetime while checked out it will be
    /// closed when it is returned to the pool.
    ///
    /// Defaults to 30 minutes.
    pub fn max_lifetime(self, max_lifetime: Option<Duration>) -> (builder: Builder<M>)
        requires
            span(max_lifetime) != Some(0nat),
        ensures
            builder@ == (Settings { max_lifetime: span(max_lifetime), ..self@ }),
            builder.sink() == self.sink(),
            self@.wf() ==> builder@.wf(),
    {
        Builder { max_lifetime, ..self }
    }

    /// Sets the idle timeout used by the pool.
    ///
    /// If set, idle connections in excess of `min_idle` will be closed at the
    /// next reaping after remaining idle past this duration.
    ///
    /// Defaults to 10 minutes.
    pub fn idle_timeout(self, idle_timeout: Option<Duration>) -> (builder: Builder<M>)
        requires
            span(idle_timeout) != Some(0nat),
        ensures
            builder@ == (Settings { idle_timeout: span(idle_timeout), ..self@ }),
            builder.sink() == self.sink(),
            self@.wf() ==> builder@.wf(),
    {
        Builder { idle_timeout, ..self }
    }

    /// Sets the connection timeout used by the pool.
    ///
    /// A run will wait this long in all, for connections and for their tests,
    /// before giving up and ending with an error. Building a pool will wait this
    /// long for its first connections.
    ///
    /// Defaults to 30 seconds.
    pub fn connection_timeout(self, connection_timeout: Duration) -> (builder: Builder<M>)
        requires
            connection_timeout@ > 0,
        ensures
            builder@ == (Settings { connection_timeout: connection_timeout@, ..self@ }),
            builder.sink() == self.sink(),
            self@.wf() ==> builder@.wf(),
    {
        Builder { connection_timeout, ..self }
    }

    /// Set the sink for errors that are not associated with any particular operation
    /// on the pool. This can be used to log and monitor failures.
    ///
    /// Defaults to `NopErrorSink`.
    pub fn error_sink(self, error_sink: Box<dyn ErrorSink<M::Error>>) -> (builder: Builder<M>)
        ensures
            builder@ == self@,
            builder.sink() is Some && builder.sink()->0.boxed == error_sink,
    {
        let error_sink = Sink::new(error_sink);
        Builder { error_sink: Some(error_sink), ..self }
    }

    /// Sets the time interval at which the pool wakes up and reaps connections.
    ///
    /// Defaults to 30 seconds.
    pub fn reaper_rate(self, reaper_rate: Duration) -> (builder: Builder<M>)
        ensures
            builder@ == (Settings { reaper_rate: reaper_rate@, ..self@ }),
            builder.sink() == self.sink(),
            self@.wf() ==> builder@.wf(),
    {
        Builder { reaper_rate, ..self }
    }

    /// The maximum number of connections allowed.
    pub fn get_max_size(&self) -> (max_size: u32)
        ensures
            max_size == self@.max_size,
    {
        self.max_size
    }

    /// The minimum idle connection count, if one is set.
    pub fn get_min_idle(&self) -> (min_idle: Option<u32>)
        ensures
            count(min_idle) == self@.min_idle,
    {
        self.min_idle
    }

    /// Whether connections are tested before they are handed out.
    pub fn get_test_on_check_out(&self) -> (test_on_check_out: bool)
        ensures
            test_on_check_out == self@.test_on_check_out,
    {
        self.test_on_check_out
    }

    /// The maximum lifetime, if any, that a connection is allowed.
    pub fn get_max_lifetime(&self) -> (max_lifetime: Option<Duration>)
        ensures
            span(max_lifetime) == self@.max_lifetime,
    {
        self.max_lifetime
    }

    /// The time, if any, after which idle connections in excess of `min_idle` are closed.
    pub fn get_idle_timeout(&self) -> (idle_timeout: Option<Duration>)
        ensures
            span(idle_timeout) == self@.idle_timeout,
    {
        self.idle_timeout
    }

    /// The time to wait for a connection before giving up.
    pub fn get_connection_timeout(&self) -> (connection_timeout: Duration)
        ensures
            connection_timeout@ == self@.connection_timeout,
    {
        self.connection_timeout
    }

    /// The time interval used to wake up and reap connections.
    pub fn get_reaper_rate(&self) -> (reaper_rate: Duration)
        ensures
            reaper_rate@ == self@.reaper_rate,
    {
        self.reaper_rate
    }

    /// The sink that errors go to, if it is another than `NopErrorSink`.
    pub fn get_error_sink(&self) -> (error_sink: &Option<Sink<dyn ErrorSink<M::Error>>>)
        ensures
            *error_sink == self.sink(),
    {
        &self.error_sink
    }
}

} // verus!
