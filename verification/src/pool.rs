//! The pool: opening, closing and replacing connections.
use crate::builder::{Builder, Settings};
use crate::conn::{Conn, IdleConn};
use crate::error::{sink_error, told, ErrorSink, NopErrorSink, Sink};
use crate::internals::{connections, culled, Holdings, PoolInternals, State};
use crate::manage::ManageConnection;
use crate::run::Spawn;
use crate::time::{Duration, Instant};
use std::sync::Arc;
use vstd::prelude::*;

verus! {

/// The guts of a `Pool`: what its tasks share without a lock.
#[verifier::reject_recursive_types(M)]
pub struct SharedPool<M: ManageConnection> {
    statics: Builder<M>,
    manager: M,
}

/// A generic connection pool.
///
/// The data that the pool's lock guards, a `PoolInternals`, is handed to the
/// pool's functions by the task that holds the lock.
#[verifier::reject_recursive_types(M)]
pub struct Pool<M: ManageConnection> {
    inner: Arc<SharedPool<M>>,
}

impl<M: ManageConnection> Clone for Pool<M> {
    fn clone(&self) -> (copy: Self)
        ensures
            copy == *self,
    {
        Pool { inner: self.inner.clone() }
    }
}

/// What came of an outcome that was given a limited time, where the outer error
/// says that the time was up: nothing in that case.
pub open spec fn in_time<T, E, X>(timed: Result<Result<T, E>, X>) -> Result<Option<T>, E> {
    match timed {
        Ok(Ok(item)) => Ok(Some(item)),
        Ok(Err(e)) => Err(e),
        Err(_) => Ok(None),
    }
}

impl<M: ManageConnection> SharedPool<M> {
    /// The settings the pool was built with.
    pub closed spec fn settings(&self) -> Settings {
        self.statics@
    }

    /// The sink the pool was built with, if it is another than `NopErrorSink`.
    pub closed spec fn sink(&self) -> Option<Sink<dyn ErrorSink<M::Error>>> {
        self.statics.sink()
    }

    /// The manager the pool was built with.
    pub closed spec fn manager_spec(&self) -> M {
        self.manager
    }

    /// The settings the pool was built with.
    pub fn statics(&self) -> (statics: &Builder<M>)
        ensures
            statics@ == self.settings(),
            statics.sink() == self.sink(),
    {
        &self.statics
    }

    /// The manager the pool was built with.
    pub fn manager(&self) -> (manager: &M)
        ensures
            *manager == self.manager_spec(),
    {
        &self.manager
    }

    /// Passes `outcome` on to whoever asked; an error goes to the pool's sink instead.
    pub fn sink_error<T>(&self, outcome: Result<T, M::Error>) -> (passed: Result<T, ()>)
        ensures
            match outcome {
                Ok(t) => passed == Ok::<T, ()>(t),
                Err(e) => passed == Err::<T, ()>(()) && (self.sink() matches Some(sink) ==> told(
                    sink,
                    e,
                )),
            },
    {
        match self.statics.get_error_sink() {
            Some(sink) => sink_error(sink, outcome),
            None => sink_error(&Sink::new(Box::new(NopErrorSink)), outcome),
        }
    }

    /// What came of an outcome that was given a limited time, where the outer
    /// error says that the time was up: nothing in that case.
    pub fn or_timeout<T, E, X>(timed: Result<Result<T, E>, X>) -> (outcome: Result<Option<T>, E>)
        ensures
            outcome == in_time(timed),
            outcome matches Ok(Some(item)) ==> timed matches Ok(Ok(came)) && came == item,
            outcome matches Err(e) ==> timed matches Ok(Err(came)) && came == e,
            outcome matches Ok(None) ==> timed is Err,
    {
        match timed {
            Ok(Ok(item)) => Ok(Some(item)),
            Ok(Err(e)) => Err(e),
            Err(_) => Ok(None),
        }
    }
}

/// What has happened to a connection that is being added.
pub enum AddEvent<C, E> {
    /// One was asked for.
    Start,
    /// `ManageConnection::connect` resolved.
    Connected(Result<C, E>),
}

/// What the task that adds a connection does next.
pub enum AddStep<E> {
    /// Await `ManageConnection::connect`, then come back with what it resolved to.
    Connect,
    /// End with this.
    Done(Result<(), E>),
}

/// Adds a connection, unless that would be one too many.
///
/// A connection that is being opened counts as one until it is open or has failed.
pub fn add_connection<M: ManageConnection>(
    pool: &SharedPool<M>,
    internals: &mut PoolInternals<M::Connection>,
    event: AddEvent<M::Connection, M::Error>,
    now: Instant,
) -> (step: AddStep<M::Error>)
    requires
        old(internals)@.within(pool.settings()),
        event is Connected ==> old(internals)@.pending_conns > 0,
    ensures
        final(internals)@.within(pool.settings()),
        old(internals)@.moves(pool.settings(), final(internals)@),
        // What is being opened is what the tasks that add connections await.
        final(internals)@.pending_conns - (if step is Connect {
            1int
        } else {
            0
        }) == old(internals)@.pending_conns - (if event is Connected {
            1int
        } else {
            0
        }),
        match event {
            AddEvent::Start => if old(internals)@.has_room(pool.settings()) {
                &&& step is Connect
                &&& final(internals)@ == old(internals)@.reserve()
            } else {
                &&& step == AddStep::<M::Error>::Done(Ok(()))
                &&& final(internals)@ == old(internals)@
            },
            AddEvent::Connected(Ok(conn)) => {
                &&& step == AddStep::<M::Error>::Done(Ok(()))
                &&& old(internals)@.establish().put(
                    IdleConn { conn: Conn { conn, birth: now }, idle_start: now },
                    final(internals)@,
                )
            },
            AddEvent::Connected(Err(e)) => {
                &&& step == AddStep::<M::Error>::Done(Err(e))
                &&& final(internals)@ == old(internals)@.release()
            },
        },
        // One is opened only while there is room, and counts from then on.
        step is Connect <==> event is Start && old(internals).num_conns + old(
            internals,
        ).pending_conns < pool.settings().max_size,
        final(internals).num_conns == old(internals).num_conns + (if event matches
            AddEvent::Connected(Ok(_)) {
            1int
        } else {
            0
        }),
        !(event matches AddEvent::Connected(Ok(_))) ==> final(internals).conns@ == old(
            internals,
        ).conns@ && final(internals).waiters@ == old(internals).waiters@,
{
    let max_size = pool.statics.get_max_size();
    match event {
        AddEvent::Start => {
            if internals.num_conns + internals.pending_conns >= max_size {
                return AddStep::Done(Ok(()));
            }
            internals.pending_conns = internals.pending_conns + 1;
            assert(internals@ == old(internals)@.reserve());
            AddStep::Connect
        },
        AddEvent::Connected(Ok(conn)) => {
            let conn = IdleConn { conn: Conn { conn, birth: now }, idle_start: now };
            internals.pending_conns = internals.pending_conns - 1;
            internals.num_conns = internals.num_conns + 1;
            assert(internals@ == old(internals)@.establish());
            internals.put_idle_conn(conn);
            AddStep::Done(Ok(()))
        },
        AddEvent::Connected(Err(e)) => {
            internals.pending_conns = internals.pending_conns - 1;
            assert(internals@ == old(internals)@.release());
            AddStep::Done(Err(e))
        },
    }
}

/// What came of asking for an idle connection.
pub enum CheckOut<C> {
    /// The connection that has been idle for longest, and what to spawn now
    /// that there is one less.
    Idle { conn: Conn<C>, spawn: Spawn },
    /// No connection is idle.
    Empty,
}

/// Takes the connection that has been idle for longest.
///
/// While more connections may be opened, replacing it is left to a spawned
/// task, which opens as many as it takes to retain the minimum idle count.
pub fn get_idle_connection<M: ManageConnection>(
    pool: &SharedPool<M>,
    internals: &mut PoolInternals<M::Connection>,
) -> (got: CheckOut<M::Connection>)
    requires
        old(internals)@.within(pool.settings()),
    ensures
        final(internals)@.within(pool.settings()),
        if old(internals)@.idle.len() == 0 {
            &&& got is Empty
            &&& final(internals)@ == old(internals)@
        } else {
            &&& got == (CheckOut::Idle {
                conn: old(internals)@.idle[0].conn,
                spawn: if old(internals)@.has_room(pool.settings()) {
                    Spawn::Replenish
                } else {
                    Spawn::Nothing
                },
            })
            &&& final(internals)@ == old(internals)@.take_idle()
            &&& final(internals)@.handed_out() == old(internals)@.handed_out() + 1
        },
        got matches CheckOut::Idle { conn, spawn } ==> {
            &&& old(internals).conns@ == seq![old(internals).conns@[0]] + final(internals).conns@
            &&& conn == old(internals).conns@[0].conn
            &&& spawn is Replenish <==> old(internals).num_conns + old(internals).pending_conns
                < pool.settings().max_size
        },
        final(internals).waiters@ == old(internals).waiters@,
        final(internals).num_conns == old(internals).num_conns,
        final(internals).pending_conns == old(internals).pending_conns,
{
    let max_size = pool.statics.get_max_size();
    match internals.conns.pop_front() {
        Some(idle) => {
            assert(internals@.idle =~= old(internals)@.idle.drop_first());
            // Spin up a new connection if necessary to retain our minimum idle count
            let spawn = if internals.num_conns + internals.pending_conns < max_size {
                Spawn::Replenish
            } else {
                Spawn::Nothing
            };
            CheckOut::Idle { conn: idle.conn, spawn }
        },
        None => CheckOut::Empty,
    }
}

/// Connections that a pool no longer counts.
pub struct Dropped<C> {
    /// The connections. Whoever holds the pool's lock lets go of them only after
    /// the lock is released and the replacements are open.
    pub closed: Vec<C>,
    /// How many connections to open in their place.
    pub replacements: u32,
}

/// Closes connections that are not idle, and says how many to open in their place.
pub fn drop_connections<M: ManageConnection>(
    pool: &SharedPool<M>,
    internals: &mut PoolInternals<M::Connection>,
    to_drop: Vec<M::Connection>,
) -> (dropped: Dropped<M::Connection>)
    requires
        old(internals)@.within(pool.settings()),
        to_drop@.len() <= old(internals)@.handed_out(),
    ensures
        final(internals)@.within(pool.settings()),
        final(internals)@ == old(internals)@.close(to_drop@.len()),
        dropped.closed == to_drop,
        dropped.replacements == final(internals)@.shortfall(pool.settings()),
        final(internals).num_conns + to_drop@.len() == old(internals).num_conns,
        final(internals).pending_conns == old(internals).pending_conns,
        final(internals).conns@ == old(internals).conns@,
        final(internals).waiters@ == old(internals).waiters@,
        dropped.replacements == 0 || final(internals)@.idle.len() + dropped.replacements <= (match pool.settings().min_idle {
            Some(min_idle) => min_idle,
            None => 0,
        }),
        final(internals)@.num_conns + final(internals)@.pending_conns + dropped.replacements <= pool.settings().max_size,
        final(internals)@.idle.len() + dropped.replacements >= (match pool.settings().min_idle {
            Some(min_idle) => min_idle,
            None => 0,
        }) || final(internals)@.num_conns + final(internals)@.pending_conns + dropped.replacements == pool.settings().max_size,
{
    let max_size = pool.statics.get_max_size();
    internals.num_conns = internals.num_conns - to_drop.len() as u32;
    // We might need to spin up more connections to maintain the idle limit, e.g.
    // if we hit connection lifetime limits
    let replacements: u32 = if internals.num_conns + internals.pending_conns < max_size {
        Pool::replenish_idle_connections_locked(pool, internals)
    } else {
        0
    };
    Dropped { closed: to_drop, replacements }
}

/// Closes connections that were idle, and says how many to open in their place.
pub fn drop_idle_connections<M: ManageConnection>(
    pool: &SharedPool<M>,
    internals: &mut PoolInternals<M::Connection>,
    to_drop: Vec<IdleConn<M::Connection>>,
) -> (dropped: Dropped<M::Connection>)
    requires
        old(internals)@.within(pool.settings()),
        to_drop@.len() <= old(internals)@.handed_out(),
    ensures
        final(internals)@.within(pool.settings()),
        final(internals)@ == old(internals)@.close(to_drop@.len()),
        dropped.closed@ == connections(to_drop@),
        dropped.replacements == final(internals)@.shortfall(pool.settings()),
        dropped.closed@.len() == to_drop@.len(),
        forall|i: int|
            0 <= i < to_drop@.len() ==> #[trigger] dropped.closed@[i] == to_drop@[i].conn.conn,
        final(internals).num_conns + to_drop@.len() == old(internals).num_conns,
        final(internals).pending_conns == old(internals).pending_conns,
        final(internals).conns@ == old(internals).conns@,
        final(internals).waiters@ == old(internals).waiters@,
        dropped.replacements == 0 || final(internals)@.idle.len() + dropped.replacements <= (match pool.settings().min_idle {
            Some(min_idle) => min_idle,
            None => 0,
        }),
        final(internals)@.num_conns + final(internals)@.pending_conns + dropped.replacements <= pool.settings().max_size,
        final(internals)@.idle.len() + dropped.replacements >= (match pool.settings().min_idle {
            Some(min_idle) => min_idle,
            None => 0,
        }) || final(internals)@.num_conns + final(internals)@.pending_conns + dropped.replacements == pool.settings().max_size,
{
    let ghost idle_conns = to_drop@;
    let mut conns: Vec<M::Connection> = Vec::new();
    for idle in it: to_drop
        invariant
            it.seq() == idle_conns,
            conns@ =~= connections(idle_conns).take(it.index() as int),
    {
        conns.push(idle.conn.conn);
    }
    assert(connections(idle_conns).take(idle_conns.len() as int) =~= connections(idle_conns));
    drop_connections(pool, internals, conns)
}

/// Closes the idle connections that have outlived their limits at `now`, and
/// says how many to open in their place.
pub fn reap_connections<M: ManageConnection>(
    pool: &SharedPool<M>,
    internals: &mut PoolInternals<M::Connection>,
    now: Instant,
) -> (dropped: Dropped<M::Connection>)
    requires
        old(internals)@.within(pool.settings()),
    ensures
        final(internals)@.within(pool.settings()),
        old(internals)@.moves(pool.settings(), final(internals)@),
        final(internals)@ == old(internals)@.reap(pool.settings(), now@),
        dropped.closed@ == connections(culled(pool.settings(), old(internals)@.idle, now@)),
        dropped.replacements == final(internals)@.shortfall(pool.settings()),
        final(internals).num_conns + dropped.closed@.len() == old(internals).num_conns,
        final(internals).conns@.len() + dropped.closed@.len() == old(internals).conns@.len(),
        final(internals).pending_conns == old(internals).pending_conns,
        final(internals).waiters@ == old(internals).waiters@,
        dropped.replacements == 0 || final(internals)@.idle.len() + dropped.replacements <= (match pool.settings().min_idle {
            Some(min_idle) => min_idle,
            None => 0,
        }),
        final(internals)@.num_conns + final(internals)@.pending_conns + dropped.replacements <= pool.settings().max_size,
        final(internals)@.idle.len() + dropped.replacements >= (match pool.settings().min_idle {
            Some(min_idle) => min_idle,
            None => 0,
        }) || final(internals)@.num_conns + final(internals)@.pending_conns + dropped.replacements == pool.settings().max_size,
{
    let to_drop = internals.take_reaped(&pool.statics, now);
    let dropped = drop_idle_connections(pool, internals, to_drop);
    assert(internals@ == old(internals)@.reap(pool.settings(), now@));
    dropped
}

/// What replenishing comes to once a connection more has been added (`Some`), or
/// once there is none left to wait for (`None`): the first error ends it, and
/// without one it goes on to the end.
pub fn replenish_outcome<E>(next: Option<Result<(), E>>) -> (outcome: Option<Result<(), E>>)
    ensures
        match next {
            Some(Ok(_)) => outcome is None,
            Some(Err(e)) => outcome == Some(Err::<(), E>(e)),
            None => outcome == Some(Ok::<(), E>(())),
        },
{
    match next {
        Some(Ok(_)) => None,
        Some(Err(e)) => Some(Err(e)),
        None => Some(Ok(())),
    }
}

/// What the reaping task does next.
pub enum ReapStep<C> {
    /// Open connections in place of those closed, tell the sink if that fails, and
    /// wake up again.
    Replenish(Dropped<C>),
    /// End: the pool is gone.
    Stop,
}

/// What the reaping task does when it wakes up at `now`, given the pool if it
/// is still there.
pub fn schedule_reaping<M: ManageConnection>(
    alive: Option<(&SharedPool<M>, &mut PoolInternals<M::Connection>)>,
    now: Instant,
) -> (step: ReapStep<M::Connection>)
    requires
        alive matches Some((pool, internals)) ==> internals@.within(pool.settings()),
    ensures
        match alive {
            Some((pool, internals)) => {
                &&& final(internals)@.within(pool.settings())
                &&& final(internals)@ == internals@.reap(pool.settings(), now@)
                &&& step matches ReapStep::Replenish(dropped)
                &&& dropped.closed@ == connections(
                    culled(pool.settings(), internals@.idle, now@),
                )
                &&& dropped.replacements == final(internals)@.shortfall(pool.settings())
            },
            None => step is Stop,
        },
{
    match alive {
        Some((pool, internals)) => ReapStep::Replenish(reap_connections(pool, internals, now)),
        None => ReapStep::Stop,
    }
}

/// A pool that was just built.
#[verifier::reject_recursive_types(M)]
pub struct Built<M: ManageConnection> {
    /// The pool.
    pub pool: Pool<M>,
    /// What its lock is to guard.
    pub internals: PoolInternals<M::Connection>,
    /// The interval at which the reaping task is to wake up, if there is to be one.
    pub reap_every: Option<Duration>,
}

impl<M: ManageConnection> Built<M> {
    /// This is a pool with those settings, that sink and that manager, in which
    /// nothing has happened yet. It is reaped exactly if it has limits to reap by.
    pub open spec fn fresh(
        self,
        settings: Settings,
        sink: Option<Sink<dyn ErrorSink<M::Error>>>,
        manager: M,
    ) -> bool {
        &&& self.pool.shared().settings() == settings
        &&& self.pool.shared().sink() == sink
        &&& self.pool.shared().manager_spec() == manager
        &&& self.internals@ == Holdings::<M::Connection>::nothing()
        &&& self.internals@.within(settings)
        &&& match self.reap_every {
            Some(interval) => settings.reaps() && interval@ == settings.reaper_rate,
            None => !settings.reaps(),
        }
    }
}

/// The connections that are opened while a pool is built.
pub struct Opening {
    /// How many there are.
    pub count: u32,
    /// How long to await them at most. Those that are not open by then are still
    /// being added.
    pub limit: Duration,
}

/// What building ends with, where `timed` says what came of opening the first
/// connections within the time limit, the outer error being that the time was
/// up: the pool, unless a connection failed in time.
pub fn build_outcome<P, E, X>(pool: P, timed: Result<Result<(), E>, X>) -> (end: Result<P, E>)
    ensures
        match timed {
            Ok(Ok(_)) => end == Ok::<P, E>(pool),
            Ok(Err(e)) => end == Err::<P, E>(e),
            Err(_) => end == Ok::<P, E>(pool),
        },
{
    match timed {
        Ok(Ok(_)) => Ok(pool),
        Ok(Err(e)) => Err(e),
        Err(_) => Ok(pool),
    }
}

impl<M: ManageConnection> Builder<M> {
    fn build_inner(self, manager: M) -> (built: Built<M>)
        requires
            self@.buildable(),
        ensures
            built.fresh(self@, self.sink(), manager),
            // A reaping task is there exactly if connections have a limit of age.
            built.reap_every is Some <==> self@.max_lifetime is Some || self@.idle_timeout is Some,
            built.reap_every matches Some(interval) ==> interval@ == self@.reaper_rate,
            built.internals.waiters@.len() == 0,
            built.internals.conns@.len() == 0,
            built.internals.num_conns == 0,
            built.internals.pending_conns == 0,
            built.pool.shared().settings() == self@,
            built.pool.shared().sink() == self.sink(),
            built.pool.shared().manager_spec() == manager,
    {
        Pool::new_inner(self, manager)
    }

    /// Consumes the builder, returning a new, initialized `Pool`, and what to
    /// await for it.
    ///
    /// The `Pool` will not be returned until it has established its configured
    /// minimum number of connections, or it times out: `build_outcome` takes what
    /// came of that.
    pub fn build(self, manager: M) -> (started: (Built<M>, Opening))
        requires
            self@.buildable(),
        ensures
            started.0.fresh(self@, self.sink(), manager),
            // A reaping task is there exactly if connections have a limit of age.
            started.0.reap_every is Some <==> self@.max_lifetime is Some || self@.idle_timeout is Some,
            started.0.reap_every matches Some(interval) ==> interval@ == self@.reaper_rate,
            started.0.internals.waiters@.len() == 0,
            started.0.internals.conns@.len() == 0,
            started.0.internals.num_conns == 0,
            started.0.internals.pending_conns == 0,
            started.0.pool.shared().settings() == self@,
            started.0.pool.shared().sink() == self.sink(),
            started.0.pool.shared().manager_spec() == manager,
            started.1.count == self@.desired_idle(),
            self@.min_idle matches Some(min_idle) ==> started.1.count == min_idle,
            self@.min_idle is None ==> started.1.count == 0,
            started.1.limit@ == self@.connection_timeout,
    {
        let limit = self.get_connection_timeout();
        let built = self.build_inner(manager);
        let count: u32 = built.pool.replenish_idle_connections(&built.internals);
        (built, Opening { count, limit })
    }

    /// Consumes the builder, returning a new, initialized `Pool`, and what to
    /// spawn for it.
    ///
    /// Unlike `build`, this does not wait for any connections to be established
    /// before returning.
    pub fn build_unchecked(self, manager: M) -> (started: (Built<M>, Spawn))
        requires
            self@.buildable(),
        ensures
            started.0.fresh(self@, self.sink(), manager),
            // A reaping task is there exactly if connections have a limit of age.
            started.0.reap_every is Some <==> self@.max_lifetime is Some || self@.idle_timeout is Some,
            started.0.reap_every matches Some(interval) ==> interval@ == self@.reaper_rate,
            started.0.internals.waiters@.len() == 0,
            started.0.internals.conns@.len() == 0,
            started.0.internals.num_conns == 0,
            started.0.internals.pending_conns == 0,
            started.0.pool.shared().settings() == self@,
            started.0.pool.shared().sink() == self.sink(),
            started.0.pool.shared().manager_spec() == manager,
            started.1 is Replenish,
    {
        (self.build_inner(manager), Spawn::Replenish)
    }
}

impl<M: ManageConnection> Pool<M> {
    /// What the tasks of this pool share.
    pub closed spec fn shared(&self) -> SharedPool<M> {
        *self.inner
    }

    /// What the tasks of this pool share.
    pub fn inner(&self) -> (inner: &Arc<SharedPool<M>>)
        ensures
            **inner == self.shared(),
    {
        &self.inner
    }

    fn new_inner(builder: Builder<M>, manager: M) -> (built: Built<M>)
        requires
            builder@.buildable(),
        ensures
            built.fresh(builder@, builder.sink(), manager),
            // A reaping task is there exactly if connections have a limit of age.
            built.reap_every is Some <==> builder@.max_lifetime is Some || builder@.idle_timeout is Some,
            built.reap_every matches Some(interval) ==> interval@ == builder@.reaper_rate,
            built.internals.waiters@.len() == 0,
            built.internals.conns@.len() == 0,
            built.internals.num_conns == 0,
            built.internals.pending_conns == 0,
            built.pool.shared().settings() == builder@,
            built.pool.shared().sink() == builder.sink(),
            built.pool.shared().manager_spec() == manager,
    {
        let reap_every = if builder.get_max_lifetime().is_some()
            || builder.get_idle_timeout().is_some() {
            Some(builder.get_reaper_rate())
        } else {
            None
        };
        let pool = Pool { inner: Arc::new(SharedPool { statics: builder, manager }) };
        Built { pool, internals: PoolInternals::new(), reap_every }
    }

    /// How many connections to open for there to be as many idle ones as desired,
    /// or as many as there is room for.
    pub fn replenish_idle_connections_locked(
        pool: &SharedPool<M>,
        internals: &PoolInternals<M::Connection>,
    ) -> (wanted: u32)
        requires
            internals@.within(pool.settings()),
        ensures
            wanted == internals@.shortfall(pool.settings()),
            wanted == 0 || internals@.idle.len() + wanted <= (match pool.settings().min_idle {
                Some(min_idle) => min_idle,
                None => 0,
            }),
            internals@.num_conns + internals@.pending_conns + wanted <= pool.settings().max_size,
            internals@.idle.len() + wanted >= (match pool.settings().min_idle {
                Some(min_idle) => min_idle,
                None => 0,
            }) || internals@.num_conns + internals@.pending_conns + wanted == pool.settings().max_size,
    {
        let slots_available = pool.statics.get_max_size() - internals.num_conns
            - internals.pending_conns;
        let idle: u32 = internals.conns.len() as u32;
        let desired: u32 = match pool.statics.get_min_idle() {
            Some(min_idle) => min_idle,
            None => 0,
        };
        let reachable: u32 = idle + slots_available;
        let target: u32 = if desired < reachable {
            desired
        } else {
            reachable
        };
        if target > idle {
            target - idle
        } else {
            0
        }
    }

    /// How many connections to open for there to be as many idle ones as
    /// desired, or as many as there is room for.
    pub fn replenish_idle_connections(&self, internals: &PoolInternals<M::Connection>) -> (wanted:
        u32)
        requires
            internals@.within(self.shared().settings()),
        ensures
            wanted == internals@.shortfall(self.shared().settings()),
            wanted == 0 || internals@.idle.len() + wanted <= (match self.shared().settings().min_idle {
                Some(min_idle) => min_idle,
                None => 0,
            }),
            internals@.num_conns + internals@.pending_conns + wanted <= self.shared().settings().max_size,
            internals@.idle.len() + wanted >= (match self.shared().settings().min_idle {
                Some(min_idle) => min_idle,
                None => 0,
            }) || internals@.num_conns + internals@.pending_conns + wanted == self.shared().settings().max_size,
    {
        Pool::replenish_idle_connections_locked(&self.inner, internals)
    }

    /// Returns a `Builder` instance to configure a new pool.
    pub fn builder() -> (builder: Builder<M>)
        ensures
            builder@ == Settings::defaults(),
            builder@.wf(),
            builder.sink() is None,
    {
        Builder::new()
    }

    /// Returns information about the current state of the pool.
    pub fn state(&self, internals: &PoolInternals<M::Connection>) -> (state: State)
        requires
            internals@.within(self.shared().settings()),
        ensures
            state.connections == internals@.num_conns,
            state.connections == internals.num_conns,
            state.idle_connections == internals@.idle.len(),
            state.idle_connections == internals.conns@.len(),
            state.idle_connections <= state.connections <= self.shared().settings().max_size,
    {
        State { connections: internals.num_conns, idle_connections: internals.conns.len() as u32 }
    }

    /// Get a new dedicated connection that will not be managed by the pool.
    /// An application may want a persistent connection (e.g. to do a
    /// postgres LISTEN) that will not be closed or repurposed by the pool.
    ///
    /// This method allows reusing the manager's configuration but otherwise
    /// bypassing the pool
    pub fn dedicated_connection(&self) -> (connecting: M::Connecting)
        ensures
            call_ensures(M::connect, (&self.shared().manager_spec(),), connecting),
    {
        self.inner.manager.connect()
    }
}

} // verus!
