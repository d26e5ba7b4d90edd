//! One run: getting a connection, using it and giving it back.
//!
//! A run starts with [`Pool::start`]. Each step tells the task of the run what
//! to do; with what came of it, one of the functions here gives the next step,
//! until the run is done.
//!
//! Looking for a connection takes a run no longer than the pool's connection
//! timeout: the steps up to the use of a connection carry the deadline, and each
//! that waits says for how long at most.
use crate::builder::Settings;
use crate::channel::paired;
use crate::conn::{Conn, IdleConn};
use crate::error::RunError;
use crate::internals::{limit_reached, run_out, Holdings, PoolInternals};
use crate::manage::ManageConnection;
use crate::pool::{drop_connections, get_idle_connection, CheckOut, Pool, SharedPool};
use crate::time::{Deadline, Duration, Instant};
use futures::channel::oneshot;
use vstd::prelude::*;

verus! {

/// A task to spawn on behalf of the pool. An error that it ends with goes to the
/// pool's sink.
pub enum Spawn {
    /// None.
    Nothing,
    /// One that replenishes the idle connections.
    Replenish,
    /// One that adds a connection.
    AddConnection,
}

/// What a run wants done under the pool's lock.
pub enum Request<C, T, E> {
    /// An idle connection is wanted.
    CheckOut { deadline: Deadline },
    /// A connection that failed its test is to be closed.
    Discard { conn: C, deadline: Deadline },
    /// A connection was lost to a test that was not over in time.
    Lost,
    /// Whoever has a connection next is to send it here.
    Enqueue { deadline: Deadline },
    /// A connection opened at `birth` was received when there was no time left to
    /// test it.
    TooLate { conn: C, birth: Instant },
    /// A connection opened at `birth` was used, with this result.
    GiveBack { conn: C, birth: Instant, broken: bool, result: Result<T, E> },
}

impl<C, T, E> Request<C, T, E> {
    /// How many connections come with this request, or were lost.
    pub open spec fn held(self) -> int {
        if self is CheckOut || self is Enqueue {
            0
        } else {
            1
        }
    }
}

/// What a run goes on with once connections have been replenished.
pub enum AfterReplenish<T, E> {
    /// It still needs a connection.
    CheckOut { deadline: Deadline },
    /// It is over.
    Finish(Result<T, E>),
}

/// What the task of a run does next.
#[verifier::reject_recursive_types(C)]
pub enum RunStep<C, T, E> {
    /// Lock the pool and pass this to `Pool::run`.
    Lock(Request<C, T, E>),
    /// Await `ManageConnection::is_valid` on this connection for no longer than
    /// `timeout` and pass what came of it, with the rest, to `RunStep::validated`.
    Validate { conn: C, birth: Instant, timeout: Duration, deadline: Deadline },
    /// Await the receiver for no longer than `timeout` and pass what came of it,
    /// with the rest, to `Pool::received`.
    Wait { receiver: oneshot::Receiver<Conn<C>>, timeout: Duration, deadline: Deadline },
    /// Await what the user does with this connection and pass what came of it,
    /// with `birth`, to `Pool::used`.
    Use { conn: C, birth: Instant },
    /// Add this many connections, await the end of that, whatever it is, for no
    /// longer than `limit`, if there is one, and pass `then` to
    /// `RunStep::replenished`. What has not ended by then goes on without the run.
    Replenish { count: u32, limit: Option<Duration>, then: AfterReplenish<T, E> },
    /// The run ends with this.
    Done(Result<T, RunError<E>>),
}

/// What comes of a request.
#[verifier::reject_recursive_types(C)]
pub struct Turn<C, T, E> {
    /// What to spawn.
    pub spawn: Spawn,
    /// What the run does next.
    pub step: RunStep<C, T, E>,
    /// A connection that was closed. The task lets go of it once it has released
    /// the lock and, if the run replenishes next, once that is over.
    pub closed: Option<C>,
}

/// What a run ends with after the user code gave `result`.
pub open spec fn concluded<T, E>(result: Result<T, E>) -> Result<T, RunError<E>> {
    match result {
        Ok(t) => Ok(t),
        Err(e) => Err(RunError::User(e)),
    }
}

/// What came of a test that was given a limited time: the connection, as passed
/// (`Ok`) or failed (`Err`), or nothing if the time was up.
pub open spec fn verdict<C, F, X>(timed: Result<Result<C, (F, C)>, X>) -> Option<Result<C, C>> {
    match timed {
        Ok(Ok(conn)) => Some(Ok(conn)),
        Ok(Err((_, conn))) => Some(Err(conn)),
        Err(_) => None,
    }
}

/// The connection that came of waiting for one, if one did.
pub open spec fn arrived<C, X>(outcome: Result<Option<Conn<C>>, X>) -> Option<Conn<C>> {
    match outcome {
        Ok(conn) => conn,
        Err(_) => None,
    }
}

impl<C, T, E> RunStep<C, T, E> {
    /// How many connections the run has in hand, or has lost.
    pub open spec fn held(self) -> int {
        match self {
            RunStep::Lock(request) => request.held(),
            RunStep::Validate { .. } => 1,
            RunStep::Use { .. } => 1,
            _ => 0,
        }
    }

    /// The run ends because its time is up.
    pub open spec fn timed_out() -> RunStep<C, T, E> {
        RunStep::Done(Err(RunError::TimedOut))
    }

    /// How a connection that was obtained at `now` reaches the user: after a test,
    /// if the pool tests connections. With no time left for the test, it goes back.
    pub open spec fn provide(
        settings: Settings,
        conn: Conn<C>,
        deadline: Deadline,
        now: Instant,
    ) -> RunStep<C, T, E> {
        if settings.test_on_check_out {
            match deadline.time_left(now) {
                Some(timeout) => RunStep::Validate {
                    conn: conn.conn,
                    birth: conn.birth,
                    timeout,
                    deadline,
                },
                None => RunStep::Lock(Request::TooLate { conn: conn.conn, birth: conn.birth }),
            }
        } else {
            RunStep::Use { conn: conn.conn, birth: conn.birth }
        }
    }

    /// How a run goes on after a test: a connection that passed it is used, one
    /// that failed is closed, and one whose test was not over in time is lost.
    pub open spec fn after_test(
        birth: Instant,
        deadline: Deadline,
        verdict: Option<Result<C, C>>,
    ) -> RunStep<C, T, E> {
        match verdict {
            Some(Ok(conn)) => RunStep::Use { conn, birth },
            Some(Err(conn)) => RunStep::Lock(Request::Discard { conn, deadline }),
            None => RunStep::Lock(Request::Lost),
        }
    }

    /// How a run goes on after waiting for a connection: it is over if none came.
    pub open spec fn after_wait(
        settings: Settings,
        deadline: Deadline,
        now: Instant,
        conn: Option<Conn<C>>,
    ) -> RunStep<C, T, E> {
        match conn {
            Some(conn) => RunStep::provide(settings, conn, deadline, now),
            None => RunStep::timed_out(),
        }
    }

    /// How a run goes on after connections have been replenished.
    pub open spec fn after_replenish(then: AfterReplenish<T, E>) -> RunStep<C, T, E> {
        match then {
            AfterReplenish::CheckOut { deadline } => RunStep::Lock(Request::CheckOut { deadline }),
            AfterReplenish::Finish(result) => RunStep::Done(concluded(result)),
        }
    }

    /// All that is left to do for the run is to end with `end`.
    pub open spec fn ends_with(self, end: Result<T, RunError<E>>) -> bool {
        match self {
            RunStep::Done(outcome) => outcome == end,
            RunStep::Replenish { then, .. } => Self::after_replenish(then) == RunStep::<
                C,
                T,
                E,
            >::Done(end),
            _ => false,
        }
    }

    /// Goes on after a test of a connection opened at `birth`, where the outer
    /// error says that the test was not over in time.
    pub fn validated<F, X>(
        birth: Instant,
        deadline: Deadline,
        timed: Result<Result<C, (F, C)>, X>,
    ) -> (step: RunStep<C, T, E>)
        ensures
            step == Self::after_test(birth, deadline, verdict(timed)),
            step.held() == 1,
            // Only a connection that passed its test is used.
            match timed {
                Ok(Ok(passed)) => step matches RunStep::Use { conn, birth: opened } && conn == passed
                    && opened == birth,
                Ok(Err((_, failed))) => step matches RunStep::Lock(
                    Request::Discard { conn, deadline: due },
                ) && conn == failed && due == deadline,
                Err(_) => step matches RunStep::Lock(Request::Lost),
            },
    {
        match timed {
            Ok(Ok(conn)) => RunStep::Use { conn, birth },
            Ok(Err((_, conn))) => RunStep::Lock(Request::Discard { conn, deadline }),
            Err(_) => RunStep::Lock(Request::Lost),
        }
    }

    /// Goes on after connections have been replenished.
    pub fn replenished(then: AfterReplenish<T, E>) -> (step: RunStep<C, T, E>)
        ensures
            step == Self::after_replenish(then),
            step.held() == 0,
            match then {
                AfterReplenish::CheckOut { deadline } => step matches RunStep::Lock(
                    Request::CheckOut { deadline: due },
                ) && due == deadline,
                AfterReplenish::Finish(Ok(t)) => step == RunStep::<C, T, E>::Done(Ok(t)),
                AfterReplenish::Finish(Err(e)) => step == RunStep::<C, T, E>::Done(
                    Err(RunError::User(e)),
                ),
            },
    {
        match then {
            AfterReplenish::CheckOut { deadline } => RunStep::Lock(Request::CheckOut { deadline }),
            AfterReplenish::Finish(result) => RunStep::Done(conclude(result)),
        }
    }
}

/// What a run ends with after the user code gave `result`.
fn conclude<T, E>(result: Result<T, E>) -> (end: Result<T, RunError<E>>)
    ensures
        end == concluded(result),
        match result {
            Ok(t) => end == Ok::<T, RunError<E>>(t),
            Err(e) => end == Err::<T, RunError<E>>(RunError::User(e)),
        },
{
    match result {
        Ok(t) => Ok(t),
        Err(e) => Err(RunError::User(e)),
    }
}

impl<C, T, E> Turn<C, T, E> {
    /// This is what comes of `request` at `now`, with `before` becoming `after`.
    pub open spec fn answers(
        self,
        settings: Settings,
        request: Request<C, T, E>,
        now: Instant,
        before: Holdings<C>,
        after: Holdings<C>,
    ) -> bool {
        match request {
            Request::CheckOut { deadline } => {
                &&& self.closed is None
                &&& if deadline.time_left(now) is None {
                    &&& after == before
                    &&& self.spawn is Nothing
                    &&& self.step == RunStep::<C, T, E>::timed_out()
                } else if before.idle.len() == 0 {
                    &&& after == before
                    &&& self.spawn is Nothing
                    &&& self.step == RunStep::<C, T, E>::Lock(Request::Enqueue { deadline })
                } else {
                    &&& after == before.take_idle()
                    &&& self.spawn == if before.has_room(settings) {
                        Spawn::Replenish
                    } else {
                        Spawn::Nothing
                    }
                    &&& self.step == RunStep::<C, T, E>::provide(
                        settings,
                        before.idle[0].conn,
                        deadline,
                        now,
                    )
                }
            },
            Request::Discard { conn, deadline } => {
                &&& after == before.close(1)
                &&& self.closed == Some(conn)
                &&& match deadline.time_left(now) {
                    Some(timeout) => {
                        &&& self.spawn is Nothing
                        &&& self.step matches RunStep::Replenish { count, limit, then }
                        &&& count == after.shortfall(settings)
                        &&& limit == Some(timeout)
                        &&& then == AfterReplenish::<T, E>::CheckOut { deadline }
                    },
                    None => {
                        &&& self.spawn == after.replacement(settings)
                        &&& self.step == RunStep::<C, T, E>::timed_out()
                    },
                }
            },
            Request::Lost => {
                &&& after == before.close(1)
                &&& self.closed is None
                &&& self.spawn == after.replacement(settings)
                &&& self.step == RunStep::<C, T, E>::timed_out()
            },
            Request::Enqueue { deadline } => {
                &&& self.closed is None
                &&& match deadline.time_left(now) {
                    Some(left) => {
                        &&& self.spawn == if before.has_room(settings) {
                            Spawn::AddConnection
                        } else {
                            Spawn::Nothing
                        }
                        &&& self.step matches RunStep::Wait { receiver, timeout, deadline: due }
                        &&& timeout == left
                        &&& due == deadline
                        &&& before.wait(receiver, after)
                    },
                    None => {
                        &&& after == before
                        &&& self.spawn is Nothing
                        &&& self.step == RunStep::<C, T, E>::timed_out()
                    },
                }
            },
            Request::TooLate { conn, birth } => {
                &&& self.step == RunStep::<C, T, E>::timed_out()
                &&& if run_out(settings.max_lifetime, birth@, now@) {
                    &&& after == before.close(1)
                    &&& self.closed == Some(conn)
                    &&& self.spawn == after.replacement(settings)
                } else {
                    &&& before.put(
                        IdleConn { conn: Conn { conn, birth }, idle_start: now },
                        after,
                    )
                    &&& self.closed is None
                    &&& self.spawn is Nothing
                }
            },
            Request::GiveBack { conn, birth, broken, result } => {
                if broken || run_out(settings.max_lifetime, birth@, now@) {
                    &&& after == before.close(1)
                    &&& self.closed == Some(conn)
                    // A waiter would have had the connection if it had not been too old.
                    &&& self.spawn == if !broken && after.waiters.len() > 0 && after.has_room(
                        settings,
                    ) {
                        Spawn::AddConnection
                    } else {
                        Spawn::Nothing
                    }
                    &&& self.step matches RunStep::Replenish { count, limit, then }
                    &&& count == after.shortfall(settings)
                    &&& limit is None
                    &&& then == AfterReplenish::Finish(result)
                } else {
                    &&& before.put(
                        IdleConn { conn: Conn { conn, birth }, idle_start: now },
                        after,
                    )
                    &&& self.closed is None
                    &&& self.spawn is Nothing
                    &&& self.step == RunStep::<C, T, E>::Done(concluded(result))
                }
            },
        }
    }
}

/// What to spawn for connections that were closed, if nobody awaits their replacement.
fn replacement<M: ManageConnection>(
    pool: &SharedPool<M>,
    internals: &PoolInternals<M::Connection>,
    shortfall: u32,
) -> (spawn: Spawn)
    requires
        shortfall == internals@.shortfall(pool.settings()),
    ensures
        spawn == internals@.replacement(pool.settings()),
{
    if internals.waiters.len() > 0 && shortfall == 0 {
        Spawn::AddConnection
    } else {
        Spawn::Replenish
    }
}

impl<M: ManageConnection> Pool<M> {
    /// The first step of a run that begins at `now`: asking for an idle connection.
    pub fn start<T, E>(&self, now: Instant) -> (step: RunStep<M::Connection, T, E>)
        ensures
            step matches RunStep::Lock(Request::CheckOut { deadline }) && deadline.begun == now
                && deadline.limit@ == self.shared().settings().connection_timeout && deadline@
                == now@ + self.shared().settings().connection_timeout,
    {
        let limit = self.inner().statics().get_connection_timeout();
        RunStep::Lock(Request::CheckOut { deadline: Deadline { begun: now, limit } })
    }

    fn provide<T, E>(&self, conn: Conn<M::Connection>, deadline: Deadline, now: Instant) -> (step:
        RunStep<M::Connection, T, E>)
        ensures
            step == RunStep::<M::Connection, T, E>::provide(
                self.shared().settings(),
                conn,
                deadline,
                now,
            ),
    {
        let Conn { conn, birth } = conn;
        if self.inner().statics().get_test_on_check_out() {
            match deadline.left(now) {
                Some(timeout) => RunStep::Validate { conn, birth, timeout, deadline },
                None => RunStep::Lock(Request::TooLate { conn, birth }),
            }
        } else {
            RunStep::Use { conn, birth }
        }
    }

    /// Closes a connection, and says how many to open in its place.
    fn close(&self, internals: &mut PoolInternals<M::Connection>, conn: M::Connection) -> (closed: (
        Option<M::Connection>,
        u32,
    ))
        requires
            old(internals)@.within(self.shared().settings()),
            old(internals)@.handed_out() >= 1,
        ensures
            final(internals)@.within(self.shared().settings()),
            final(internals)@ == old(internals)@.close(1),
            closed.0 == Some(conn),
            closed.1 == final(internals)@.shortfall(self.shared().settings()),
    {
        let mut to_drop: Vec<M::Connection> = Vec::new();
        to_drop.push(conn);
        let mut dropped = drop_connections(self.inner(), internals, to_drop);
        (dropped.closed.pop(), dropped.replacements)
    }

    /// Does what a run wants done under the pool's lock, at the time `now`, and
    /// says what comes of it.
    pub fn run<T, E>(
        &self,
        internals: &mut PoolInternals<M::Connection>,
        request: Request<M::Connection, T, E>,
        now: Instant,
    ) -> (turn: Turn<M::Connection, T, E>)
        requires
            old(internals)@.within(self.shared().settings()),
            request.held() <= old(internals)@.handed_out(),
        ensures
            turn.answers(
                self.shared().settings(),
                request,
                now,
                old(internals)@,
                final(internals)@,
            ),
            final(internals)@.within(self.shared().settings()),
            old(internals)@.moves(self.shared().settings(), final(internals)@),
            // What is handed out is what runs have in hand, and what is on its way to a waiter.
            final(internals)@.handed_out() - turn.step.held() == old(internals)@.handed_out()
                - request.held() + if (request is GiveBack || request is TooLate) && old(
                internals,
            )@.passed_on(final(internals)@) {
                1int
            } else {
                0
            },
            // Where connections are tested, none is used right away.
            self.shared().settings().test_on_check_out ==> !(turn.step is Use),
            // There are never more connections than allowed.
            final(internals).num_conns + final(internals).pending_conns
                <= self.shared().settings().max_size,
            final(internals).conns@.len() <= final(internals).num_conns,
            // A run never opens a connection itself.
            final(internals).pending_conns == old(internals).pending_conns,
            // A connection is closed, or lost, at the cost of one.
            old(internals).num_conns - final(internals).num_conns == if turn.closed is Some
                || request is Lost {
                1int
            } else {
                0
            },
            turn.closed is Some ==> final(internals).conns@ == old(internals).conns@,
            turn.closed is Some ==> final(internals).waiters@ == old(internals).waiters@,
            // A connection that has broken is closed, whatever the user code gave.
            request matches Request::GiveBack { conn, broken: true, .. } ==> turn.closed == Some(
                conn,
            ),
            // So is one that has reached its maximum lifetime, and no other that is given back.
            request matches Request::GiveBack { conn, birth, broken: false, .. } ==> if (
            self.shared().settings().max_lifetime matches Some(n) && (n == 0 || birth@ + n
                <= now@)) {
                turn.closed == Some(conn)
            } else {
                turn.closed is None
            },
            // A run that waits comes after everyone who waits already.
            turn.step matches RunStep::Wait { receiver, .. } ==> {
                let place = old(internals).waiters@.len();
                &&& final(internals).waiters@.len() == place + 1
                &&& forall|i: int|
                    0 <= i < place ==> #[trigger] final(internals).waiters@[i] == old(
                        internals,
                    ).waiters@[i]
                &&& paired(final(internals).waiters@[place as int], receiver)
                &&& final(internals).conns@ == old(internals).conns@
            },
            // Whatever becomes of a connection, the run ends with what the user code gave.
            request matches Request::GiveBack { result, .. } ==> turn.step.ends_with(
                concluded(result),
            ),
    {
        match request {
            Request::CheckOut { deadline } => {
                if deadline.left(now).is_none() {
                    return Turn {
                        spawn: Spawn::Nothing,
                        step: RunStep::Done(Err(RunError::TimedOut)),
                        closed: None,
                    };
                }
                match get_idle_connection(self.inner(), internals) {
                    CheckOut::Idle { conn, spawn } => {
                        Turn { spawn, step: self.provide(conn, deadline, now), closed: None }
                    },
                    CheckOut::Empty => Turn {
                        spawn: Spawn::Nothing,
                        step: RunStep::Lock(Request::Enqueue { deadline }),
                        closed: None,
                    },
                }
            },
            Request::Discard { conn, deadline } => {
                let (closed, count) = self.close(internals, conn);
                match deadline.left(now) {
                    Some(timeout) => {
                        let then = AfterReplenish::CheckOut { deadline };
                        let limit = Some(timeout);
                        Turn {
                            spawn: Spawn::Nothing,
                            step: RunStep::Replenish { count, limit, then },
                            closed,
                        }
                    },
                    None => {
                        let spawn = replacement(self.inner(), internals, count);
                        Turn { spawn, step: RunStep::Done(Err(RunError::TimedOut)), closed }
                    },
                }
            },
            Request::Lost => {
                internals.num_conns = internals.num_conns - 1;
                assert(internals@ == old(internals)@.close(1));
                let count: u32 = Pool::replenish_idle_connections_locked(self.inner(), internals);
                let spawn = replacement(self.inner(), internals, count);
                Turn { spawn, step: RunStep::Done(Err(RunError::TimedOut)), closed: None }
            },
            Request::Enqueue { deadline } => {
                let max_size: u32 = self.inner().statics().get_max_size();
                match deadline.left(now) {
                    Some(timeout) => {
                        let (sender, receiver) = oneshot::channel();
                        internals.waiters.push_back(sender);
                        assert(paired(sender, receiver));
                        assert(internals@ == old(internals)@.enqueue(sender));
                        let spawn = if internals.num_conns + internals.pending_conns < max_size {
                            Spawn::AddConnection
                        } else {
                            Spawn::Nothing
                        };
                        Turn {
                            spawn,
                            step: RunStep::Wait { receiver, timeout, deadline },
                            closed: None,
                        }
                    },
                    None => Turn {
                        spawn: Spawn::Nothing,
                        step: RunStep::Done(Err(RunError::TimedOut)),
                        closed: None,
                    },
                }
            },
            Request::TooLate { conn, birth } => {
                let step = RunStep::Done(Err(RunError::TimedOut));
                if limit_reached(self.inner().statics().get_max_lifetime(), birth, now) {
                    let (closed, count) = self.close(internals, conn);
                    let spawn = replacement(self.inner(), internals, count);
                    Turn { spawn, step, closed }
                } else {
                    internals.put_idle_conn(IdleConn::make_idle(Conn { conn, birth }, now));
                    Turn { spawn: Spawn::Nothing, step, closed: None }
                }
            },
            Request::GiveBack { conn, birth, broken, result } => {
                let max_size: u32 = self.inner().statics().get_max_size();
                if broken || limit_reached(
                    self.inner().statics().get_max_lifetime(),
                    birth,
                    now,
                ) {
                    let (closed, count) = self.close(internals, conn);
                    let spawn = if !broken && internals.waiters.len() > 0 && internals.num_conns
                        + internals.pending_conns < max_size {
                        Spawn::AddConnection
                    } else {
                        Spawn::Nothing
                    };
                    let then = AfterReplenish::Finish(result);
                    Turn { spawn, step: RunStep::Replenish { count, limit: None, then }, closed }
                } else {
                    internals.put_idle_conn(IdleConn::make_idle(Conn { conn, birth }, now));
                    Turn {
                        spawn: Spawn::Nothing,
                        step: RunStep::Done(conclude(result)),
                        closed: None,
                    }
                }
            },
        }
    }

    /// Goes on, at `now`, after waiting for a connection. The run is over if none
    /// came.
    pub fn received<T, E, X>(
        &self,
        deadline: Deadline,
        now: Instant,
        outcome: Result<Option<Conn<M::Connection>>, X>,
    ) -> (step: RunStep<M::Connection, T, E>)
        ensures
            step == RunStep::<M::Connection, T, E>::after_wait(
                self.shared().settings(),
                deadline,
                now,
                arrived(outcome),
            ),
            match outcome {
                Ok(Some(came)) => if !self.shared().settings().test_on_check_out {
                    step == (RunStep::<M::Connection, T, E>::Use {
                        conn: came.conn,
                        birth: came.birth,
                    })
                } else if deadline.limit@ == 0 || now@ >= deadline.begun@ + deadline.limit@ {
                    step == RunStep::<M::Connection, T, E>::Lock(
                        Request::TooLate { conn: came.conn, birth: came.birth },
                    )
                } else {
                    &&& step matches RunStep::Validate { conn, birth, timeout, deadline: due }
                    &&& conn == came.conn
                    &&& birth == came.birth
                    &&& due == deadline
                    &&& 0 < timeout@ && now@ + timeout@ <= deadline.begun@ + deadline.limit@
                    &&& now@ >= deadline.begun@ ==> now@ + timeout@ == deadline.begun@
                        + deadline.limit@
                    &&& now@ < deadline.begun@ ==> timeout == deadline.limit
                },
                _ => step == RunStep::<M::Connection, T, E>::Done(Err(RunError::TimedOut)),
            },
    {
        match outcome {
            Ok(Some(conn)) => self.provide(conn, deadline, now),
            _ => RunStep::Done(Err(RunError::TimedOut)),
        }
    }

    /// Goes on after the user has used a connection that was opened at `birth`:
    /// the manager is asked whether the connection has broken, and the pool then
    /// takes back what it left of it.
    pub fn used<T, E>(
        &self,
        birth: Instant,
        outcome: Result<(T, M::Connection), (E, M::Connection)>,
    ) -> (step: RunStep<M::Connection, T, E>)
        ensures
            step matches RunStep::Lock(Request::GiveBack { conn, birth: opened, broken, result })
                && opened == birth && result == (match outcome {
                Ok((t, _)) => Ok::<T, E>(t),
                Err((e, _)) => Err::<T, E>(e),
            }) && exists|asked: &mut M::Connection|
                call_ensures(M::has_broken, (&self.shared().manager_spec(), asked), broken)
                    && *asked == (match outcome {
                    Ok((_, used)) => used,
                    Err((_, used)) => used,
                }) && *final(asked) == conn,
    {
        let (result, mut conn) = match outcome {
            Ok((t, conn)) => (Ok(t), conn),
            Err((e, conn)) => (Err(e), conn),
        };
        let broken = self.inner().manager().has_broken(&mut conn);
        RunStep::Lock(Request::GiveBack { conn, birth, broken, result })
    }
}

} // verus!
