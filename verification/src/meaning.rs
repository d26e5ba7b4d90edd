//! What each operation of a pool does, said of its inputs and results alone.
//!
//! The contracts of the pool's functions speak through named steps and named
//! holdings. The laws here say what those names come to, in counts, in sequences
//! and in points of time.
use crate::builder::{count, span, Settings};
use crate::channel::{accepted, paired, refused};
use crate::conn::{Conn, IdleConn};
use crate::error::{told, ErrorSink, RunError, Sink};
use crate::internals::{
    connections, cull, culled, excess, lemma_filter_first, run_out, shed, spared, stale, young,
    Holdings, PoolInternals,
};
use crate::laws::{
    law_idle_timeout_spares_min_idle, law_no_limits_no_reaping, law_reaping_loses_nothing,
    lemma_shed_len,
};
use crate::manage::ManageConnection;
use crate::pool::Built;
use crate::run::{verdict, AfterReplenish, Request, RunStep, Spawn, Turn};
use crate::time::{elapsed, Deadline, Duration, Instant, NANOS_PER_SEC};
use futures::channel::oneshot;
use vstd::prelude::*;

verus! {

/// Spans and points of time are counted in nanoseconds.
pub proof fn law_times_are_in_nanoseconds(d: Duration, t: Instant, deadline: Deadline)
    ensures
        NANOS_PER_SEC == 1_000_000_000,
        d@ == d.nanos,
        t@ == t.since_origin.nanos,
        deadline@ == deadline.begun.since_origin.nanos + deadline.limit.nanos,
{
}

/// The time elapsed, added to the earlier point, gives the later one. No time has
/// elapsed since a point that is yet to come.
pub proof fn law_elapsed(earlier: nat, later: nat)
    ensures
        earlier <= later ==> earlier + elapsed(earlier, later) == later,
        later <= earlier ==> elapsed(earlier, later) == 0,
{
}

/// A limit has run out once that much time has passed, and never if there is none.
pub proof fn law_limit_runs_out(limit: Option<nat>, since: nat, now: nat)
    ensures
        run_out(limit, since, now) <==> (limit matches Some(n) && (n == 0 || since + n <= now)),
{
}

/// What is left of the time until a deadline, added to the time that is now, gives
/// the deadline. Nothing is left exactly from the deadline on.
pub proof fn law_time_left(deadline: Deadline, now: Instant)
    ensures
        deadline.time_left(now) is None <==> (deadline.limit@ == 0 || now@ >= deadline.begun@
            + deadline.limit@),
        deadline.time_left(now) matches Some(left) ==> {
            &&& now@ >= deadline.begun@ ==> now@ + left@ == deadline.begun@ + deadline.limit@
            &&& now@ < deadline.begun@ ==> left == deadline.limit
        },
{
}

/// What the settings ask for: no limit of zero; as many idle connections as
/// `min_idle` says, or none; reaping exactly if there is a limit of age; and what
/// a pool can be built with.
pub proof fn law_settings(settings: Settings)
    ensures
        settings.wf() <==> settings.max_size > 0 && settings.max_lifetime != Some(0nat)
            && settings.idle_timeout != Some(0nat) && settings.connection_timeout > 0,
        settings.min_idle matches Some(n) ==> settings.desired_idle() == n,
        settings.min_idle is None ==> settings.desired_idle() == 0,
        settings.reaps() <==> settings.max_lifetime is Some || settings.idle_timeout is Some,
        settings.buildable() <==> {
            &&& settings.min_idle matches Some(n) ==> n <= settings.max_size
            &&& settings.max_lifetime is Some || settings.idle_timeout is Some
                ==> settings.reaper_rate > 0
        },
{
}

/// A builder that nothing was said to allows ten connections, asks for none to be
/// idle, tests them, lets them live for half an hour and be idle for ten minutes,
/// waits half a minute for one, and reaps every half minute.
pub proof fn law_defaults()
    ensures
        Settings::defaults().max_size == 10,
        Settings::defaults().min_idle is None,
        Settings::defaults().test_on_check_out,
        Settings::defaults().max_lifetime == Some(1_800_000_000_000nat),
        Settings::defaults().idle_timeout == Some(600_000_000_000nat),
        Settings::defaults().connection_timeout == 30_000_000_000,
        Settings::defaults().reaper_rate == 30_000_000_000,
{
}

/// A span or a count that is there counts for what it is.
pub proof fn law_optional_settings(d: Option<Duration>, n: Option<u32>)
    ensures
        d is None <==> span(d) is None,
        d matches Some(d) ==> span(Some(d)) == Some(d.nanos as nat),
        n is None <==> count(n) is None,
        n matches Some(n) ==> count(Some(n)) == Some(n as nat),
{
}

/// To be accepted or refused, a value must have been sent, and to be halves of one
/// channel, two halves must have been made together; to be told, a sink must have
/// been called.
pub proof fn law_calls_are_made<T, E, S: ErrorSink<E> + ?Sized>(
    sender: oneshot::Sender<T>,
    receiver: oneshot::Receiver<T>,
    value: T,
    sink: Sink<S>,
    error: E,
)
    ensures
        accepted(sender, value) ==> exists|sent: Result<(), T>|
            sent is Ok && #[trigger] call_ensures(
                oneshot::Sender::<T>::send,
                (sender, value),
                sent,
            ),
        refused(sender, value) ==> call_ensures(
            oneshot::Sender::<T>::send,
            (sender, value),
            Err(value),
        ),
        paired(sender, receiver) ==> call_ensures(oneshot::channel::<T>, (), (sender, receiver)),
        told(sink, error) ==> call_ensures(S::sink, (&*sink.boxed, error), ()),
{
}

/// What is said of a pool's internals is said of what is in them.
pub proof fn law_internals_are_seen<C>(internals: PoolInternals<C>)
    ensures
        internals@.waiters == internals.waiters@,
        internals@.idle == internals.conns@,
        internals@.num_conns == internals.num_conns,
        internals@.pending_conns == internals.pending_conns,
{
}

/// What the counts of a pool's holdings are.
pub proof fn law_counts<C, T, E>(
    settings: Settings,
    holdings: Holdings<C>,
    request: Request<C, T, E>,
    step: RunStep<C, T, E>,
)
    ensures
        holdings.within(settings) <==> holdings.num_conns + holdings.pending_conns
            <= settings.max_size && holdings.idle.len() <= holdings.num_conns,
        holdings.has_room(settings) <==> holdings.num_conns + holdings.pending_conns
            < settings.max_size,
        holdings.handed_out() == holdings.num_conns - holdings.idle.len(),
        request.held() == (match request {
            Request::CheckOut { .. } => 0int,
            Request::Enqueue { .. } => 0,
            Request::Discard { .. } => 1,
            Request::Lost => 1,
            Request::TooLate { .. } => 1,
            Request::GiveBack { .. } => 1,
        }),
        step is Validate || step is Use ==> step.held() == 1,
        step is Wait || step is Replenish || step is Done ==> step.held() == 0,
        step matches RunStep::Lock(request) ==> step.held() == request.held(),
{
}

/// A pool that was just built has no connection, opens none and has nobody
/// waiting. It is reaped at the rate that was set if connections have a limit of
/// age, and else not.
pub proof fn law_built<M: ManageConnection>(
    built: Built<M>,
    settings: Settings,
    sink: Option<Sink<dyn ErrorSink<M::Error>>>,
    manager: M,
)
    requires
        built.fresh(settings, sink, manager),
    ensures
        built.pool.shared().settings() == settings,
        built.pool.shared().sink() == sink,
        built.pool.shared().manager_spec() == manager,
        built.internals.waiters@.len() == 0,
        built.internals.conns@.len() == 0,
        built.internals.num_conns == 0,
        built.internals.pending_conns == 0,
        settings.max_lifetime is Some || settings.idle_timeout is Some ==> built.reap_every is Some
            && built.reap_every->0@ == settings.reaper_rate,
        settings.max_lifetime is None && settings.idle_timeout is None ==> built.reap_every is None,
{
}

/// A pool that was built without a reaping task never has anything to reap.
pub proof fn law_unreaped_pool_needs_no_reaping<M: ManageConnection>(
    built: Built<M>,
    settings: Settings,
    sink: Option<Sink<dyn ErrorSink<M::Error>>>,
    manager: M,
    holdings: Holdings<M::Connection>,
    now: nat,
)
    requires
        built.fresh(settings, sink, manager),
        built.reap_every is None,
    ensures
        holdings.reap(settings, now) == holdings,
{
    law_no_limits_no_reaping(settings, holdings, now);
}

/// Replenishing opens no more connections than are missing from the desired idle
/// count and no more than there is room for, and opens as many of them as that
/// allows, however many are handed out.
pub proof fn law_replenishing_opens_what_is_missing<C>(settings: Settings, holdings: Holdings<C>)
    requires
        holdings.within(settings),
    ensures
        ({
            let n = holdings.shortfall(settings);
            let desired = match settings.min_idle {
                Some(min_idle) => min_idle,
                None => 0nat,
            };
            &&& n == 0 || holdings.idle.len() + n <= desired
            &&& holdings.num_conns + holdings.pending_conns + n <= settings.max_size
            &&& holdings.idle.len() + n >= desired || holdings.num_conns + holdings.pending_conns
                + n == settings.max_size
        }),
{
}

/// Adding a connection counts it as pending first; once it is open it counts as
/// open instead, and if it fails it counts no more. Nothing else changes.
pub proof fn law_adding_counts<C>(before: Holdings<C>)
    ensures
        before.reserve().pending_conns == before.pending_conns + 1,
        before.reserve().num_conns == before.num_conns,
        before.reserve().idle == before.idle,
        before.reserve().waiters == before.waiters,
        before.pending_conns > 0 ==> {
            &&& before.establish().pending_conns == before.pending_conns - 1
            &&& before.establish().num_conns == before.num_conns + 1
            &&& before.release().pending_conns == before.pending_conns - 1
        },
        before.establish().idle == before.idle,
        before.establish().waiters == before.waiters,
        before.release().num_conns == before.num_conns,
        before.release().idle == before.idle,
        before.release().waiters == before.waiters,
{
}

/// Taking out an idle connection takes the first; closing connections that are
/// not idle only lowers the count; a new waiter comes last.
pub proof fn law_taking_closing_waiting<C>(
    before: Holdings<C>,
    n: nat,
    waiter: oneshot::Sender<Conn<C>>,
)
    ensures
        before.idle.len() > 0 ==> before.idle == seq![before.idle[0]] + before.take_idle().idle,
        before.take_idle().num_conns == before.num_conns,
        before.take_idle().pending_conns == before.pending_conns,
        before.take_idle().waiters == before.waiters,
        n <= before.num_conns ==> before.close(n).num_conns + n == before.num_conns,
        before.close(n).pending_conns == before.pending_conns,
        before.close(n).idle == before.idle,
        before.close(n).waiters == before.waiters,
        before.enqueue(waiter).waiters == before.waiters + seq![waiter],
        before.enqueue(waiter).num_conns == before.num_conns,
        before.enqueue(waiter).pending_conns == before.pending_conns,
        before.enqueue(waiter).idle == before.idle,
{
    if before.idle.len() > 0 {
        assert(before.idle =~= seq![before.idle[0]] + before.take_idle().idle);
    }
    assert(before.enqueue(waiter).waiters =~= before.waiters + seq![waiter]);
}

/// A connection is handed to the first waiter that takes it, after all those
/// before have refused it, and becomes the last idle one only if all have.
pub proof fn law_put<C>(before: Holdings<C>, conn: IdleConn<C>, after: Holdings<C>)
    requires
        before.put(conn, after),
    ensures
        after.num_conns == before.num_conns,
        after.pending_conns == before.pending_conns,
        ({
            ||| {
                &&& after.idle == before.idle + seq![conn]
                &&& after.waiters.len() == 0
                &&& forall|j: int|
                    0 <= j < before.waiters.len() ==> refused(
                        #[trigger] before.waiters[j],
                        conn.conn,
                    )
            }
            ||| exists|k: int|
                #![trigger before.waiters[k]]
                {
                    &&& 0 <= k < before.waiters.len()
                    &&& accepted(before.waiters[k], conn.conn)
                    &&& forall|j: int|
                        0 <= j < k ==> refused(#[trigger] before.waiters[j], conn.conn)
                    &&& before.waiters == before.waiters.take(k + 1) + after.waiters
                    &&& after.idle == before.idle
                }
        }),
{
    let refusals = choose|refusals: int| before.put_after(conn, refusals, after);
    if refusals < before.waiters.len() {
        assert(accepted(before.waiters[refusals], conn.conn));
        assert(before.waiters =~= before.waiters.take(refusals + 1) + after.waiters);
    } else {
        assert(after.idle =~= before.idle + seq![conn]);
    }
}

/// A run whose time is not up is handed the connection that has been idle for
/// longest; if there is none, it goes on to wait. A run whose time is up ends.
pub proof fn law_check_out<C, T, E>(
    settings: Settings,
    deadline: Deadline,
    now: Instant,
    before: Holdings<C>,
    after: Holdings<C>,
    turn: Turn<C, T, E>,
)
    requires
        turn.answers(settings, Request::CheckOut { deadline }, now, before, after),
    ensures
        turn.closed is None,
        after.num_conns == before.num_conns,
        after.pending_conns == before.pending_conns,
        after.waiters == before.waiters,
        ({
            let up = deadline.limit@ == 0 || now@ >= deadline.begun@ + deadline.limit@;
            &&& up ==> after.idle == before.idle && turn.spawn is Nothing && turn.step
                == RunStep::<C, T, E>::Done(Err(RunError::TimedOut))
            &&& !up && before.idle.len() == 0 ==> after.idle == before.idle && turn.spawn is Nothing
                && turn.step == RunStep::<C, T, E>::Lock(Request::Enqueue { deadline })
            &&& !up && before.idle.len() > 0 ==> {
                &&& before.idle == seq![before.idle[0]] + after.idle
                &&& turn.spawn is Replenish <==> before.num_conns + before.pending_conns
                    < settings.max_size
                &&& turn.spawn is Nothing <==> before.num_conns + before.pending_conns
                    >= settings.max_size
                &&& if settings.test_on_check_out {
                    &&& turn.step matches RunStep::Validate { conn, birth, timeout, deadline: due }
                    &&& conn == before.idle[0].conn.conn
                    &&& birth == before.idle[0].conn.birth
                    &&& due == deadline
                    &&& 0 < timeout@ && now@ + timeout@ <= deadline.begun@ + deadline.limit@
                    &&& now@ >= deadline.begun@ ==> now@ + timeout@ == deadline.begun@
                        + deadline.limit@
                    &&& now@ < deadline.begun@ ==> timeout == deadline.limit
                } else {
                    &&& turn.step matches RunStep::Use { conn, birth }
                    &&& conn == before.idle[0].conn.conn
                    &&& birth == before.idle[0].conn.birth
                }
            }
        }),
{
    if before.idle.len() > 0 {
        assert(before.idle =~= seq![before.idle[0]] + before.idle.drop_first());
    }
}

/// After a test, the connection is used exactly if it passed. One that failed is
/// handed in to be closed, and one whose test was not over in time counts as lost.
pub proof fn law_only_what_passed_is_used<C, T, E, F, X>(
    birth: Instant,
    deadline: Deadline,
    timed: Result<Result<C, (F, C)>, X>,
)
    ensures
        ({
            let step = RunStep::<C, T, E>::after_test(birth, deadline, verdict(timed));
            &&& step is Use <==> (timed matches Ok(Ok(_)))
            &&& step matches RunStep::Use { conn, birth: opened } ==> opened == birth && (
            timed matches Ok(Ok(passed)) && passed == conn)
            &&& timed matches Ok(Err((_, failed))) ==> step == RunStep::<C, T, E>::Lock(
                Request::Discard { conn: failed, deadline },
            )
            &&& timed is Err ==> step == RunStep::<C, T, E>::Lock(Request::Lost)
        }),
{
}

/// A connection that failed its test is closed, and only that one. With time left
/// the run opens what is missing, for no longer than that time, and looks again;
/// with none left it ends, and what is missing is opened without it.
pub proof fn law_discard<C, T, E>(
    settings: Settings,
    conn: C,
    deadline: Deadline,
    now: Instant,
    before: Holdings<C>,
    after: Holdings<C>,
    turn: Turn<C, T, E>,
)
    requires
        before.within(settings),
        before.num_conns > before.idle.len(),
        turn.answers(settings, Request::Discard { conn, deadline }, now, before, after),
    ensures
        turn.closed == Some(conn),
        after.num_conns + 1 == before.num_conns,
        after.pending_conns == before.pending_conns,
        after.waiters == before.waiters,
        after.idle == before.idle,
        ({
            let up = deadline.limit@ == 0 || now@ >= deadline.begun@ + deadline.limit@;
            let desired = match settings.min_idle {
                Some(min_idle) => min_idle,
                None => 0nat,
            };
            if up {
                &&& turn.step == RunStep::<C, T, E>::Done(Err(RunError::TimedOut))
                &&& turn.spawn == if after.waiters.len() > 0 && after.idle.len() >= desired {
                    Spawn::AddConnection
                } else {
                    Spawn::Replenish
                }
            } else {
                &&& turn.spawn is Nothing
                &&& turn.step matches RunStep::Replenish { count, limit, then }
                &&& count == 0 || after.idle.len() + count <= desired
                &&& after.num_conns + after.pending_conns + count <= settings.max_size
                &&& after.idle.len() + count >= desired || after.num_conns + after.pending_conns
                    + count == settings.max_size
                &&& limit matches Some(left)
                &&& 0 < left@ && now@ + left@ <= deadline.begun@ + deadline.limit@
                &&& now@ >= deadline.begun@ ==> now@ + left@ == deadline.begun@ + deadline.limit@
                &&& now@ < deadline.begun@ ==> left == deadline.limit
                &&& then == AfterReplenish::<T, E>::CheckOut { deadline }
            }
        }),
{
}

/// A connection lost to a test that was not over in time counts no more, and the
/// run ends as timed out.
pub proof fn law_lost<C, T, E>(
    settings: Settings,
    now: Instant,
    before: Holdings<C>,
    after: Holdings<C>,
    turn: Turn<C, T, E>,
)
    requires
        before.within(settings),
        before.num_conns > before.idle.len(),
        turn.answers(settings, Request::Lost, now, before, after),
    ensures
        turn.closed is None,
        after.num_conns + 1 == before.num_conns,
        after.pending_conns == before.pending_conns,
        after.waiters == before.waiters,
        after.idle == before.idle,
        turn.step == RunStep::<C, T, E>::Done(Err(RunError::TimedOut)),
        turn.spawn == if after.waiters.len() > 0 && after.idle.len() >= (match settings.min_idle {
            Some(min_idle) => min_idle,
            None => 0,
        }) {
            Spawn::AddConnection
        } else {
            Spawn::Replenish
        },
{
}

/// A run that waits takes the last place in line: everyone who waited before keeps
/// their place, and the last waiter is the other half of what the run awaits. A
/// connection is opened for it if there is room. It waits for the time it has left.
pub proof fn law_enqueue<C, T, E>(
    settings: Settings,
    deadline: Deadline,
    now: Instant,
    before: Holdings<C>,
    after: Holdings<C>,
    turn: Turn<C, T, E>,
)
    requires
        turn.answers(settings, Request::Enqueue { deadline }, now, before, after),
    ensures
        turn.closed is None,
        after.num_conns == before.num_conns,
        after.pending_conns == before.pending_conns,
        after.idle == before.idle,
        ({
            let up = deadline.limit@ == 0 || now@ >= deadline.begun@ + deadline.limit@;
            if up {
                &&& after.waiters == before.waiters
                &&& turn.spawn is Nothing
                &&& turn.step == RunStep::<C, T, E>::Done(Err(RunError::TimedOut))
            } else {
                &&& after.waiters.len() == before.waiters.len() + 1
                &&& forall|i: int|
                    0 <= i < before.waiters.len() ==> #[trigger] after.waiters[i]
                        == before.waiters[i]
                &&& turn.step matches RunStep::Wait { receiver, timeout, deadline: due }
                &&& paired(after.waiters[before.waiters.len() as int], receiver)
                &&& due == deadline
                &&& 0 < timeout@ && now@ + timeout@ <= deadline.begun@ + deadline.limit@
                &&& now@ >= deadline.begun@ ==> now@ + timeout@ == deadline.begun@
                    + deadline.limit@
                &&& now@ < deadline.begun@ ==> timeout == deadline.limit
                &&& turn.spawn == if before.num_conns + before.pending_conns < settings.max_size {
                    Spawn::AddConnection
                } else {
                    Spawn::Nothing
                }
            }
        }),
{
}

/// Of two runs that wait, the one that began to wait first is served first: as
/// long as it is there, the other gets no connection that is put in.
pub proof fn law_two_waiters<C, T, E>(
    settings: Settings,
    first_due: Deadline,
    second_due: Deadline,
    first_now: Instant,
    second_now: Instant,
    start: Holdings<C>,
    mid: Holdings<C>,
    full: Holdings<C>,
    first: Turn<C, T, E>,
    second: Turn<C, T, E>,
    conn: IdleConn<C>,
    end: Holdings<C>,
)
    requires
        first.answers(settings, Request::Enqueue { deadline: first_due }, first_now, start, mid),
        second.answers(settings, Request::Enqueue { deadline: second_due }, second_now, mid, full),
        first.step is Wait,
        second.step is Wait,
        full.put(conn, end),
    ensures
        ({
            let place = start.waiters.len() as int;
            &&& first.step matches RunStep::Wait { receiver, .. }
            &&& paired(full.waiters[place], receiver)
            &&& second.step matches RunStep::Wait { receiver: other, .. }
            &&& paired(full.waiters[place + 1], other)
            // The second one's turn comes only if the first one is gone.
            &&& end.waiters.len() == 0 ==> refused(full.waiters[place], conn.conn)
            // While the first one still waits, the second waits behind it.
            &&& end.waiters.len() >= 2 ==> end.waiters[end.waiters.len() - 2]
                == full.waiters[place] && end.waiters[end.waiters.len() - 1]
                == full.waiters[place + 1]
            // If only one is left to wait, it is the second.
            &&& end.waiters.len() == 1 ==> end.waiters[0] == full.waiters[place + 1]
        }),
{
    law_enqueue(settings, first_due, first_now, start, mid, first);
    law_enqueue(settings, second_due, second_now, mid, full, second);
    let place = start.waiters.len() as int;
    assert(full.waiters[place] == mid.waiters[place]);
    let refusals = choose|refusals: int| full.put_after(conn, refusals, end);
    if end.waiters.len() == 0 {
        assert(refusals >= place + 1);
        assert(refused(full.waiters[place], conn.conn));
    }
}

/// A connection that came too late to be tested is put back, unless it has reached
/// its maximum lifetime: then it is closed. The run ends as timed out.
pub proof fn law_too_late<C, T, E>(
    settings: Settings,
    conn: C,
    birth: Instant,
    now: Instant,
    before: Holdings<C>,
    after: Holdings<C>,
    turn: Turn<C, T, E>,
)
    requires
        before.within(settings),
        before.num_conns > before.idle.len(),
        turn.answers(settings, Request::TooLate { conn, birth }, now, before, after),
    ensures
        turn.step == RunStep::<C, T, E>::Done(Err(RunError::TimedOut)),
        after.pending_conns == before.pending_conns,
        ({
            let old = settings.max_lifetime matches Some(n) && (n == 0 || birth@ + n <= now@);
            if old {
                &&& turn.closed == Some(conn)
                &&& after.num_conns + 1 == before.num_conns
                &&& after.idle == before.idle
                &&& after.waiters == before.waiters
                &&& turn.spawn == if after.waiters.len() > 0 && after.idle.len() >= (
                match settings.min_idle {
                    Some(min_idle) => min_idle,
                    None => 0,
                }) {
                    Spawn::AddConnection
                } else {
                    Spawn::Replenish
                }
            } else {
                &&& turn.closed is None
                &&& turn.spawn is Nothing
                &&& after.num_conns == before.num_conns
                &&& before.put(IdleConn { conn: Conn { conn, birth }, idle_start: now }, after)
            }
        }),
{
}

/// A connection that has broken is closed, whatever the user code gave: no waiter
/// and no place among the idle ones ever gets it. The run ends with what the user
/// code gave, once what is missing has been opened.
pub proof fn law_broken_connection_is_closed<C, T, E>(
    settings: Settings,
    conn: C,
    birth: Instant,
    result: Result<T, E>,
    now: Instant,
    before: Holdings<C>,
    after: Holdings<C>,
    turn: Turn<C, T, E>,
)
    requires
        before.within(settings),
        before.num_conns > before.idle.len(),
        turn.answers(
            settings,
            Request::GiveBack { conn, birth, broken: true, result },
            now,
            before,
            after,
        ),
    ensures
        turn.closed == Some(conn),
        turn.spawn is Nothing,
        after.num_conns + 1 == before.num_conns,
        after.pending_conns == before.pending_conns,
        after.idle == before.idle,
        after.waiters == before.waiters,
        ({
            let desired = match settings.min_idle {
                Some(min_idle) => min_idle,
                None => 0nat,
            };
            &&& turn.step matches RunStep::Replenish { count, limit, then }
            &&& count == 0 || after.idle.len() + count <= desired
            &&& after.num_conns + after.pending_conns + count <= settings.max_size
            &&& after.idle.len() + count >= desired || after.num_conns + after.pending_conns + count
                == settings.max_size
            &&& limit is None
            &&& then == AfterReplenish::Finish(result)
        }),
{
}

/// A connection that has not broken is put back, unless it has reached its maximum
/// lifetime: then it is closed, and a connection is opened for whoever waits. The
/// run ends with what the user code gave.
pub proof fn law_sound_connection_is_put_back<C, T, E>(
    settings: Settings,
    conn: C,
    birth: Instant,
    result: Result<T, E>,
    now: Instant,
    before: Holdings<C>,
    after: Holdings<C>,
    turn: Turn<C, T, E>,
)
    requires
        before.within(settings),
        before.num_conns > before.idle.len(),
        turn.answers(
            settings,
            Request::GiveBack { conn, birth, broken: false, result },
            now,
            before,
            after,
        ),
    ensures
        after.pending_conns == before.pending_conns,
        ({
            let old = settings.max_lifetime matches Some(n) && (n == 0 || birth@ + n <= now@);
            let desired = match settings.min_idle {
                Some(min_idle) => min_idle,
                None => 0nat,
            };
            if old {
                &&& turn.closed == Some(conn)
                &&& after.num_conns + 1 == before.num_conns
                &&& after.idle == before.idle
                &&& after.waiters == before.waiters
                &&& turn.spawn is AddConnection <==> before.waiters.len() > 0
                &&& turn.spawn is Nothing <==> before.waiters.len() == 0
                &&& turn.step matches RunStep::Replenish { count, limit, then }
                &&& count == 0 || after.idle.len() + count <= desired
                &&& after.num_conns + after.pending_conns + count <= settings.max_size
                &&& after.idle.len() + count >= desired || after.num_conns + after.pending_conns
                    + count == settings.max_size
                &&& limit is None
                &&& then == AfterReplenish::Finish(result)
            } else {
                &&& turn.closed is None
                &&& turn.spawn is Nothing
                &&& after.num_conns == before.num_conns
                &&& before.put(IdleConn { conn: Conn { conn, birth }, idle_start: now }, after)
                &&& turn.step matches RunStep::Done(end)
                &&& result matches Ok(t) ==> end == Ok::<T, RunError<E>>(t)
                &&& result matches Err(e) ==> end == Err::<T, RunError<E>>(RunError::User(e))
            }
        }),
{
}

/// A reaping goes through the idle connections from the one that has been idle for
/// longest. Up to some point it closes all that have outlived a limit; beyond it,
/// only those that have reached their maximum lifetime. All others are spared. Both
/// stay in order.
pub proof fn law_reaping_in_one_pass<C>(settings: Settings, idle: Seq<IdleConn<C>>, now: nat)
    ensures
        exists|cut: int|
            #![trigger idle.take(cut)]
            0 <= cut <= idle.len() && spared(settings, idle, now) == idle.take(cut).filter(
                |c: IdleConn<C>|
                    !run_out(settings.max_lifetime, c.conn.birth@, now) && !run_out(
                        settings.idle_timeout,
                        c.idle_start@,
                        now,
                    ),
            ) + idle.skip(cut).filter(
                |c: IdleConn<C>| !run_out(settings.max_lifetime, c.conn.birth@, now),
            ) && culled(settings, idle, now) == idle.take(cut).filter(
                |c: IdleConn<C>|
                    run_out(settings.max_lifetime, c.conn.birth@, now) || run_out(
                        settings.idle_timeout,
                        c.idle_start@,
                        now,
                    ),
            ) + idle.skip(cut).filter(
                |c: IdleConn<C>| run_out(settings.max_lifetime, c.conn.birth@, now),
            ),
{
    let is_young = young::<C>(settings, now);
    let is_stale = stale::<C>(settings, now);
    let n = excess(idle.filter(is_young).len(), settings.desired_idle());
    let cut = lemma_one_pass(idle, n, is_young, is_stale);
    assert((|c: IdleConn<C>| is_young(c) && !is_stale(c)) =~= (|c: IdleConn<C>|
        !run_out(settings.max_lifetime, c.conn.birth@, now) && !run_out(
            settings.idle_timeout,
            c.idle_start@,
            now,
        )));
    assert((|c: IdleConn<C>| !is_young(c) || is_stale(c)) =~= (|c: IdleConn<C>|
        run_out(settings.max_lifetime, c.conn.birth@, now) || run_out(
            settings.idle_timeout,
            c.idle_start@,
            now,
        )));
    assert(is_young =~= (|c: IdleConn<C>| !run_out(settings.max_lifetime, c.conn.birth@, now)));
    assert((|c: IdleConn<C>| !is_young(c)) =~= (|c: IdleConn<C>|
        run_out(settings.max_lifetime, c.conn.birth@, now)));
    assert(idle.take(cut).len() == cut);
}

/// Nothing is closed before its time: every connection that a reaping closes has
/// reached its maximum lifetime or has been idle for too long, whatever the idle
/// count that is asked for. And none is closed for its idleness alone if that
/// leaves fewer than asked for.
pub proof fn law_reaping_closes_only_what_outlived<C>(
    settings: Settings,
    idle: Seq<IdleConn<C>>,
    now: nat,
)
    ensures
        forall|i: int|
            0 <= i < culled(settings, idle, now).len() ==> {
                let c = #[trigger] culled(settings, idle, now)[i];
                ||| run_out(settings.max_lifetime, c.conn.birth@, now)
                ||| run_out(settings.idle_timeout, c.idle_start@, now) && (
                settings.min_idle matches Some(min_idle) ==> spared(settings, idle, now).len()
                    >= min_idle)
            },
{
    let is_young = young::<C>(settings, now);
    let is_stale = stale::<C>(settings, now);
    let n = excess(idle.filter(is_young).len(), settings.desired_idle());
    law_idle_timeout_spares_min_idle(settings, idle, now);
    assert forall|i: int| 0 <= i < culled(settings, idle, now).len() implies {
        let c = #[trigger] culled(settings, idle, now)[i];
        ||| run_out(settings.max_lifetime, c.conn.birth@, now)
        ||| run_out(settings.idle_timeout, c.idle_start@, now) && (settings.min_idle matches Some(
            min_idle,
        ) ==> spared(settings, idle, now).len() >= min_idle)
    } by {
        lemma_culled(idle, n, is_young, is_stale, i);
        let c = culled(settings, idle, now)[i];
        assert(!is_young(c) || (is_stale(c) && n > 0));
        if n > 0 {
            lemma_shed_len(idle.filter(is_young), n, is_stale);
        }
    }
}

/// A reaping takes the connections that it closes, and nothing else, off the
/// counts; what it closes are the connections themselves, one for one.
pub proof fn law_reaping_counts<C>(settings: Settings, before: Holdings<C>, now: nat)
    requires
        before.within(settings),
    ensures
        before.reap(settings, now).idle == spared(settings, before.idle, now),
        before.reap(settings, now).num_conns + culled(settings, before.idle, now).len()
            == before.num_conns,
        before.reap(settings, now).pending_conns == before.pending_conns,
        before.reap(settings, now).waiters == before.waiters,
        connections(culled(settings, before.idle, now)).len() == culled(
            settings,
            before.idle,
            now,
        ).len(),
        forall|i: int|
            0 <= i < culled(settings, before.idle, now).len() ==> #[trigger] connections(
                culled(settings, before.idle, now),
            )[i] == culled(settings, before.idle, now)[i].conn.conn,
{
    law_reaping_loses_nothing(settings, before.idle, now);
}

/// Everything that culling takes is not to be kept, or is bad and one too many.
proof fn lemma_culled<A>(
    s: Seq<A>,
    n: nat,
    keep: spec_fn(A) -> bool,
    bad: spec_fn(A) -> bool,
    i: int,
)
    requires
        0 <= i < cull(s, n, keep, bad).len(),
    ensures
        !keep(cull(s, n, keep, bad)[i]) || (bad(cull(s, n, keep, bad)[i]) && n > 0),
    decreases s.len(),
{
    let rest = s.drop_first();
    if !keep(s[0]) {
        if i > 0 {
            lemma_culled(rest, n, keep, bad, i - 1);
        }
    } else if n > 0 && bad(s[0]) {
        if i > 0 {
            lemma_culled(rest, (n - 1) as nat, keep, bad, i - 1);
        }
    } else {
        lemma_culled(rest, n, keep, bad, i);
    }
}

/// Shedding and culling treat all elements up to some point alike, and all beyond
/// it.
proof fn lemma_one_pass<A>(
    s: Seq<A>,
    n: nat,
    keep: spec_fn(A) -> bool,
    bad: spec_fn(A) -> bool,
) -> (cut: int)
    ensures
        0 <= cut <= s.len(),
        shed(s.filter(keep), n, bad) == s.take(cut).filter(|a: A| keep(a) && !bad(a)) + s.skip(
            cut,
        ).filter(keep),
        cull(s, n, keep, bad) == s.take(cut).filter(|a: A| !keep(a) || bad(a)) + s.skip(cut).filter(
            |a: A| !keep(a),
        ),
    decreases s.len(),
{
    let good = |a: A| keep(a) && !bad(a);
    let poor = |a: A| !keep(a) || bad(a);
    let out = |a: A| !keep(a);
    if s.len() == 0 || n == 0 {
        s.take(0).lemma_filter_len(good);
        s.take(0).lemma_filter_len(poor);
        assert(s.take(0).filter(good) =~= Seq::empty());
        assert(s.take(0).filter(poor) =~= Seq::empty());
        assert(s.skip(0) =~= s);
        if s.len() == 0 {
            s.lemma_filter_len(keep);
        }
        lemma_cull_none(s, n, keep, bad);
        assert(shed(s.filter(keep), n, bad) == s.filter(keep));
        assert(Seq::<A>::empty() + s.filter(keep) =~= s.filter(keep));
        assert(Seq::<A>::empty() + s.filter(out) =~= s.filter(out));
        0
    } else {
        let rest = s.drop_first();
        let m = if keep(s[0]) && bad(s[0]) {
            (n - 1) as nat
        } else {
            n
        };
        let c = lemma_one_pass(rest, m, keep, bad);
        let first = s.take(c + 1);
        assert(first.drop_first() =~= rest.take(c));
        assert(first[0] == s[0]);
        assert(s.skip(c + 1) =~= rest.skip(c));
        assert(shed(s.filter(keep), n, bad) =~= first.filter(good) + s.skip(c + 1).filter(keep))
            by {
            lemma_filter_first(s, keep);
            lemma_filter_first(first, good);
            if keep(s[0]) {
                assert(s.filter(keep).drop_first() =~= rest.filter(keep));
            }
        }
        assert(cull(s, n, keep, bad) =~= first.filter(poor) + s.skip(c + 1).filter(out)) by {
            lemma_filter_first(first, poor);
        }
        c + 1
    }
}

/// With nothing that is one too many, culling takes what is not to be kept.
proof fn lemma_cull_none<A>(s: Seq<A>, n: nat, keep: spec_fn(A) -> bool, bad: spec_fn(A) -> bool)
    requires
        s.len() == 0 || n == 0,
    ensures
        cull(s, n, keep, bad) == s.filter(|a: A| !keep(a)),
    decreases s.len(),
{
    let out = |a: A| !keep(a);
    if s.len() == 0 {
        s.lemma_filter_len(out);
        assert(s.filter(out) =~= s);
    } else {
        lemma_cull_none(s.drop_first(), n, keep, bad);
        lemma_filter_first(s, out);
    }
}

} // verus!
