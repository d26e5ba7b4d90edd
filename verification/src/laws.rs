//! What holds of a pool as a whole.
use crate::builder::Settings;
use crate::channel::{accepted, refused};
use crate::conn::{Conn, IdleConn};
use crate::internals::{cull, culled, excess, run_out, shed, spared, stale, young, Holdings};
use crate::pool::in_time;
use crate::run::{arrived, concluded, AfterReplenish, Request, RunStep, Turn};
use crate::time::{Deadline, Instant};
use vstd::prelude::*;

verus! {

/// A history of a pool: it starts with nothing and changes one move at a time.
pub open spec fn history<C>(settings: Settings, states: Seq<Holdings<C>>) -> bool {
    &&& states.len() > 0
    &&& states[0] == Holdings::<C>::nothing()
    &&& forall|i: int|
        0 < i < states.len() ==> states[i - 1].moves(settings, #[trigger] states[i])
}

/// Putting a connection in opens and closes none. It is handed on, so that as
/// many are handed out as before, or it becomes idle.
pub proof fn law_put_counts<C>(before: Holdings<C>, conn: IdleConn<C>, after: Holdings<C>)
    requires
        before.put(conn, after),
    ensures
        after.num_conns == before.num_conns,
        after.pending_conns == before.pending_conns,
        after.handed_out() == before.handed_out() || after.handed_out() == before.handed_out() - 1,
        after.idle == before.idle || after.idle == before.idle.push(conn),
{
}

/// A connection that is put in goes to the first waiter that is still there:
/// everyone who has waited longer is gone, and those behind keep their places.
/// It becomes idle only if every waiter is gone.
pub proof fn law_first_come_first_served<C>(
    before: Holdings<C>,
    conn: IdleConn<C>,
    after: Holdings<C>,
)
    requires
        before.put(conn, after),
    ensures
        after.idle == before.idle ==> exists|k: int|
            #![trigger before.waiters[k]]
            {
                &&& 0 <= k < before.waiters.len()
                &&& accepted(before.waiters[k], conn.conn)
                &&& forall|j: int| 0 <= j < k ==> refused(#[trigger] before.waiters[j], conn.conn)
                &&& after.waiters == before.waiters.skip(k + 1)
            },
        after.idle != before.idle ==> {
            &&& forall|j: int|
                0 <= j < before.waiters.len() ==> refused(
                    #[trigger] before.waiters[j],
                    conn.conn,
                )
            &&& after.waiters.len() == 0
            &&& after.idle == before.idle.push(conn)
        },
{
    let refusals = choose|refusals: int| before.put_after(conn, refusals, after);
    if refusals < before.waiters.len() {
        assert(accepted(before.waiters[refusals], conn.conn));
    } else {
        assert(before.idle.push(conn).len() != before.idle.len());
    }
}

/// In no history does a pool have, or open, more connections than allowed, and
/// the idle connections are never more than there are.
pub proof fn law_capacity<C>(settings: Settings, states: Seq<Holdings<C>>)
    requires
        history(settings, states),
    ensures
        forall|i: int| 0 <= i < states.len() ==> (#[trigger] states[i]).within(settings),
    decreases states.len(),
{
    if states.len() > 1 {
        let earlier = states.drop_last();
        assert forall|i: int| 0 < i < earlier.len() implies earlier[i - 1].moves(
            settings,
            #[trigger] earlier[i],
        ) by {
            assert(states[i - 1].moves(settings, states[i]));
        }
        law_capacity(settings, earlier);
        let before = earlier[states.len() - 2];
        let after = states[states.len() - 1];
        assert(before.within(settings));
        assert(states[states.len() - 2].moves(settings, after));
        lemma_move_keeps_within(settings, before, after);
        assert forall|i: int| 0 <= i < states.len() implies (#[trigger] states[i]).within(
            settings,
        ) by {
            if i < states.len() - 1 {
                assert(earlier[i] == states[i]);
            }
        }
    }
}

/// No move takes a pool beyond its limits.
proof fn lemma_move_keeps_within<C>(settings: Settings, before: Holdings<C>, after: Holdings<C>)
    requires
        before.within(settings),
        before.moves(settings, after),
    ensures
        after.within(settings),
{
    if exists|now: nat| after == before.reap(settings, now) {
        let now = choose|now: nat| after == before.reap(settings, now);
        lemma_spared_len(settings, before.idle, now);
    }
}

/// A reaping leaves no more than there was.
proof fn lemma_spared_len<C>(settings: Settings, idle: Seq<IdleConn<C>>, now: nat)
    ensures
        spared(settings, idle, now).len() <= idle.filter(young(settings, now)).len() <= idle.len(),
{
    let young_ones = idle.filter(young(settings, now));
    idle.lemma_filter_len(young(settings, now));
    lemma_shed_len(
        young_ones,
        excess(young_ones.len(), settings.desired_idle()),
        stale(settings, now),
    );
}

/// Shedding takes out no more than it was told to.
pub(crate) proof fn lemma_shed_len<A>(s: Seq<A>, n: nat, bad: spec_fn(A) -> bool)
    ensures
        shed(s, n, bad).len() <= s.len(),
        shed(s, n, bad).len() + n >= s.len(),
    decreases s.len(),
{
    if s.len() > 0 && n > 0 {
        if bad(s[0]) {
            lemma_shed_len(s.drop_first(), (n - 1) as nat, bad);
        } else {
            lemma_shed_len(s.drop_first(), n, bad);
        }
    }
}

/// A connection that could not be opened leaves the pool as it was.
pub proof fn law_failed_connection_undone<C>(before: Holdings<C>)
    ensures
        before.reserve().release() == before,
{
}

/// A connection that is checked out and put back while nobody waits is the last
/// in line for the next check-out. Everything else is as it was.
pub proof fn law_check_out_and_return<C>(before: Holdings<C>, conn: IdleConn<C>, after: Holdings<C>)
    requires
        before.idle.len() > 0,
        before.waiters.len() == 0,
        before.take_idle().put(conn, after),
    ensures
        after == (Holdings { idle: before.idle.drop_first().push(conn), ..before }),
{
    assert(before.waiters =~= Seq::empty());
}

/// What a pool in which nobody waits holds after adding the connections in
/// `fresh`, one after the other.
pub open spec fn with_added<C>(before: Holdings<C>, fresh: Seq<IdleConn<C>>) -> Holdings<C>
    decreases fresh.len(),
{
    if fresh.len() == 0 {
        before
    } else {
        let open = with_added(before, fresh.drop_last()).reserve().establish();
        Holdings { idle: open.idle.push(fresh.last()), ..open }
    }
}

/// Adding the connections that replenishing asks for stays within the limits at
/// every point, and leaves nothing to ask for: there are as many idle connections
/// as desired, unless the pool is full.
pub proof fn law_replenishing_suffices<C>(
    settings: Settings,
    before: Holdings<C>,
    fresh: Seq<IdleConn<C>>,
)
    requires
        before.within(settings),
        fresh.len() == before.shortfall(settings),
    ensures
        with_added(before, fresh).within(settings),
        with_added(before, fresh).shortfall(settings) == 0,
        with_added(before, fresh).idle.len() >= settings.desired_idle() || !with_added(
            before,
            fresh,
        ).has_room(settings),
        forall|k: int|
            0 <= k < fresh.len() ==> #[trigger] with_added(before, fresh.take(k)).has_room(
                settings,
            ),
{
    lemma_added(before, fresh);
    assert forall|k: int| 0 <= k < fresh.len() implies #[trigger] with_added(
        before,
        fresh.take(k),
    ).has_room(settings) by {
        lemma_added(before, fresh.take(k));
    }
}

/// While nobody waits, adding a connection is what `with_added` says it is.
pub proof fn law_added_while_nobody_waits<C>(
    before: Holdings<C>,
    conn: IdleConn<C>,
    after: Holdings<C>,
)
    requires
        before.waiters.len() == 0,
        before.reserve().establish().put(conn, after),
    ensures
        after == with_added(before, seq![conn]),
{
    reveal_with_fuel(with_added, 2);
    assert(before.waiters =~= Seq::empty());
    assert(seq![conn].drop_last() =~= Seq::empty());
}

proof fn lemma_added<C>(before: Holdings<C>, fresh: Seq<IdleConn<C>>)
    ensures
        with_added(before, fresh) == (Holdings {
            idle: before.idle + fresh,
            num_conns: before.num_conns + fresh.len(),
            ..before
        }),
    decreases fresh.len(),
{
    if fresh.len() > 0 {
        lemma_added(before, fresh.drop_last());
        assert((before.idle + fresh.drop_last()).push(fresh.last()) =~= before.idle + fresh);
    } else {
        assert(before.idle + fresh =~= before.idle);
    }
}

/// A reaping leaves no connection that has reached its maximum lifetime.
pub proof fn law_reaping_ends_lifetimes<C>(settings: Settings, idle: Seq<IdleConn<C>>, now: nat)
    ensures
        forall|i: int|
            0 <= i < spared(settings, idle, now).len() ==> !run_out(
                settings.max_lifetime,
                (#[trigger] spared(settings, idle, now)[i]).conn.birth@,
                now,
            ),
{
    let is_young = young::<C>(settings, now);
    let young_ones = idle.filter(is_young);
    let n = excess(young_ones.len(), settings.desired_idle());
    assert forall|i: int| 0 <= i < spared(settings, idle, now).len() implies !run_out(
        settings.max_lifetime,
        (#[trigger] spared(settings, idle, now)[i]).conn.birth@,
        now,
    ) by {
        lemma_shed_in_order(young_ones, n, stale(settings, now), i, i);
        let j = choose|j: int|
            0 <= j < young_ones.len() && #[trigger] young_ones[j] == spared(
                settings,
                idle,
                now,
            )[i];
        idle.lemma_filter_pred(is_young, j);
        assert(is_young(young_ones[j]));
    }
}

/// If a reaping leaves more idle connections than desired, none of them has been
/// idle for too long.
pub proof fn law_reaping_ends_idleness_in_excess<C>(
    settings: Settings,
    idle: Seq<IdleConn<C>>,
    now: nat,
)
    requires
        spared(settings, idle, now).len() > settings.desired_idle(),
    ensures
        forall|i: int|
            0 <= i < spared(settings, idle, now).len() ==> !run_out(
                settings.idle_timeout,
                (#[trigger] spared(settings, idle, now)[i]).idle_start@,
                now,
            ),
{
    let young_ones = idle.filter(young(settings, now));
    let n = excess(young_ones.len(), settings.desired_idle());
    let is_stale = stale::<C>(settings, now);
    lemma_shed_len(young_ones, n, is_stale);
    lemma_shed_all(young_ones, n, is_stale);
    assert forall|i: int| 0 <= i < spared(settings, idle, now).len() implies !run_out(
        settings.idle_timeout,
        (#[trigger] spared(settings, idle, now)[i]).idle_start@,
        now,
    ) by {
        assert(!is_stale(shed(young_ones, n, is_stale)[i]));
    }
}

/// The idle timeout takes no pool below its desired idle count: fewer are left
/// only if no more were young enough.
pub proof fn law_idle_timeout_spares_min_idle<C>(
    settings: Settings,
    idle: Seq<IdleConn<C>>,
    now: nat,
)
    ensures
        spared(settings, idle, now).len() >= settings.desired_idle() || spared(settings, idle, now)
            == idle.filter(young(settings, now)),
{
    let young_ones = idle.filter(young(settings, now));
    lemma_shed_len(
        young_ones,
        excess(young_ones.len(), settings.desired_idle()),
        stale(settings, now),
    );
}

/// Where no idle count is asked for, a reaping leaves exactly the connections
/// that have outlived no limit.
pub proof fn law_reaping_without_min_idle<C>(settings: Settings, idle: Seq<IdleConn<C>>, now: nat)
    requires
        settings.desired_idle() == 0,
    ensures
        spared(settings, idle, now) == idle.filter(
            |c: IdleConn<C>| young(settings, now)(c) && !stale(settings, now)(c),
        ),
{
    let is_young = young::<C>(settings, now);
    let is_stale = stale::<C>(settings, now);
    lemma_shed_everything(idle, is_young, is_stale);
}

/// What a reaping leaves is in the order it was in.
pub proof fn law_reaping_keeps_order<C>(
    settings: Settings,
    idle: Seq<IdleConn<C>>,
    now: nat,
    i: int,
    j: int,
)
    requires
        0 <= i < j < spared(settings, idle, now).len(),
    ensures
        exists|p: int, q: int|
            0 <= p < q < idle.len() && #[trigger] idle[p] == spared(settings, idle, now)[i]
                && #[trigger] idle[q] == spared(settings, idle, now)[j],
{
    let is_young = young::<C>(settings, now);
    let young_ones = idle.filter(is_young);
    let n = excess(young_ones.len(), settings.desired_idle());
    lemma_shed_in_order(young_ones, n, stale(settings, now), i, j);
    let (p, q) = choose|p: int, q: int|
        0 <= p < q < young_ones.len() && #[trigger] young_ones[p] == spared(settings, idle, now)[i]
            && #[trigger] young_ones[q] == spared(settings, idle, now)[j];
    lemma_filter_in_order(idle, is_young, p, q);
}

/// A reaping loses nothing: what it spares and what it closes are together the
/// connections that were idle.
pub proof fn law_reaping_loses_nothing<C>(settings: Settings, idle: Seq<IdleConn<C>>, now: nat)
    ensures
        idle.to_multiset() == spared(settings, idle, now).to_multiset().add(
            culled(settings, idle, now).to_multiset(),
        ),
        idle.len() == spared(settings, idle, now).len() + culled(settings, idle, now).len(),
{
    let is_young = young::<C>(settings, now);
    let n = excess(idle.filter(is_young).len(), settings.desired_idle());
    lemma_shed_and_cull(idle, n, is_young, stale(settings, now));
}

/// What a reaping closes is closed in the order it was in.
pub proof fn law_reaping_closes_in_order<C>(
    settings: Settings,
    idle: Seq<IdleConn<C>>,
    now: nat,
    i: int,
    j: int,
)
    requires
        0 <= i < j < culled(settings, idle, now).len(),
    ensures
        exists|p: int, q: int|
            0 <= p < q < idle.len() && #[trigger] idle[p] == culled(settings, idle, now)[i]
                && #[trigger] idle[q] == culled(settings, idle, now)[j],
{
    let is_young = young::<C>(settings, now);
    let n = excess(idle.filter(is_young).len(), settings.desired_idle());
    lemma_cull_in_order(idle, n, is_young, stale(settings, now), i, j);
}

/// Reaping again at the same time closes nothing more.
pub proof fn law_reaping_is_thorough<C>(settings: Settings, before: Holdings<C>, now: nat)
    requires
        before.within(settings),
    ensures
        before.reap(settings, now).reap(settings, now) == before.reap(settings, now),
{
    let idle = before.idle;
    let left = spared(settings, idle, now);
    let is_young = young::<C>(settings, now);
    let is_stale = stale::<C>(settings, now);
    lemma_spared_len(settings, idle, now);
    law_reaping_ends_lifetimes(settings, idle, now);
    lemma_filter_all(left, is_young);
    if left.len() > settings.desired_idle() {
        law_reaping_ends_idleness_in_excess(settings, idle, now);
        lemma_shed_none(left, excess(left.len(), settings.desired_idle()), is_stale);
    }
}

/// A pool without limits to reap by is not changed by reaping.
pub proof fn law_no_limits_no_reaping<C>(settings: Settings, before: Holdings<C>, now: nat)
    requires
        !settings.reaps(),
    ensures
        before.reap(settings, now) == before,
{
    lemma_filter_all(before.idle, young(settings, now));
    lemma_shed_none(
        before.idle,
        excess(before.idle.len(), settings.desired_idle()),
        stale(settings, now),
    );
}

/// With tests on check-out, a connection that was obtained is tested before it
/// is used, or goes back unused if there is no time left for that; without them
/// it is used as it is.
pub proof fn law_tested_before_use<C, T, E>(
    settings: Settings,
    conn: Conn<C>,
    deadline: Deadline,
    now: Instant,
)
    ensures
        ({
            let step = RunStep::<C, T, E>::provide(settings, conn, deadline, now);
            if !settings.test_on_check_out {
                step == (RunStep::<C, T, E>::Use { conn: conn.conn, birth: conn.birth })
            } else {
                match step {
                    RunStep::Validate { conn: tested, birth, .. } => tested == conn.conn && birth
                        == conn.birth,
                    RunStep::Lock(Request::TooLate { conn: back, birth }) => back == conn.conn
                        && birth == conn.birth && deadline.time_left(now) is None,
                    _ => false,
                }
            }
        }),
{
}

/// A run that waits for a connection ends right away for want of time exactly if
/// no connection came in time.
pub proof fn law_timed_out_without_connection<C, T, E, F, X>(
    settings: Settings,
    deadline: Deadline,
    now: Instant,
    timed: Result<Result<Conn<C>, F>, X>,
)
    ensures
        RunStep::<C, T, E>::after_wait(settings, deadline, now, arrived(in_time(timed)))
            == RunStep::<C, T, E>::timed_out() <==> !(timed matches Ok(Ok(_))),
{
}

/// `next` is what a run does after `step`, taken up at `now`, whatever came of it.
pub open spec fn follows<C, T, E>(
    settings: Settings,
    step: RunStep<C, T, E>,
    now: Instant,
    next: RunStep<C, T, E>,
) -> bool {
    match step {
        RunStep::Lock(request) => exists|
            turn: Turn<C, T, E>,
            before: Holdings<C>,
            after: Holdings<C>,
        | #[trigger]
            turn.answers(settings, request, now, before, after) && turn.step == next,
        RunStep::Validate { birth, deadline, .. } => exists|verdict: Option<Result<C, C>>|
            next == #[trigger] RunStep::<C, T, E>::after_test(birth, deadline, verdict),
        RunStep::Wait { deadline, .. } => exists|conn: Option<Conn<C>>|
            next == #[trigger] RunStep::<C, T, E>::after_wait(settings, deadline, now, conn),
        RunStep::Use { .. } => next matches RunStep::Lock(Request::GiveBack { .. }),
        RunStep::Replenish { then, .. } => next == RunStep::<C, T, E>::after_replenish(then),
        RunStep::Done(_) => false,
    }
}

/// The steps of a run and the times at which it came to them.
pub open spec fn run_history<C, T, E>(
    settings: Settings,
    steps: Seq<RunStep<C, T, E>>,
    times: Seq<Instant>,
) -> bool {
    &&& steps.len() == times.len()
    &&& steps.len() > 0
    &&& steps[0] matches RunStep::Lock(Request::CheckOut { deadline })
    &&& deadline.begun == times[0]
    &&& deadline.limit@ == settings.connection_timeout
    &&& forall|i: int|
        0 < i < steps.len() ==> follows(settings, steps[i - 1], times[i], #[trigger] steps[i])
}

/// If this step, come to at `now`, is one of waiting before a connection is used,
/// then it is over by `due`.
pub open spec fn timely<C, T, E>(step: RunStep<C, T, E>, now: nat, due: nat) -> bool {
    match step {
        RunStep::Validate { timeout, .. } => 0 < timeout@ && now + timeout@ <= due,
        RunStep::Wait { timeout, .. } => 0 < timeout@ && now + timeout@ <= due,
        RunStep::Replenish { limit: Some(timeout), .. } => 0 < timeout@ && now + timeout@ <= due,
        RunStep::Replenish { limit: None, then, .. } => then is Finish,
        _ => true,
    }
}

/// A run has the connection timeout, and no more, to get a connection. Whatever
/// it awaits until then is over within that time of its beginning; and once that
/// time has passed, it ends as timed out the next time it locks the pool, unless
/// it does so to give back a connection that was used.
pub proof fn law_run_keeps_to_its_time<C, T, E>(
    settings: Settings,
    steps: Seq<RunStep<C, T, E>>,
    times: Seq<Instant>,
)
    requires
        run_history(settings, steps, times),
    ensures
        forall|i: int|
            0 <= i < steps.len() ==> timely(
                #[trigger] steps[i],
                times[i]@,
                times[0]@ + settings.connection_timeout,
            ),
        forall|i: int|
            0 < i < steps.len() && times[i]@ >= times[0]@ + settings.connection_timeout && (
            steps[i - 1] matches RunStep::Lock(request) && !(request is GiveBack))
                ==> #[trigger] steps[i] == RunStep::<C, T, E>::timed_out(),
{
    assert forall|i: int| 0 <= i < steps.len() implies bears(
        #[trigger] steps[i],
        times[0],
        settings.connection_timeout,
    ) && timely(steps[i], times[i]@, times[0]@ + settings.connection_timeout) by {
        lemma_run_bears_its_deadline(settings, steps, times, i);
    }
    assert forall|i: int|
        0 < i < steps.len() && times[i]@ >= times[0]@ + settings.connection_timeout && (steps[i - 1]
            matches RunStep::Lock(request) && !(request is GiveBack)) implies #[trigger] steps[i]
        == RunStep::<C, T, E>::timed_out() by {
        assert(follows(settings, steps[i - 1], times[i], steps[i]));
        assert(bears(steps[i - 1], times[0], settings.connection_timeout));
    }
}

/// The deadline of this step, if it has one, is that of a run begun at `begun`.
spec fn bears<C, T, E>(step: RunStep<C, T, E>, begun: Instant, limit: nat) -> bool {
    let deadline = match step {
        RunStep::Lock(Request::CheckOut { deadline }) => Some(deadline),
        RunStep::Lock(Request::Discard { deadline, .. }) => Some(deadline),
        RunStep::Lock(Request::Enqueue { deadline }) => Some(deadline),
        RunStep::Validate { deadline, .. } => Some(deadline),
        RunStep::Wait { deadline, .. } => Some(deadline),
        RunStep::Replenish { then: AfterReplenish::CheckOut { deadline }, .. } => Some(deadline),
        _ => None,
    };
    deadline matches Some(deadline) ==> deadline.begun == begun && deadline.limit@ == limit
}

proof fn lemma_run_bears_its_deadline<C, T, E>(
    settings: Settings,
    steps: Seq<RunStep<C, T, E>>,
    times: Seq<Instant>,
    i: int,
)
    requires
        run_history(settings, steps, times),
        0 <= i < steps.len(),
    ensures
        bears(steps[i], times[0], settings.connection_timeout),
        timely(steps[i], times[i]@, times[0]@ + settings.connection_timeout),
    decreases i,
{
    if i > 0 {
        lemma_run_bears_its_deadline(settings, steps, times, i - 1);
        assert(follows(settings, steps[i - 1], times[i], steps[i]));
    }
}

/// A run uses at most one connection. Once it has used one, it does not time out
/// any more but ends with what the user code gave; and if it has used none, it can
/// only end as timed out.
pub proof fn law_run_uses_one_connection<C, T, E>(
    settings: Settings,
    steps: Seq<RunStep<C, T, E>>,
    times: Seq<Instant>,
)
    requires
        run_history(settings, steps, times),
    ensures
        forall|i: int, j: int|
            0 <= i < j < steps.len() && #[trigger] steps[i] is Use ==> !(#[trigger] steps[j] is Use)
                && steps[j] != RunStep::<C, T, E>::timed_out(),
        forall|i: int, j: int|
            0 <= i < j < steps.len() && #[trigger] steps[i] is Use && #[trigger] steps[j] is Done
                ==> (steps[i + 1] matches RunStep::Lock(Request::GiveBack { result, .. })
                && steps[j] == RunStep::<C, T, E>::Done(concluded(result))),
        forall|j: int|
            0 <= j < steps.len() && #[trigger] steps[j] is Done && (forall|i: int|
                0 <= i < j ==> !(#[trigger] steps[i] is Use)) ==> steps[j] == RunStep::<
                C,
                T,
                E,
            >::timed_out(),
{
    assert forall|i: int, j: int|
        0 <= i < j < steps.len() && #[trigger] steps[i] is Use implies finishing(
        #[trigger] steps[j],
        steps[i + 1],
    ) by {
        lemma_finishing(settings, steps, times, i, j);
    }
    assert forall|j: int|
        0 <= j < steps.len() && #[trigger] steps[j] is Done && (forall|i: int|
            0 <= i < j ==> !(#[trigger] steps[i] is Use)) implies steps[j] == RunStep::<
        C,
        T,
        E,
    >::timed_out() by {
        lemma_searching(settings, steps, times, j);
    }
}

/// This step comes of a run that has used a connection and gave it back by `back`.
spec fn finishing<C, T, E>(step: RunStep<C, T, E>, back: RunStep<C, T, E>) -> bool {
    back matches RunStep::Lock(Request::GiveBack { result: given, .. }) && match step {
        RunStep::Lock(Request::GiveBack { result, .. }) => result == given,
        RunStep::Replenish { then: AfterReplenish::Finish(result), .. } => result == given,
        RunStep::Done(end) => end == concluded(given),
        _ => false,
    }
}

/// This step comes of a run that has not used a connection before.
spec fn searching<C, T, E>(step: RunStep<C, T, E>) -> bool {
    match step {
        RunStep::Lock(request) => !(request is GiveBack),
        RunStep::Replenish { then, .. } => then is CheckOut,
        RunStep::Done(_) => step == RunStep::<C, T, E>::timed_out(),
        _ => true,
    }
}

proof fn lemma_finishing<C, T, E>(
    settings: Settings,
    steps: Seq<RunStep<C, T, E>>,
    times: Seq<Instant>,
    i: int,
    j: int,
)
    requires
        run_history(settings, steps, times),
        0 <= i < j < steps.len(),
        steps[i] is Use,
    ensures
        finishing(steps[j], steps[i + 1]),
    decreases j,
{
    assert(follows(settings, steps[j - 1], times[j], steps[j]));
    if j > i + 1 {
        lemma_finishing(settings, steps, times, i, j - 1);
    }
}

proof fn lemma_searching<C, T, E>(
    settings: Settings,
    steps: Seq<RunStep<C, T, E>>,
    times: Seq<Instant>,
    j: int,
)
    requires
        run_history(settings, steps, times),
        0 <= j < steps.len(),
        forall|i: int| 0 <= i < j ==> !(#[trigger] steps[i] is Use),
    ensures
        searching(steps[j]),
    decreases j,
{
    if j > 0 {
        lemma_searching(settings, steps, times, j - 1);
        assert(!(steps[j - 1] is Use));
        assert(follows(settings, steps[j - 1], times[j], steps[j]));
    }
}

/// What shedding leaves of the elements to keep, and what culling takes, are
/// together all the elements.
proof fn lemma_shed_and_cull<A>(
    s: Seq<A>,
    n: nat,
    keep: spec_fn(A) -> bool,
    bad: spec_fn(A) -> bool,
)
    ensures
        s.to_multiset() =~= shed(s.filter(keep), n, bad).to_multiset().add(
            cull(s, n, keep, bad).to_multiset(),
        ),
        s.len() == shed(s.filter(keep), n, bad).len() + cull(s, n, keep, bad).len(),
    decreases s.len(),
{
    broadcast use vstd::seq_lib::group_to_multiset_ensures;

    if s.len() == 0 {
        s.lemma_filter_len(keep);
        assert(s.filter(keep) =~= s);
        assert(s.to_multiset().len() == 0);
    } else {
        let rest = s.drop_first();
        let m = if keep(s[0]) && n > 0 && bad(s[0]) {
            (n - 1) as nat
        } else {
            n
        };
        lemma_shed_and_cull(rest, m, keep, bad);
        rest.lemma_filter_prepend(s[0], keep);
        assert(seq![s[0]] + rest =~= s);
        assert(Seq::<A>::empty() + rest.filter(keep) =~= rest.filter(keep));
        assert((seq![s[0]] + rest.filter(keep)).drop_first() =~= rest.filter(keep));
        assert(shed(rest.filter(keep), 0, bad) == rest.filter(keep));
        lemma_first_counts(s[0], rest);
        lemma_first_counts(s[0], shed(rest.filter(keep), m, bad));
        lemma_first_counts(s[0], cull(rest, m, keep, bad));
    }
}

/// Putting an element in front adds it to what is there.
proof fn lemma_first_counts<A>(a: A, s: Seq<A>)
    ensures
        (seq![a] + s).to_multiset() =~= s.to_multiset().insert(a),
{
    broadcast use vstd::seq_lib::group_to_multiset_ensures;

    assert(seq![a] + s =~= s.insert(0, a));
}

/// Any two elements that culling takes, or one of them twice over, stand in the
/// sequence in the same order.
proof fn lemma_cull_in_order<A>(
    s: Seq<A>,
    n: nat,
    keep: spec_fn(A) -> bool,
    bad: spec_fn(A) -> bool,
    i: int,
    j: int,
)
    requires
        0 <= i <= j < cull(s, n, keep, bad).len(),
    ensures
        exists|p: int, q: int|
            0 <= p <= q < s.len() && (i < j ==> p < q) && #[trigger] s[p] == cull(s, n, keep, bad)[i]
                && #[trigger] s[q] == cull(s, n, keep, bad)[j],
    decreases s.len(),
{
    let out = cull(s, n, keep, bad);
    let rest = s.drop_first();
    let (skipped, m): (int, nat) = if !keep(s[0]) {
        (1, n)
    } else if n > 0 && bad(s[0]) {
        (1, (n - 1) as nat)
    } else {
        (0, n)
    };
    let out_rest = cull(rest, m, keep, bad);
    if j < skipped {
        assert(s[0] == out[0]);
    } else if i < skipped {
        lemma_cull_in_order(rest, m, keep, bad, j - skipped, j - skipped);
        let (p, q) = choose|p: int, q: int|
            0 <= p <= q < rest.len() && #[trigger] rest[p] == out_rest[j - skipped]
                && #[trigger] rest[q] == out_rest[j - skipped];
        assert(s[0] == out[i] && s[q + 1] == out[j]);
    } else {
        lemma_cull_in_order(rest, m, keep, bad, i - skipped, j - skipped);
        let (p, q) = choose|p: int, q: int|
            0 <= p <= q < rest.len() && (i < j ==> p < q) && #[trigger] rest[p] == out_rest[i
                - skipped] && #[trigger] rest[q] == out_rest[j - skipped];
        assert(s[p + 1] == out[i] && s[q + 1] == out[j]);
    }
}

/// Any two elements that are left by shedding, or one of them twice over, stand
/// in the sequence in the same order.
proof fn lemma_shed_in_order<A>(s: Seq<A>, n: nat, bad: spec_fn(A) -> bool, i: int, j: int)
    requires
        0 <= i <= j < shed(s, n, bad).len(),
    ensures
        exists|p: int, q: int|
            0 <= p <= q < s.len() && (i < j ==> p < q) && #[trigger] s[p] == shed(s, n, bad)[i]
                && #[trigger] s[q] == shed(s, n, bad)[j],
    decreases s.len(),
{
    if s.len() == 0 || n == 0 {
        assert(s[i] == shed(s, n, bad)[i] && s[j] == shed(s, n, bad)[j]);
    } else {
        let rest = s.drop_first();
        let skipped: int = if bad(s[0]) {
            0
        } else {
            1
        };
        let m = if bad(s[0]) {
            (n - 1) as nat
        } else {
            n
        };
        if j < skipped {
            assert(s[0] == shed(s, n, bad)[0]);
        } else if i < skipped {
            lemma_shed_in_order(rest, m, bad, j - skipped, j - skipped);
            let (p, q) = choose|p: int, q: int|
                0 <= p <= q < rest.len() && #[trigger] rest[p] == shed(rest, m, bad)[j - skipped]
                    && #[trigger] rest[q] == shed(rest, m, bad)[j - skipped];
            assert(s[0] == shed(s, n, bad)[i] && s[q + 1] == shed(s, n, bad)[j]);
        } else {
            lemma_shed_in_order(rest, m, bad, i - skipped, j - skipped);
            let (p, q) = choose|p: int, q: int|
                0 <= p <= q < rest.len() && (i < j ==> p < q) && #[trigger] rest[p] == shed(
                    rest,
                    m,
                    bad,
                )[i - skipped] && #[trigger] rest[q] == shed(rest, m, bad)[j - skipped];
            assert(s[p + 1] == shed(s, n, bad)[i] && s[q + 1] == shed(s, n, bad)[j]);
        }
    }
}

/// Any two elements that are left by a filter stand in the sequence in the same
/// order.
proof fn lemma_filter_in_order<A>(s: Seq<A>, keep: spec_fn(A) -> bool, i: int, j: int)
    requires
        0 <= i <= j < s.filter(keep).len(),
    ensures
        exists|p: int, q: int|
            0 <= p <= q < s.len() && (i < j ==> p < q) && #[trigger] s[p] == s.filter(keep)[i]
                && #[trigger] s[q] == s.filter(keep)[j],
    decreases s.len(),
{
    reveal(Seq::filter);
    let rest = s.drop_last();
    let last = s.len() - 1;
    if j < rest.filter(keep).len() {
        lemma_filter_in_order(rest, keep, i, j);
        let (p, q) = choose|p: int, q: int|
            0 <= p <= q < rest.len() && (i < j ==> p < q) && #[trigger] rest[p] == rest.filter(
                keep,
            )[i] && #[trigger] rest[q] == rest.filter(keep)[j];
        assert(s[p] == s.filter(keep)[i] && s[q] == s.filter(keep)[j]);
    } else if i < rest.filter(keep).len() {
        lemma_filter_in_order(rest, keep, i, i);
        let (p, q) = choose|p: int, q: int|
            0 <= p <= q < rest.len() && #[trigger] rest[p] == rest.filter(keep)[i]
                && #[trigger] rest[q] == rest.filter(keep)[i];
        assert(s[p] == s.filter(keep)[i] && s[last] == s.filter(keep)[j]);
    } else {
        assert(s[last] == s.filter(keep)[i]);
    }
}

/// If shedding leaves more than it has to, nothing bad is left.
proof fn lemma_shed_all<A>(s: Seq<A>, n: nat, bad: spec_fn(A) -> bool)
    requires
        n <= s.len(),
        shed(s, n, bad).len() + n > s.len(),
    ensures
        forall|i: int| 0 <= i < shed(s, n, bad).len() ==> !bad(#[trigger] shed(s, n, bad)[i]),
    decreases s.len(),
{
    if s.len() > 0 && n > 0 {
        let rest = s.drop_first();
        if bad(s[0]) {
            lemma_shed_all(rest, (n - 1) as nat, bad);
            assert(shed(s, n, bad) == shed(rest, (n - 1) as nat, bad));
        } else {
            assert(shed(s, n, bad) == seq![s[0]] + shed(rest, n, bad));
            if n <= rest.len() {
                lemma_shed_all(rest, n, bad);
            } else {
                lemma_shed_plenty(rest, n, bad);
            }
            assert forall|i: int| 0 <= i < shed(s, n, bad).len() implies !bad(
                #[trigger] shed(s, n, bad)[i],
            ) by {
                if i > 0 {
                    assert(shed(s, n, bad)[i] == shed(rest, n, bad)[i - 1]);
                }
            }
        }
    }
}

/// Shedding as many as there are, or more, leaves nothing bad.
proof fn lemma_shed_plenty<A>(s: Seq<A>, n: nat, bad: spec_fn(A) -> bool)
    requires
        n >= s.len(),
    ensures
        shed(s, n, bad) == s.filter(|a: A| !bad(a)),
        forall|i: int| 0 <= i < shed(s, n, bad).len() ==> !bad(#[trigger] shed(s, n, bad)[i]),
    decreases s.len(),
{
    let good = |a: A| !bad(a);
    if s.len() > 0 {
        let rest = s.drop_first();
        rest.lemma_filter_prepend(s[0], good);
        assert(seq![s[0]] + rest =~= s);
        if bad(s[0]) {
            lemma_shed_plenty(rest, (n - 1) as nat, bad);
            assert(Seq::<A>::empty() + rest.filter(good) =~= rest.filter(good));
        } else {
            lemma_shed_plenty(rest, n, bad);
            assert forall|i: int| 0 <= i < shed(s, n, bad).len() implies !bad(
                #[trigger] shed(s, n, bad)[i],
            ) by {
                if i > 0 {
                    assert(shed(s, n, bad)[i] == shed(rest, n, bad)[i - 1]);
                }
            }
        }
    } else {
        reveal(Seq::filter);
    }
}

/// Filtering and then shedding all that is bad is filtering once.
proof fn lemma_shed_everything<A>(s: Seq<A>, keep: spec_fn(A) -> bool, bad: spec_fn(A) -> bool)
    ensures
        shed(s.filter(keep), s.filter(keep).len(), bad) == s.filter(|a: A| keep(a) && !bad(a)),
{
    lemma_shed_plenty(s.filter(keep), s.filter(keep).len(), bad);
    let good = |a: A| !bad(a);
    lemma_filter_twice(s, keep, good);
    assert((|a: A| keep(a) && good(a)) =~= (|a: A| keep(a) && !bad(a)));
}

proof fn lemma_filter_twice<A>(s: Seq<A>, p: spec_fn(A) -> bool, q: spec_fn(A) -> bool)
    ensures
        s.filter(p).filter(q) == s.filter(|a: A| p(a) && q(a)),
    decreases s.len(),
{
    reveal(Seq::filter);
    if s.len() > 0 {
        lemma_filter_twice(s.drop_last(), p, q);
        if p(s.last()) {
            assert(s.filter(p).drop_last() =~= s.drop_last().filter(p));
        }
    }
}

/// A filter that everything passes changes nothing.
proof fn lemma_filter_all<A>(s: Seq<A>, keep: spec_fn(A) -> bool)
    requires
        forall|i: int| 0 <= i < s.len() ==> keep(#[trigger] s[i]),
    ensures
        s.filter(keep) == s,
    decreases s.len(),
{
    reveal(Seq::filter);
    if s.len() > 0 {
        lemma_filter_all(s.drop_last(), keep);
        assert(s.drop_last().push(s.last()) =~= s);
    }
}

/// Where nothing is bad, shedding changes nothing.
proof fn lemma_shed_none<A>(s: Seq<A>, n: nat, bad: spec_fn(A) -> bool)
    requires
        forall|i: int| 0 <= i < s.len() ==> !bad(#[trigger] s[i]),
    ensures
        shed(s, n, bad) == s,
    decreases s.len(),
{
    if s.len() > 0 && n > 0 {
        assert(!bad(s[0]));
        lemma_shed_none(s.drop_first(), n, bad);
        assert(seq![s[0]] + s.drop_first() =~= s);
    }
}

} // verus!
