//! The connections a pool holds and the tasks that wait for one.
use crate::builder::{span, Builder, Settings};
use crate::channel::{accepted, paired, refused};
use crate::conn::{Conn, IdleConn};
use crate::laws::law_reaping_ends_lifetimes;
use crate::manage::ManageConnection;
use crate::meaning::law_reaping_closes_only_what_outlived;
use crate::run::Spawn;
use crate::time::{elapsed, Duration, Instant};
use futures::channel::oneshot;
use std::collections::VecDeque;
use vstd::prelude::*;

verus! {

/// Information about the state of a `Pool`.
#[derive(Debug)]
#[non_exhaustive]
pub struct State {
    /// The number of connections currently being managed by the pool.
    pub connections: u32,
    /// The number of idle connections.
    pub idle_connections: u32,
}

/// What a pool holds, as its contracts speak of it.
#[verifier::ext_equal]
#[verifier::reject_recursive_types(C)]
pub struct Holdings<C> {
    /// The tasks that wait for a connection, the longest waiting first.
    pub waiters: Seq<oneshot::Sender<Conn<C>>>,
    /// The idle connections, the longest idle first.
    pub idle: Seq<IdleConn<C>>,
    /// The number of open connections, idle or handed out.
    pub num_conns: nat,
    /// The number of connections that are being opened.
    pub pending_conns: nat,
}

/// Whether the time limit, if there is one, has run out between `since` and `now`.
pub open spec fn run_out(limit: Option<nat>, since: nat, now: nat) -> bool {
    match limit {
        Some(limit) => elapsed(since, now) >= limit,
        None => false,
    }
}

/// The connections that have not reached their maximum lifetime.
pub open spec fn young<C>(settings: Settings, now: nat) -> spec_fn(IdleConn<C>) -> bool {
    |c: IdleConn<C>| !run_out(settings.max_lifetime, c.conn.birth@, now)
}

/// The connections that have been idle for too long.
pub open spec fn stale<C>(settings: Settings, now: nat) -> spec_fn(IdleConn<C>) -> bool {
    |c: IdleConn<C>| run_out(settings.idle_timeout, c.idle_start@, now)
}

/// What is left of `s` without the first `n` elements that are `bad`.
pub open spec fn shed<A>(s: Seq<A>, n: nat, bad: spec_fn(A) -> bool) -> Seq<A>
    decreases s.len(),
{
    if s.len() == 0 || n == 0 {
        s
    } else if bad(s[0]) {
        shed(s.drop_first(), (n - 1) as nat, bad)
    } else {
        seq![s[0]] + shed(s.drop_first(), n, bad)
    }
}

/// The elements of `s`, in their order, that are not to be kept, or are among the
/// first `n` that are to be kept but are `bad`.
pub open spec fn cull<A>(
    s: Seq<A>,
    n: nat,
    keep: spec_fn(A) -> bool,
    bad: spec_fn(A) -> bool,
) -> Seq<A>
    decreases s.len(),
{
    if s.len() == 0 {
        s
    } else if !keep(s[0]) {
        seq![s[0]] + cull(s.drop_first(), n, keep, bad)
    } else if n > 0 && bad(s[0]) {
        seq![s[0]] + cull(s.drop_first(), (n - 1) as nat, keep, bad)
    } else {
        cull(s.drop_first(), n, keep, bad)
    }
}

/// What a reaping at `now` closes of the connections in `idle`, in their order:
/// all that it does not spare.
pub open spec fn culled<C>(settings: Settings, idle: Seq<IdleConn<C>>, now: nat) -> Seq<
    IdleConn<C>,
> {
    cull(
        idle,
        excess(idle.filter(young(settings, now)).len(), settings.desired_idle()),
        young(settings, now),
        stale(settings, now),
    )
}

/// The connections themselves.
pub open spec fn connections<C>(idle: Seq<IdleConn<C>>) -> Seq<C> {
    idle.map_values(|c: IdleConn<C>| c.conn.conn)
}

/// How much larger `a` is than `b`; nothing if it is not.
pub open spec fn excess(a: nat, b: nat) -> nat {
    if a > b {
        (a - b) as nat
    } else {
        0
    }
}

/// What a reaping at `now` leaves of the connections in `idle`: none that has
/// reached its maximum lifetime and, of the others, none in excess of the
/// desired idle count that has been idle for too long.
pub open spec fn spared<C>(settings: Settings, idle: Seq<IdleConn<C>>, now: nat) -> Seq<
    IdleConn<C>,
> {
    let young = idle.filter(young(settings, now));
    shed(young, excess(young.len(), settings.desired_idle()), stale(settings, now))
}

impl<C> Holdings<C> {
    /// No connection, and nobody who waits for one.
    pub open spec fn nothing() -> Holdings<C> {
        Holdings { waiters: Seq::empty(), idle: Seq::empty(), num_conns: 0, pending_conns: 0 }
    }

    /// There are no more connections than allowed, and all the idle ones are counted.
    pub open spec fn within(self, settings: Settings) -> bool {
        &&& self.num_conns + self.pending_conns <= settings.max_size
        &&& self.idle.len() <= self.num_conns
    }

    /// Whether one more connection may be opened.
    pub open spec fn has_room(self, settings: Settings) -> bool {
        self.num_conns + self.pending_conns < settings.max_size
    }

    /// How many connections are handed out.
    pub open spec fn handed_out(self) -> int {
        self.num_conns - self.idle.len()
    }

    /// How many connections must be opened for there to be as many idle ones as
    /// desired, or as many as there is room for.
    pub open spec fn shortfall(self, settings: Settings) -> nat {
        let missing = excess(settings.desired_idle(), self.idle.len());
        let room = excess(settings.max_size, self.num_conns + self.pending_conns);
        if missing <= room {
            missing
        } else {
            room
        }
    }

    /// With one more connection being opened.
    pub open spec fn reserve(self) -> Holdings<C> {
        Holdings { pending_conns: self.pending_conns + 1, ..self }
    }

    /// With one connection less being opened, since opening it failed.
    pub open spec fn release(self) -> Holdings<C> {
        Holdings { pending_conns: (self.pending_conns - 1) as nat, ..self }
    }

    /// With one connection less being opened, since it is open now.
    pub open spec fn establish(self) -> Holdings<C> {
        Holdings {
            pending_conns: (self.pending_conns - 1) as nat,
            num_conns: self.num_conns + 1,
            ..self
        }
    }

    /// Without the connection that has been idle for longest, which is handed out.
    pub open spec fn take_idle(self) -> Holdings<C> {
        Holdings { idle: self.idle.drop_first(), ..self }
    }

    /// With `n` of the connections that are not idle closed.
    pub open spec fn close(self, n: nat) -> Holdings<C> {
        Holdings { num_conns: (self.num_conns - n) as nat, ..self }
    }

    /// With one more task waiting.
    pub open spec fn enqueue(self, waiter: oneshot::Sender<Conn<C>>) -> Holdings<C> {
        Holdings { waiters: self.waiters.push(waiter), ..self }
    }

    /// `after` is what these holdings become when a task waits at `receiver`.
    pub open spec fn wait(
        self,
        receiver: oneshot::Receiver<Conn<C>>,
        after: Holdings<C>,
    ) -> bool {
        exists|waiter: oneshot::Sender<Conn<C>>| #[trigger]
            paired(waiter, receiver) && after == self.enqueue(waiter)
    }

    /// After a reaping at `now`.
    pub open spec fn reap(self, settings: Settings, now: nat) -> Holdings<C> {
        let idle = spared(settings, self.idle, now);
        Holdings { idle, num_conns: (self.num_conns - (self.idle.len() - idle.len())) as nat, ..self }
    }

    /// What to spawn for connections that were closed, if nobody awaits their
    /// replacement: a task that replenishes, or, if there are idle connections
    /// enough and someone waits, one that adds a connection.
    pub open spec fn replacement(self, settings: Settings) -> Spawn {
        if self.waiters.len() > 0 && self.shortfall(settings) == 0 {
            Spawn::AddConnection
        } else {
            Spawn::Replenish
        }
    }

    /// The first `refusals` waiters were offered the connection and were gone.
    /// The next one, if there is one, took it; else it joined the idle ones.
    pub open spec fn put_after(self, conn: IdleConn<C>, refusals: int, after: Holdings<C>) -> bool {
        &&& 0 <= refusals <= self.waiters.len()
        &&& forall|i: int|
            0 <= i < refusals ==> refused(#[trigger] self.waiters[i], conn.conn)
        &&& if refusals < self.waiters.len() {
            &&& accepted(self.waiters[refusals], conn.conn)
            &&& after =~= Holdings { waiters: self.waiters.skip(refusals + 1), ..self }
        } else {
            after =~= Holdings { waiters: Seq::empty(), idle: self.idle.push(conn), ..self }
        }
    }

    /// `after` is what these holdings may become when `conn` is put into them:
    /// it goes to the waiter that has waited longest and is still there, and
    /// only when there is none does it become idle.
    pub open spec fn put(self, conn: IdleConn<C>, after: Holdings<C>) -> bool {
        exists|refusals: int| self.put_after(conn, refusals, after)
    }

    /// No connection was closed or became idle on the way to `after`: the one that
    /// was put in went to a waiter.
    pub open spec fn passed_on(self, after: Holdings<C>) -> bool {
        after.num_conns == self.num_conns && after.idle == self.idle
    }

    /// `after` is what these holdings may become in one go.
    pub open spec fn moves(self, settings: Settings, after: Holdings<C>) -> bool {
        // Nothing happens.
        ||| after == self
        // A connection is being added, fails, or is added.
        ||| self.has_room(settings) && after == self.reserve()
        ||| self.pending_conns > 0 && after == self.release()
        ||| self.pending_conns > 0 && exists|conn: IdleConn<C>| self.establish().put(conn, after)
        // An idle connection is checked out, and closed or put back.
        ||| self.idle.len() > 0 && after == self.take_idle()
        ||| self.handed_out() > 0 && after == self.close(1)
        ||| self.handed_out() > 0 && exists|conn: IdleConn<C>| self.put(conn, after)
        // A task starts to wait.
        ||| exists|waiter: oneshot::Sender<Conn<C>>| after == self.enqueue(waiter)
        // The idle connections are reaped.
        ||| exists|now: nat| after == self.reap(settings, now)
    }
}

/// The pool data that must be protected by a lock.
#[verifier::reject_recursive_types(C)]
pub struct PoolInternals<C> {
    /// The tasks that wait for a connection, the longest waiting first.
    pub waiters: VecDeque<oneshot::Sender<Conn<C>>>,
    /// The idle connections, the longest idle first.
    pub conns: VecDeque<IdleConn<C>>,
    /// The number of open connections, idle or handed out.
    pub num_conns: u32,
    /// The number of connections that are being opened.
    pub pending_conns: u32,
}

impl<C> View for PoolInternals<C> {
    type V = Holdings<C>;

    open spec fn view(&self) -> Holdings<C> {
        Holdings {
            waiters: self.waiters@,
            idle: self.conns@,
            num_conns: self.num_conns as nat,
            pending_conns: self.pending_conns as nat,
        }
    }
}

/// Whether the time limit, if there is one, has run out between `since` and `now`.
pub fn limit_reached(limit: Option<Duration>, since: Instant, now: Instant) -> (reached: bool)
    ensures
        reached == run_out(span(limit), since@, now@),
        reached <==> (limit matches Some(limit) && (limit@ == 0 || since@ + limit@ <= now@)),
{
    match limit {
        Some(limit) => now.duration_since(&since).at_least(&limit),
        None => false,
    }
}

impl<C> PoolInternals<C> {
    /// Whether the connections are no more than allowed, and the idle ones counted.
    pub fn is_within<M: ManageConnection<Connection = C>>(&self, statics: &Builder<M>) -> (b: bool)
        ensures
            b == self@.within(statics@),
            b == (self.num_conns + self.pending_conns <= statics@.max_size && self.conns@.len()
                <= self.num_conns),
    {
        let max_size = statics.get_max_size();
        self.num_conns <= max_size && self.pending_conns <= max_size - self.num_conns
            && self.conns.len() <= self.num_conns as usize
    }

    /// How many connections are handed out.
    pub fn handed_out(&self) -> (n: usize)
        requires
            self@.handed_out() >= 0,
        ensures
            n == self@.handed_out(),
            n + self.conns@.len() == self.num_conns,
    {
        self.num_conns as usize - self.conns.len()
    }

    /// What a pool holds before anything has happened: nothing.
    pub fn new() -> (internals: PoolInternals<C>)
        ensures
            internals@ == Holdings::<C>::nothing(),
            internals.waiters@.len() == 0,
            internals.conns@.len() == 0,
            internals.num_conns == 0,
            internals.pending_conns == 0,
    {
        PoolInternals {
            waiters: VecDeque::new(),
            conns: VecDeque::new(),
            num_conns: 0,
            pending_conns: 0,
        }
    }

    /// What remains to be placed of a connection, idle since `idle_start`, that a
    /// waiter was offered: nothing if it was sent, the whole of it if it came back.
    pub fn after_offer(sent: Result<(), Conn<C>>, idle_start: Instant) -> (rest: Option<IdleConn<C>>)
        ensures
            match sent {
                Ok(_) => rest is None,
                Err(conn) => rest == Some(IdleConn { conn, idle_start }),
            },
    {
        match sent {
            // The connection is no longer idle.
            Ok(_) => None,
            // Oops, that receiver was gone.
            Err(conn) => Some(IdleConn { conn, idle_start }),
        }
    }

    /// Sends a connection back out to a waiter or, if nobody waits, queues it
    /// among the idle ones.
    pub fn put_idle_conn(&mut self, conn: IdleConn<C>)
        ensures
            old(self)@.put(conn, final(self)@),
            final(self).num_conns == old(self).num_conns,
            final(self).pending_conns == old(self).pending_conns,
            // It joins the idle ones at the end, or goes to the first waiter that is there.
            if final(self).conns@.len() > old(self).conns@.len() {
                &&& final(self).conns@ == old(self).conns@ + seq![conn]
                &&& final(self).waiters@.len() == 0
                &&& forall|j: int|
                    0 <= j < old(self).waiters@.len() ==> refused(
                        #[trigger] old(self).waiters@[j],
                        conn.conn,
                    )
            } else {
                let k = old(self).waiters@.len() - final(self).waiters@.len() - 1;
                &&& final(self).conns@ == old(self).conns@
                &&& 0 <= k < old(self).waiters@.len()
                &&& accepted(old(self).waiters@[k], conn.conn)
                &&& forall|j: int|
                    0 <= j < k ==> refused(#[trigger] old(self).waiters@[j], conn.conn)
                &&& final(self).waiters@ == old(self).waiters@.skip(k + 1)
            },
    {
        let ghost start = self@;
        let ghost mut refusals: int = 0;
        let mut rest = conn;
        loop
            invariant
                rest == conn,
                start == old(self)@,
                0 <= refusals <= start.waiters.len(),
                forall|i: int|
                    0 <= i < refusals ==> refused(#[trigger] start.waiters[i], conn.conn),
                self@ =~= (Holdings { waiters: start.waiters.skip(refusals), ..start }),
            decreases self.waiters@.len(),
        {
            match self.waiters.pop_front() {
                Some(waiter) => {
                    assert(waiter == start.waiters[refusals]);
                    let idle_start = rest.idle_start;
                    let sent = waiter.send(rest.conn);
                    match PoolInternals::after_offer(sent, idle_start) {
                        None => {
                            assert(start.put_after(conn, refusals, self@));
                            return;
                        },
                        // Loop and try again.
                        Some(back) => {
                            rest = back;
                            proof {
                                refusals = refusals + 1;
                            }
                        },
                    }
                },
                None => {
                    // Queue it in the idle queue.
                    self.conns.push_back(rest);
                    assert(start.put_after(conn, refusals, self@));
                    return;
                },
            }
        }
    }

    /// Takes out the connections that a reaping at `now` closes.
    pub fn take_reaped<M: ManageConnection<Connection = C>>(
        &mut self,
        statics: &Builder<M>,
        now: Instant,
    ) -> (to_drop: Vec<IdleConn<C>>)
        ensures
            final(self)@ == (Holdings { idle: spared(statics@, old(self)@.idle, now@), ..old(self)@ }),
            to_drop@ == culled(statics@, old(self)@.idle, now@),
            old(self)@.idle.len() == final(self)@.idle.len() + to_drop@.len(),
            // Nothing is taken out before its time.
            forall|i: int|
                0 <= i < to_drop@.len() ==> run_out(
                    statics@.max_lifetime,
                    (#[trigger] to_drop@[i]).conn.birth@,
                    now@,
                ) || run_out(statics@.idle_timeout, to_drop@[i].idle_start@, now@),
            // Nothing that has reached its maximum lifetime is left.
            forall|i: int|
                0 <= i < final(self).conns@.len() && statics@.max_lifetime is Some ==> now@ < (
                #[trigger] final(self).conns@[i]).conn.birth@ + statics@.max_lifetime->0,
            final(self).waiters@ == old(self).waiters@,
            final(self).num_conns == old(self).num_conns,
            final(self).pending_conns == old(self).pending_conns,
    {
        let ghost idle = self@.idle;
        let ghost is_young = young::<C>(statics@, now@);
        let ghost is_stale = stale::<C>(statics@, now@);
        let max_lifetime = statics.get_max_lifetime();
        let idle_timeout = statics.get_idle_timeout();
        let desired: usize = match statics.get_min_idle() {
            Some(min_idle) => min_idle as usize,
            None => 0,
        };
        let mut num_young: usize = 0;
        assert(idle.take(0).filter(is_young).len() == 0) by {
            idle.take(0).lemma_filter_len(is_young);
        }
        for i in 0..self.conns.len()
            invariant
                self@ == old(self)@,
                idle == self.conns@,
                span(max_lifetime) == statics@.max_lifetime,
                is_young == young::<C>(statics@, now@),
                num_young == idle.take(i as int).filter(is_young).len(),
                num_young <= i,
        {
            proof {
                reveal(Seq::filter);
                assert(idle.take(i + 1).drop_last() =~= idle.take(i as int));
                assert(is_young(idle[i as int]) == !run_out(
                    statics@.max_lifetime,
                    idle[i as int].conn.birth@,
                    now@,
                ));
            }
            if !limit_reached(max_lifetime, self.conns[i].conn.birth, now) {
                num_young = num_young + 1;
            }
        }
        let mut surplus: usize = if num_young > desired {
            num_young - desired
        } else {
            0
        };
        let mut to_drop: Vec<IdleConn<C>> = Vec::new();
        let mut queue: VecDeque<IdleConn<C>> = VecDeque::new();
        std::mem::swap(&mut queue, &mut self.conns);
        assert(idle.take(idle.len() as int) =~= idle);
        loop
            invariant
                self@ == (Holdings { idle: self.conns@, ..old(self)@ }),
                span(max_lifetime) == statics@.max_lifetime,
                span(idle_timeout) == statics@.idle_timeout,
                is_young == young::<C>(statics@, now@),
                is_stale == stale::<C>(statics@, now@),
                spared(statics@, idle, now@) =~= self.conns@ + shed(
                    queue@.filter(is_young),
                    surplus as nat,
                    is_stale,
                ),
                culled(statics@, idle, now@) =~= to_drop@ + cull(
                    queue@,
                    surplus as nat,
                    is_young,
                    is_stale,
                ),
                idle.len() == self.conns@.len() + queue@.len() + to_drop@.len(),
            ensures
                queue@.len() == 0,
            decreases queue@.len(),
        {
            let ghost rest = queue@;
            match queue.pop_front() {
                None => {
                    break;
                },
                Some(conn) => {
                    proof {
                        lemma_filter_first(rest, is_young);
                        assert(queue@ =~= rest.drop_first());
                        let left = queue@.filter(is_young);
                        assert((seq![conn] + left).drop_first() =~= left);
                        assert(shed(left, 0, is_stale) == left);
                    }
                    if limit_reached(max_lifetime, conn.conn.birth, now) {
                        to_drop.push(conn);
                    } else if surplus > 0 && limit_reached(idle_timeout, conn.idle_start, now) {
                        surplus = surplus - 1;
                        to_drop.push(conn);
                    } else {
                        self.conns.push_back(conn);
                    }
                },
            }
        }
        proof {
            queue@.lemma_filter_len(is_young);
            law_reaping_closes_only_what_outlived(statics@, idle, now@);
            law_reaping_ends_lifetimes(statics@, idle, now@);
            assert(self.conns@ == spared(statics@, idle, now@));
            assert(to_drop@ == culled(statics@, idle, now@));
            assert forall|i: int| 0 <= i < to_drop@.len() implies run_out(
                statics@.max_lifetime,
                (#[trigger] to_drop@[i]).conn.birth@,
                now@,
            ) || run_out(statics@.idle_timeout, to_drop@[i].idle_start@, now@) by {
                assert(to_drop@[i] == culled(statics@, idle, now@)[i]);
            }
            assert forall|i: int| 0 <= i < self.conns@.len() implies !run_out(
                statics@.max_lifetime,
                (#[trigger] self.conns@[i]).conn.birth@,
                now@,
            ) by {
                assert(self.conns@[i] == spared(statics@, idle, now@)[i]);
            }
        }
        to_drop
    }
}

/// The first element of `s` comes first in `s.filter(p)` too, unless it is left out.
pub(crate) proof fn lemma_filter_first<A>(s: Seq<A>, p: spec_fn(A) -> bool)
    requires
        s.len() > 0,
    ensures
        s.filter(p) == if p(s[0]) {
            seq![s[0]] + s.drop_first().filter(p)
        } else {
            s.drop_first().filter(p)
        },
{
    s.drop_first().lemma_filter_prepend(s[0], p);
    assert(seq![s[0]] + s.drop_first() =~= s);
    assert(Seq::<A>::empty() + s.drop_first().filter(p) =~= s.drop_first().filter(p));
}

} // verus!
