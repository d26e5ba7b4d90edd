use bb8::pool::{
    add_connection, drop_connections, drop_idle_connections, get_idle_connection,
    build_outcome, reap_connections, replenish_outcome, schedule_reaping,
};
use bb8::{
    AddEvent, AddStep, AfterReplenish, Builder, Built, CheckOut, Conn, Deadline, Duration,
    ErrorSink, IdleConn, Instant, ManageConnection, NopErrorSink, Pool, PoolInternals, ReapStep,
    Request, RunError, RunStep, SharedPool, Spawn, Turn,
};
use futures::channel::oneshot;
use futures::executor::block_on;
use std::future::{ready, Ready};
use std::sync::atomic::{AtomicUsize, Ordering};
use std::sync::{Arc, Mutex};

/// A connection that counts how many of its kind were closed.
#[derive(Debug)]
struct Link {
    id: u32,
    closed: Arc<AtomicUsize>,
}

impl Drop for Link {
    fn drop(&mut self) {
        self.closed.fetch_add(1, Ordering::SeqCst);
    }
}

/// A manager whose connections break when their number is odd.
#[derive(Debug)]
struct Manager {
    closed: Arc<AtomicUsize>,
}

impl ManageConnection for Manager {
    type Connection = Link;
    type Error = String;
    type Connecting = Ready<Result<Link, String>>;
    type Validating = Ready<Result<Link, (String, Link)>>;

    fn connect(&self) -> Self::Connecting {
        ready(Ok(Link { id: 77, closed: self.closed.clone() }))
    }

    fn is_valid(&self, conn: Link) -> Self::Validating {
        ready(Ok(conn))
    }

    fn has_broken(&self, conn: &mut Link) -> bool {
        let odd = conn.id % 2 == 1;
        conn.id += 100;
        odd
    }
}

#[derive(Debug)]
struct Log(Arc<Mutex<Vec<String>>>);

impl ErrorSink<String> for Log {
    fn sink(&self, error: String) {
        self.0.lock().unwrap().push(error);
    }
}

type Step = RunStep<Link, u8, String>;

fn at(secs: u64) -> Instant {
    Instant::after_origin(Duration::from_secs(secs))
}

/// The deadline of something begun at `begun` that may take `limit` seconds.
fn due(begun: u64, limit: u64) -> Deadline {
    Deadline { begun: at(begun), limit: Duration::from_secs(limit) }
}

/// A request for an idle connection, far from its deadline.
fn check_out() -> Request<Link, u8, String> {
    Request::CheckOut { deadline: due(0, 1_000_000) }
}

struct Fixture {
    pool: Pool<Manager>,
    internals: PoolInternals<Link>,
    closed: Arc<AtomicUsize>,
}

impl Fixture {
    fn new(builder: Builder<Manager>) -> Fixture {
        let closed = Arc::new(AtomicUsize::new(0));
        let (built, _) = builder.build_unchecked(Manager { closed: closed.clone() });
        let Built { pool, internals, .. } = built;
        Fixture { pool, internals, closed }
    }

    fn link(&self, id: u32) -> Link {
        Link { id, closed: self.closed.clone() }
    }

    /// Adds a connection that opens at once.
    fn add(&mut self, id: u32, now: Instant) {
        let step = add_connection(self.pool.inner(), &mut self.internals, AddEvent::Start, now);
        assert!(matches!(step, AddStep::Connect));
        let link = self.link(id);
        let event = AddEvent::Connected(Ok(link));
        let step = add_connection(self.pool.inner(), &mut self.internals, event, now);
        assert!(matches!(step, AddStep::Done(Ok(()))));
    }

    fn counts(&self) -> (u32, u32) {
        let state = self.pool.state(&self.internals);
        (state.connections, state.idle_connections)
    }

    fn run(&mut self, request: Request<Link, u8, String>, now: Instant) -> (Spawn, Step) {
        let turn = self.turn(request, now);
        (turn.spawn, turn.step)
    }

    fn turn(
        &mut self,
        request: Request<Link, u8, String>,
        now: Instant,
    ) -> Turn<Link, u8, String> {
        self.pool.run(&mut self.internals, request, now)
    }

    /// Reaps, lets go of what was closed, and says how many replacements to open.
    fn reap(&mut self, now: Instant) -> u32 {
        let before = self.closed();
        let dropped = reap_connections(self.pool.inner(), &mut self.internals, now);
        assert_eq!(self.closed(), before);
        let count = dropped.closed.len();
        let replacements = dropped.replacements;
        drop(dropped);
        assert_eq!(self.closed(), before + count);
        replacements
    }

    fn closed(&self) -> usize {
        self.closed.load(Ordering::SeqCst)
    }

    fn idle_ids(&self) -> Vec<u32> {
        self.internals.conns.iter().map(|c| c.conn.conn.id).collect()
    }
}

fn untested() -> Builder<Manager> {
    Builder::new().test_on_check_out(false)
}

#[test]
fn builder_defaults() {
    let builder: Builder<Manager> = Pool::builder();
    assert_eq!(builder.get_max_size(), 10);
    assert_eq!(builder.get_min_idle(), None);
    assert!(builder.get_test_on_check_out());
    assert_eq!(builder.get_max_lifetime(), Some(Duration::from_secs(1800)));
    assert_eq!(builder.get_idle_timeout(), Some(Duration::from_secs(600)));
    assert_eq!(builder.get_connection_timeout(), Duration::from_secs(30));
    assert_eq!(builder.get_reaper_rate(), Duration::from_secs(30));
}

#[test]
fn builder_setters_change_one_setting_each() {
    let builder = Builder::<Manager>::new()
        .max_size(3)
        .min_idle(Some(2))
        .test_on_check_out(false)
        .max_lifetime(None)
        .idle_timeout(Some(Duration::new(1, 5)))
        .connection_timeout(Duration::from_secs(7))
        .reaper_rate(Duration::from_secs(9));
    assert_eq!(builder.get_max_size(), 3);
    assert_eq!(builder.get_min_idle(), Some(2));
    assert!(!builder.get_test_on_check_out());
    assert_eq!(builder.get_max_lifetime(), None);
    assert_eq!(builder.get_idle_timeout().unwrap().as_nanos(), 1_000_000_005);
    assert_eq!(builder.get_connection_timeout().as_nanos(), 7_000_000_000);
    assert_eq!(builder.get_reaper_rate().as_nanos(), 9_000_000_000);
}

#[test]
fn build_asks_for_the_minimum_number_of_connections() {
    let closed = Arc::new(AtomicUsize::new(0));
    let manager = Manager { closed: closed.clone() };
    let limit = Duration::from_secs(8);
    let builder = Builder::new().min_idle(Some(4)).connection_timeout(limit);
    let (built, opening) = builder.build(manager);
    assert_eq!((opening.count, opening.limit), (4, limit));
    assert_eq!(built.reap_every, Some(Duration::from_secs(30)));
    assert_eq!(built.pool.state(&built.internals).connections, 0);
    let manager = Manager { closed };
    let (built, spawn) = Builder::new()
        .max_lifetime(None)
        .idle_timeout(None)
        .build_unchecked(manager);
    assert!(matches!(spawn, Spawn::Replenish));
    assert_eq!(built.reap_every, None);
}

#[test]
fn state_is_printed_with_its_counts() {
    let mut f = Fixture::new(untested());
    f.add(2, at(0));
    let state = f.pool.state(&f.internals);
    assert_eq!(format!("{:?}", state), "State { connections: 1, idle_connections: 1 }");
}

#[test]
fn durations_and_instants() {
    assert_eq!(Duration::new(2, 3).as_nanos(), 2_000_000_003);
    assert!(Duration::from_secs(2).at_least(&Duration::from_secs(2)));
    assert!(!Duration::from_secs(2).at_least(&Duration::new(2, 1)));
    assert_eq!(at(9).duration_since(&at(4)), Duration::from_secs(5));
    assert_eq!(at(4).duration_since(&at(9)), Duration::from_secs(0));
}

#[test]
fn run_error_text_and_source() {
    let user: RunError<u8> = RunError::User(5);
    assert_eq!(user.display(|e| format!("code {}", e)), "code 5");
    assert_eq!(user.source(), Some(&5));
    let late: RunError<u8> = RunError::TimedOut;
    assert_eq!(late.display(|e| format!("code {}", e)), "Timed out in bb8");
    assert_eq!(late.source(), None);
    assert_eq!(late.clone(), RunError::TimedOut);
}

#[test]
fn errors_go_to_the_sink() {
    let lines = Arc::new(Mutex::new(Vec::new()));
    let f = Fixture::new(untested().error_sink(Box::new(Log(lines.clone()))));
    let shared: &SharedPool<Manager> = f.pool.inner();
    assert_eq!(shared.sink_error(Ok(3)), Ok(3));
    assert!(lines.lock().unwrap().is_empty());
    assert_eq!(shared.sink_error::<u8>(Err("lost".to_string())), Err(()));
    assert_eq!(*lines.lock().unwrap(), vec!["lost".to_string()]);
}

#[test]
fn nop_sink_does_nothing() {
    let f = Fixture::new(untested());
    assert_eq!(f.pool.inner().sink_error::<u8>(Err("lost".to_string())), Err(()));
    ErrorSink::<u8>::sink(&NopErrorSink, 1);
    assert_eq!(format!("{:?}", NopErrorSink), "NopErrorSink");
}

#[test]
fn or_timeout_tells_the_three_outcomes_apart() {
    type Shared = SharedPool<Manager>;
    assert_eq!(Shared::or_timeout::<u8, u8, ()>(Ok(Ok(1))), Ok(Some(1)));
    assert_eq!(Shared::or_timeout::<u8, u8, ()>(Ok(Err(2))), Err(2));
    assert_eq!(Shared::or_timeout::<u8, u8, ()>(Err(())), Ok(None));
}

#[test]
fn no_more_than_max_size() {
    let mut f = Fixture::new(untested().max_size(2));
    f.add(2, at(0));
    let step = add_connection(f.pool.inner(), &mut f.internals, AddEvent::Start, at(0));
    assert!(matches!(step, AddStep::Connect));
    let step = add_connection(f.pool.inner(), &mut f.internals, AddEvent::Start, at(0));
    assert!(matches!(step, AddStep::Done(Ok(()))));
    assert_eq!((f.internals.num_conns, f.internals.pending_conns), (1, 1));
    assert!(f.internals.is_within(f.pool.inner().statics()));
}

#[test]
fn failed_connection_is_undone() {
    let mut f = Fixture::new(untested().max_size(1));
    let step = add_connection(f.pool.inner(), &mut f.internals, AddEvent::Start, at(0));
    assert!(matches!(step, AddStep::Connect));
    let event = AddEvent::Connected(Err("refused".to_string()));
    match add_connection(f.pool.inner(), &mut f.internals, event, at(0)) {
        AddStep::Done(Err(e)) => assert_eq!(e, "refused"),
        _ => panic!("the error is passed on"),
    }
    assert_eq!((f.internals.num_conns, f.internals.pending_conns), (0, 0));
    f.add(2, at(1));
    assert_eq!(f.counts(), (1, 1));
}

#[test]
fn idle_connections_are_handed_out_in_turn() {
    let mut f = Fixture::new(untested().max_size(3));
    for id in [2, 4, 6].iter() {
        f.add(*id, at(0));
    }
    let (spawn, step) = f.run(check_out(), at(1));
    assert!(matches!(spawn, Spawn::Nothing));
    let (conn, birth) = match step {
        RunStep::Use { conn, birth } => (conn, birth),
        _ => panic!("an idle connection is used"),
    };
    assert_eq!((conn.id, birth), (2, at(0)));
    assert_eq!(f.counts(), (3, 2));
    assert_eq!(f.internals.handed_out(), 1);
    let request = Request::GiveBack { conn, birth, broken: false, result: Ok(9) };
    let (spawn, step) = f.run(request, at(2));
    assert!(matches!(spawn, Spawn::Nothing));
    assert!(matches!(step, RunStep::Done(Ok(9))));
    assert_eq!(f.idle_ids(), vec![4, 6, 2]);
    assert_eq!(f.internals.conns[2].idle_start, at(2));
    assert_eq!(f.internals.conns[2].conn.birth, at(0));
}

#[test]
fn check_out_replenishes_while_there_is_room() {
    let mut f = Fixture::new(untested().max_size(2));
    f.add(2, at(0));
    match get_idle_connection(f.pool.inner(), &mut f.internals) {
        CheckOut::Idle { conn, spawn: Spawn::Replenish } => assert_eq!(conn.conn.id, 2),
        _ => panic!("replenishing is spawned"),
    }
    assert!(matches!(get_idle_connection(f.pool.inner(), &mut f.internals), CheckOut::Empty));
}

#[test]
fn put_idle_conn_prefers_a_waiter() {
    let mut internals: PoolInternals<u8> = PoolInternals::new();
    let (sender, receiver) = oneshot::channel();
    internals.waiters.push_back(sender);
    internals.put_idle_conn(IdleConn::make_idle(Conn { conn: 1, birth: at(0) }, at(4)));
    internals.put_idle_conn(IdleConn::make_idle(Conn { conn: 2, birth: at(1) }, at(5)));
    assert_eq!(block_on(receiver).unwrap().conn, 1);
    assert_eq!(internals.conns.len(), 1);
    assert_eq!((internals.conns[0].conn.conn, internals.conns[0].idle_start), (2, at(5)));
}

#[test]
fn after_offer_keeps_what_came_back() {
    assert!(PoolInternals::<u8>::after_offer(Ok(()), at(1)).is_none());
    let back = PoolInternals::after_offer(Err(Conn { conn: 3, birth: at(0) }), at(1)).unwrap();
    assert_eq!((back.conn.conn, back.conn.birth, back.idle_start), (3, at(0), at(1)));
}

#[test]
fn user_error_ends_the_run() {
    let mut f = Fixture::new(untested().max_size(1));
    f.add(2, at(0));
    let conn = match f.run(check_out(), at(0)).1 {
        RunStep::Use { conn, .. } => conn,
        _ => panic!("the connection is used"),
    };
    let step: Step = f.pool.used(at(0), Err(("bad query".to_string(), conn)));
    let request = match step {
        RunStep::Lock(request) => request,
        _ => panic!("the connection is given back"),
    };
    match f.run(request, at(1)).1 {
        RunStep::Done(Err(RunError::User(e))) => assert_eq!(e, "bad query"),
        _ => panic!("the error is the user's"),
    }
    assert_eq!(f.idle_ids(), vec![102]);
}

#[test]
fn connection_within_its_lifetime_is_kept_on_return() {
    let mut f = Fixture::new(untested().max_lifetime(Some(Duration::from_secs(10))));
    f.add(2, at(0));
    let conn = match f.run(check_out(), at(1)).1 {
        RunStep::Use { conn, .. } => conn,
        _ => panic!("the connection is used"),
    };
    let request = Request::GiveBack { conn, birth: at(0), broken: false, result: Ok(1) };
    let (_, step) = f.run(request, at(9));
    assert!(matches!(step, RunStep::Done(Ok(1))));
    assert_eq!((f.closed(), f.counts()), (0, (1, 1)));
}

#[test]
fn replenishing_reaches_min_idle() {
    let mut f = Fixture::new(untested().max_size(5).min_idle(Some(3)));
    f.add(2, at(0));
    let wanted = f.pool.replenish_idle_connections(&f.internals);
    assert_eq!(wanted, 2);
    for i in 0..wanted {
        f.add(10 + 2 * i, at(1));
    }
    assert_eq!(f.counts(), (3, 3));
    assert_eq!(f.pool.replenish_idle_connections(&f.internals), 0);
}

#[test]
fn replenishing_respects_max_size() {
    let mut f = Fixture::new(untested().max_size(3).min_idle(Some(3)));
    f.add(2, at(0));
    f.add(4, at(0));
    let _one = f.run(check_out(), at(0));
    let _two = f.run(check_out(), at(0));
    assert_eq!(Pool::replenish_idle_connections_locked(f.pool.inner(), &f.internals), 1);
}

#[test]
fn replenishing_ends_with_the_first_error() {
    assert_eq!(replenish_outcome::<u8>(Some(Ok(()))), None);
    assert_eq!(replenish_outcome::<u8>(Some(Err(4))), Some(Err(4)));
    assert_eq!(replenish_outcome::<u8>(None), Some(Ok(())));
}

#[test]
fn reaping_closes_what_was_idle_too_long() {
    let limit = Some(Duration::from_secs(10));
    let mut f = Fixture::new(untested().max_lifetime(None).idle_timeout(limit));
    f.add(2, at(0));
    f.add(4, at(5));
    f.add(6, at(6));
    assert_eq!(f.reap(at(15)), 0);
    assert_eq!(f.idle_ids(), vec![6]);
    assert_eq!((f.closed(), f.counts()), (2, (1, 1)));
    assert_eq!(f.reap(at(15)), 0);
    assert_eq!(f.counts(), (1, 1));
}

#[test]
fn reaping_for_idleness_spares_min_idle() {
    let limit = Some(Duration::from_secs(10));
    let builder = untested().max_lifetime(None).idle_timeout(limit).min_idle(Some(2));
    let mut f = Fixture::new(builder);
    for id in [2, 4, 6].iter() {
        f.add(*id, at(0));
    }
    assert_eq!(f.reap(at(60)), 0);
    assert_eq!(f.idle_ids(), vec![4, 6]);
}

#[test]
fn reaping_closes_what_lived_too_long() {
    let limit = Some(Duration::from_secs(10));
    let builder = untested().max_lifetime(limit).idle_timeout(None).min_idle(Some(2));
    let mut f = Fixture::new(builder);
    f.add(2, at(0));
    f.add(4, at(1));
    f.add(6, at(2));
    assert_eq!(f.reap(at(11)), 1);
    assert_eq!(f.idle_ids(), vec![6]);
    assert_eq!((f.closed(), f.counts()), (2, (1, 1)));
}

#[test]
fn reaping_without_limits_changes_nothing() {
    let mut f = Fixture::new(untested().max_lifetime(None).idle_timeout(None));
    f.add(2, at(0));
    assert_eq!(f.reap(at(1_000_000)), 0);
    assert_eq!(f.idle_ids(), vec![2]);
}

#[test]
fn dedicated_connection_is_not_managed() {
    let f = Fixture::new(untested());
    let conn = block_on(f.pool.dedicated_connection()).unwrap();
    assert_eq!(conn.id, 77);
    assert_eq!(f.counts(), (0, 0));
}

#[test]
fn manager_is_shared_by_copies_of_the_pool() {
    let f = Fixture::new(untested());
    let copy = f.pool.clone();
    assert!(Arc::ptr_eq(copy.inner(), f.pool.inner()));
    let conn = block_on(copy.inner().manager().is_valid(f.link(6))).unwrap();
    assert_eq!(conn.id, 6);
}

#[test]
fn deadline_tells_the_time_left() {
    let deadline = due(10, 30);
    assert_eq!(deadline.left(at(10)), Some(Duration::from_secs(30)));
    assert_eq!(deadline.left(at(39)), Some(Duration::from_secs(1)));
    assert_eq!(deadline.left(at(40)), None);
    assert_eq!(deadline.left(at(3_600_000)), None);
    assert_eq!(deadline.left(at(5)), Some(Duration::from_secs(30)));
}

#[test]
fn building_ends_in_time() {
    assert_eq!(build_outcome::<_, u8, ()>("pool", Ok(Ok(()))), Ok("pool"));
    assert_eq!(build_outcome::<_, u8, ()>("pool", Ok(Err(3))), Err(3));
    assert_eq!(build_outcome::<_, u8, ()>("pool", Err(())), Ok("pool"));
}

#[test]
fn run_starts_with_the_whole_connection_timeout() {
    let f = Fixture::new(untested().connection_timeout(Duration::from_secs(6)));
    let step: Step = f.pool.start(at(4));
    match step {
        RunStep::Lock(Request::CheckOut { deadline }) => assert_eq!(deadline, due(4, 6)),
        _ => panic!("an idle connection is asked for"),
    }
}

#[test]
fn every_connection_is_tested_before_use() {
    let mut f = Fixture::new(Builder::new().max_size(1));
    f.add(2, at(3));
    let (_, step) = f.run(Request::CheckOut { deadline: due(3, 30) }, at(4));
    let conn = match step {
        RunStep::Validate { conn, birth, timeout, deadline } => {
            assert_eq!((birth, timeout), (at(3), Duration::from_secs(29)));
            assert_eq!(deadline, due(3, 30));
            conn
        }
        _ => panic!("the connection is tested"),
    };
    let step: Step = RunStep::validated::<(), ()>(at(3), due(3, 30), Ok(Ok(conn)));
    assert!(matches!(step, RunStep::Use { conn: Link { id: 2, .. }, .. }));
    let received = Conn { conn: f.link(8), birth: at(1) };
    let step: Step = f.pool.received::<_, _, ()>(due(3, 30), at(9), Ok(Some(received)));
    match step {
        RunStep::Validate { conn: Link { id: 8, .. }, timeout, .. } => {
            assert_eq!(timeout, Duration::from_secs(24));
        }
        _ => panic!("the connection is tested"),
    }
}

#[test]
fn connection_that_fails_its_test_is_closed() {
    let mut f = Fixture::new(Builder::new().max_size(1).min_idle(Some(1)));
    f.add(2, at(0));
    let (_, step) = f.run(Request::CheckOut { deadline: due(0, 30) }, at(0));
    let conn = match step {
        RunStep::Validate { conn, .. } => conn,
        _ => panic!("the connection is tested"),
    };
    let failed = Ok(Err(("dead", conn)));
    let request = match Step::validated::<_, ()>(at(0), due(0, 30), failed) {
        RunStep::Lock(request) => request,
        _ => panic!("the connection is discarded"),
    };
    let turn = f.turn(request, at(10));
    assert_eq!((f.closed(), f.counts()), (0, (0, 0)));
    assert!(matches!(turn.closed, Some(Link { id: 2, .. })));
    assert!(matches!(turn.spawn, Spawn::Nothing));
    match turn.step {
        RunStep::Replenish { count: 1, limit, then } => {
            assert_eq!(limit, Some(Duration::from_secs(20)));
            match Step::replenished(then) {
                RunStep::Lock(Request::CheckOut { deadline }) => assert_eq!(deadline, due(0, 30)),
                _ => panic!("another connection is looked for"),
            }
        }
        _ => panic!("a replacement is opened first"),
    }
    drop(turn.closed);
    assert_eq!(f.closed(), 1);
}

#[test]
fn run_whose_connections_keep_failing_times_out() {
    let mut f = Fixture::new(Builder::new().max_size(1));
    f.add(2, at(0));
    let _held = f.run(check_out(), at(0));
    let request = Request::Discard { conn: f.link(2), deadline: due(0, 30) };
    let turn = f.turn(request, at(3_600_000));
    assert!(matches!(turn.step, RunStep::Done(Err(RunError::TimedOut))));
    assert!(matches!(turn.spawn, Spawn::Replenish));
    assert!(turn.closed.is_some());
    assert_eq!(f.counts(), (0, 0));
    let turn = f.turn(Request::Enqueue { deadline: due(0, 30) }, at(30));
    assert!(matches!(turn.step, RunStep::Done(Err(RunError::TimedOut))));
    assert!(matches!(turn.spawn, Spawn::Nothing));
    assert_eq!(f.internals.waiters.len(), 0);
    f.add(4, at(31));
    let turn = f.turn(Request::CheckOut { deadline: due(0, 30) }, at(31));
    assert!(matches!(turn.step, RunStep::Done(Err(RunError::TimedOut))));
    assert_eq!(f.counts(), (1, 1));
}

#[test]
fn test_that_never_ends_times_the_run_out() {
    let mut f = Fixture::new(Builder::new().max_size(1).min_idle(Some(1)));
    f.add(2, at(0));
    let step = f.run(Request::CheckOut { deadline: due(0, 30) }, at(0)).1;
    assert!(matches!(step, RunStep::Validate { timeout, .. } if timeout == Duration::from_secs(30)));
    let request = match Step::validated::<(), ()>(at(0), due(0, 30), Err(())) {
        RunStep::Lock(request) => request,
        _ => panic!("the pool is told"),
    };
    assert!(matches!(request, Request::Lost));
    let turn = f.turn(request, at(30));
    assert!(matches!(turn.step, RunStep::Done(Err(RunError::TimedOut))));
    assert!(matches!(turn.spawn, Spawn::Replenish));
    assert!(turn.closed.is_none());
    assert_eq!(f.counts(), (0, 0));
}

#[test]
fn connection_lost_to_a_test_is_replaced_for_a_waiter() {
    let mut f = Fixture::new(Builder::new().max_size(1));
    f.add(2, at(0));
    let _held = f.run(check_out(), at(0));
    let _waiting = f.run(Request::Enqueue { deadline: due(0, 60) }, at(0));
    let turn = f.turn(Request::Lost, at(30));
    assert!(matches!(turn.spawn, Spawn::AddConnection));
}

#[test]
fn connection_that_comes_too_late_goes_back() {
    let mut f = Fixture::new(Builder::new().max_size(1).max_lifetime(Some(Duration::from_secs(40))));
    f.add(2, at(5));
    let conn = match f.run(check_out(), at(6)).1 {
        RunStep::Validate { conn, birth, .. } => Conn { conn, birth },
        _ => panic!("the connection is tested"),
    };
    let request = match f.pool.received::<u8, String, ()>(due(0, 30), at(30), Ok(Some(conn))) {
        RunStep::Lock(request) => request,
        _ => panic!("there is no time for a test"),
    };
    let turn = f.turn(request, at(31));
    assert!(matches!(turn.step, RunStep::Done(Err(RunError::TimedOut))));
    assert!(matches!(turn.spawn, Spawn::Nothing));
    assert_eq!((f.counts(), f.idle_ids()), ((1, 1), vec![2]));
    let conn = match f.run(check_out(), at(32)).1 {
        RunStep::Validate { conn, .. } => conn,
        _ => panic!("the connection is tested"),
    };
    let turn = f.turn(Request::TooLate { conn, birth: at(5) }, at(45));
    assert!(matches!(turn.step, RunStep::Done(Err(RunError::TimedOut))));
    assert!(matches!(turn.spawn, Spawn::Replenish));
    assert!(turn.closed.is_some());
    assert_eq!(f.counts(), (0, 0));
}

#[test]
fn waiting_task_gets_the_next_connection() {
    let mut f = Fixture::new(untested().max_size(1));
    let (spawn, step) = f.run(Request::CheckOut { deadline: due(0, 6) }, at(0));
    assert!(matches!(spawn, Spawn::Nothing));
    assert!(matches!(step, RunStep::Lock(Request::Enqueue { deadline }) if deadline == due(0, 6)));
    let (spawn, step) = f.run(Request::Enqueue { deadline: due(0, 6) }, at(2));
    assert!(matches!(spawn, Spawn::AddConnection));
    let receiver = match step {
        RunStep::Wait { receiver, timeout, deadline } => {
            assert_eq!((timeout, deadline), (Duration::from_secs(4), due(0, 6)));
            receiver
        }
        _ => panic!("the run waits"),
    };
    assert_eq!(f.internals.waiters.len(), 1);
    f.add(2, at(5));
    assert_eq!(f.counts(), (1, 0));
    assert_eq!(f.internals.waiters.len(), 0);
    let conn = block_on(receiver).unwrap();
    assert_eq!((conn.conn.id, conn.birth), (2, at(5)));
    let step: Step = f.pool.received::<_, _, ()>(due(0, 6), at(5), Ok(Some(conn)));
    assert!(matches!(step, RunStep::Use { conn: Link { id: 2, .. }, .. }));
}

#[test]
fn nothing_is_spawned_for_a_waiter_when_the_pool_is_full() {
    let mut f = Fixture::new(untested().max_size(1));
    f.add(2, at(0));
    let _held = f.run(check_out(), at(0));
    let (spawn, _step) = f.run(Request::Enqueue { deadline: due(0, 6) }, at(0));
    assert!(matches!(spawn, Spawn::Nothing));
}

#[test]
fn waiters_that_are_gone_are_passed_over() {
    let mut f = Fixture::new(untested().max_size(2));
    let mut receivers = Vec::new();
    for _ in 0..3 {
        match f.run(Request::Enqueue { deadline: due(0, 6) }, at(0)).1 {
            RunStep::Wait { receiver, .. } => receivers.push(receiver),
            _ => panic!("the run waits"),
        }
    }
    let last = receivers.pop().unwrap();
    let second = receivers.pop().unwrap();
    drop(receivers);
    f.add(2, at(1));
    assert_eq!(f.counts(), (1, 0));
    assert_eq!(f.internals.waiters.len(), 1);
    assert_eq!(block_on(second).unwrap().conn.id, 2);
    drop(last);
    f.add(4, at(2));
    assert_eq!(f.counts(), (2, 1));
    assert_eq!(f.internals.waiters.len(), 0);
    assert_eq!(f.idle_ids(), vec![4]);
}

#[test]
fn run_without_connection_times_out() {
    let f = Fixture::new(untested());
    let step: Step = f.pool.received::<_, _, ()>(due(0, 6), at(6), Ok(None));
    assert!(matches!(step, RunStep::Done(Err(RunError::TimedOut))));
    let step: Step = f.pool.received(due(0, 6), at(2), Err(oneshot::Canceled));
    assert!(matches!(step, RunStep::Done(Err(RunError::TimedOut))));
}

#[test]
fn broken_connection_is_closed_on_return() {
    let mut f = Fixture::new(untested().max_size(1).min_idle(Some(1)));
    f.add(3, at(0));
    let conn = match f.run(check_out(), at(0)).1 {
        RunStep::Use { conn, .. } => conn,
        _ => panic!("the connection is used"),
    };
    let request = match f.pool.used::<u8, String>(at(0), Ok((1, conn))) {
        RunStep::Lock(request) => request,
        _ => panic!("the connection is given back"),
    };
    match &request {
        Request::GiveBack { conn, birth, broken, result } => {
            assert_eq!((conn.id, *birth, *broken), (103, at(0), true));
            assert_eq!(*result, Ok(1));
        }
        _ => panic!("the connection is given back"),
    }
    let turn = f.turn(request, at(1));
    assert!(matches!(turn.spawn, Spawn::Nothing));
    assert!(matches!(turn.closed, Some(Link { id: 103, .. })));
    assert_eq!((f.closed(), f.counts()), (0, (0, 0)));
    match turn.step {
        RunStep::Replenish { count: 1, limit: None, then: AfterReplenish::Finish(result) } => {
            let step: Step = RunStep::replenished(AfterReplenish::Finish(result));
            assert!(matches!(step, RunStep::Done(Ok(1))));
        }
        _ => panic!("a replacement is opened first"),
    }
}

#[test]
fn connection_past_its_lifetime_is_closed_on_return() {
    let mut f = Fixture::new(untested().max_lifetime(Some(Duration::from_secs(10))));
    f.add(2, at(0));
    let conn = match f.run(check_out(), at(1)).1 {
        RunStep::Use { conn, .. } => conn,
        _ => panic!("the connection is used"),
    };
    let request = Request::GiveBack { conn, birth: at(0), broken: false, result: Ok(1) };
    let turn = f.turn(request, at(10));
    assert!(matches!(turn.step, RunStep::Replenish { count: 0, .. }));
    assert!(matches!(turn.spawn, Spawn::Nothing));
    assert!(turn.closed.is_some());
    assert_eq!(f.counts(), (0, 0));
}

#[test]
fn waiter_is_served_when_a_connection_was_too_old() {
    let builder = untested().max_size(1).max_lifetime(Some(Duration::from_secs(10)));
    let mut f = Fixture::new(builder);
    f.add(2, at(0));
    let conn = match f.run(check_out(), at(1)).1 {
        RunStep::Use { conn, .. } => conn,
        _ => panic!("the connection is used"),
    };
    let _waiting = f.run(Request::Enqueue { deadline: due(1, 60) }, at(1));
    let request = Request::GiveBack { conn, birth: at(0), broken: false, result: Ok(1) };
    let turn = f.turn(request, at(10));
    assert!(matches!(turn.spawn, Spawn::AddConnection));
    assert!(matches!(turn.step, RunStep::Replenish { count: 0, limit: None, .. }));
}

#[test]
fn dropping_connections_makes_room() {
    let mut f = Fixture::new(untested().max_size(2).min_idle(Some(2)));
    f.add(2, at(0));
    f.add(4, at(0));
    let conn = match get_idle_connection(f.pool.inner(), &mut f.internals) {
        CheckOut::Idle { conn, .. } => conn.conn,
        _ => panic!("a connection is idle"),
    };
    let dropped = drop_connections(f.pool.inner(), &mut f.internals, vec![conn]);
    assert_eq!((dropped.replacements, f.closed(), f.counts()), (1, 0, (1, 1)));
    assert_eq!(dropped.closed[0].id, 2);
    let idle = f.internals.conns.pop_front().unwrap();
    let dropped = drop_idle_connections(f.pool.inner(), &mut f.internals, vec![idle]);
    assert_eq!((dropped.replacements, f.counts()), (2, (0, 0)));
    assert_eq!(dropped.closed[0].id, 4);
}

#[test]
fn reaping_task_ends_with_the_pool() {
    let mut f = Fixture::new(untested().min_idle(Some(1)));
    f.add(2, at(0));
    match schedule_reaping(Some((&**f.pool.inner(), &mut f.internals)), at(10_000)) {
        ReapStep::Replenish(dropped) => {
            assert_eq!((dropped.closed.len(), dropped.replacements), (1, 1));
        }
        ReapStep::Stop => panic!("the pool is there"),
    }
    let step = schedule_reaping::<Manager>(None, at(10_000));
    assert!(matches!(step, ReapStep::Stop));
}

#[test]
fn reaping_closes_in_queue_order() {
    let builder = untested()
        .max_lifetime(Some(Duration::from_secs(100)))
        .idle_timeout(Some(Duration::from_secs(10)));
    let mut f = Fixture::new(builder);
    for (id, birth, idle_start) in [(2, 90, 90), (4, 0, 101), (6, 50, 99), (8, 95, 91)].iter() {
        let conn = Conn { conn: f.link(*id), birth: at(*birth) };
        f.internals.conns.push_back(IdleConn { conn, idle_start: at(*idle_start) });
        f.internals.num_conns += 1;
    }
    let dropped = reap_connections(f.pool.inner(), &mut f.internals, at(101));
    let ids: Vec<u32> = dropped.closed.iter().map(|c| c.id).collect();
    assert_eq!(ids, vec![2, 4, 8]);
    assert_eq!(f.idle_ids(), vec![6]);
    assert_eq!(f.counts(), (1, 1));
}

#[test]
fn run_uses_one_connection_and_ends() {
    let mut f = Fixture::new(untested().max_size(2));
    f.add(2, at(0));
    f.add(4, at(0));
    let mut uses = 0;
    let mut step: Step = f.pool.start(at(0));
    let end = loop {
        step = match step {
            RunStep::Lock(request) => f.run(request, at(1)).1,
            RunStep::Use { conn, birth } => {
                uses += 1;
                f.pool.used(birth, Ok((7, conn)))
            }
            RunStep::Done(end) => break end,
            _ => panic!("nothing is awaited"),
        };
    };
    assert_eq!((uses, end), (1, Ok(7)));
}
