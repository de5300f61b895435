use pixelflut::raster::DrawOp;
use pixelflut::worker::{
    encode_draw, position, Action, ConnectionPolicy, Event, Pacing, Phase, Worker, WorkerConfig,
    WorkerError,
};

fn slice(count: u32) -> Vec<DrawOp> {
    (0..count).map(|k| DrawOp { dx: k, dy: 2 * k, r: 255, g: 0, b: 128 }).collect()
}

fn worker(count: u32, pacing: Pacing, policy: ConnectionPolicy) -> Worker {
    Worker::new(slice(count), 5, 10, WorkerConfig { pacing, policy }).unwrap()
}

#[test]
fn operation_is_drawn_at_offset_plus_position() {
    let op = DrawOp { dx: 3, dy: 4, r: 1, g: 2, b: 3 };
    assert_eq!(position(&op, 100, 200), Some((103, 204)));
    assert_eq!(encode_draw(&op, 100, 200), Some(b"PX 103 204 010203\n".to_vec()));
}

#[test]
fn coordinates_beyond_32_bits_are_refused() {
    let op = DrawOp { dx: 1, dy: 0, r: 0, g: 0, b: 0 };
    assert_eq!(position(&op, u32::MAX - 1, 0), Some((u32::MAX, 0)));
    assert_eq!(position(&op, u32::MAX, 0), None);
    assert_eq!(encode_draw(&op, u32::MAX, 0), None);
    let low = DrawOp { dx: 0, dy: 7, r: 0, g: 0, b: 0 };
    assert_eq!(position(&low, 0, u32::MAX - 6), None);
    let config = WorkerConfig { pacing: Pacing::Tight, policy: ConnectionPolicy::Persistent };
    assert!(Worker::new(vec![op], u32::MAX, 0, config).is_none());
    assert!(Worker::new(vec![op], u32::MAX - 1, 0, config).is_some());
}

#[test]
fn worker_hands_out_the_lines_of_its_slice() {
    let w = worker(2, Pacing::Tight, ConnectionPolicy::Persistent);
    assert_eq!(w.len(), 2);
    assert_eq!(w.line(0), Some(b"PX 5 10 ff0080\n".to_vec()));
    assert_eq!(w.line(1), Some(b"PX 6 12 ff0080\n".to_vec()));
    assert_eq!(w.line(2), None);
}

#[test]
fn persistent_tight_worker_writes_pass_after_pass() {
    let mut w = worker(2, Pacing::Tight, ConnectionPolicy::Persistent);
    assert_eq!(w.phase(), Phase::Ready);
    assert_eq!(w.step(Event::Start), Some(Action::Connect));
    assert_eq!(w.phase(), Phase::Connecting);
    assert_eq!(w.step(Event::Connected), Some(Action::Write { index: 0 }));
    assert_eq!(w.step(Event::Written), Some(Action::Write { index: 1 }));
    assert_eq!(w.cursor(), 1);
    assert_eq!(w.step(Event::Written), Some(Action::Write { index: 0 }));
    assert_eq!(w.step(Event::Written), Some(Action::Write { index: 1 }));
    assert_eq!(w.phase(), Phase::Writing);
}

#[test]
fn paced_worker_sleeps_after_every_pass() {
    let mut w = worker(2, Pacing::Paced { millis: 100 }, ConnectionPolicy::Persistent);
    assert_eq!(w.step(Event::Start), Some(Action::Connect));
    assert_eq!(w.step(Event::Connected), Some(Action::Write { index: 0 }));
    assert_eq!(w.step(Event::Written), Some(Action::Write { index: 1 }));
    assert_eq!(w.step(Event::Written), Some(Action::Sleep { millis: 100 }));
    assert_eq!(w.phase(), Phase::Pausing);
    assert_eq!(w.cursor(), 0);
    assert_eq!(w.step(Event::Elapsed), Some(Action::Write { index: 0 }));
}

#[test]
fn reconnecting_worker_connects_before_every_pass() {
    let mut w = worker(1, Pacing::Tight, ConnectionPolicy::ReconnectPerPass);
    assert_eq!(w.step(Event::Start), Some(Action::Connect));
    assert_eq!(w.step(Event::Connected), Some(Action::Write { index: 0 }));
    assert_eq!(w.step(Event::Written), Some(Action::Connect));
    assert_eq!(w.step(Event::Connected), Some(Action::Write { index: 0 }));

    let mut paced = worker(1, Pacing::Paced { millis: 7 }, ConnectionPolicy::ReconnectPerPass);
    assert_eq!(paced.step(Event::Start), Some(Action::Connect));
    assert_eq!(paced.step(Event::Connected), Some(Action::Write { index: 0 }));
    assert_eq!(paced.step(Event::Written), Some(Action::Sleep { millis: 7 }));
    assert_eq!(paced.step(Event::Elapsed), Some(Action::Connect));
}

#[test]
fn failed_first_connection_is_fatal_under_every_policy() {
    let policies = [
        ConnectionPolicy::ReconnectPerPass,
        ConnectionPolicy::Persistent,
        ConnectionPolicy::PersistentWithRetry { initial_millis: 10, max_millis: 100 },
    ];
    for policy in policies {
        let mut w = worker(1, Pacing::Tight, policy);
        assert_eq!(w.step(Event::Start), Some(Action::Connect));
        assert_eq!(w.step(Event::ConnectFailed), Some(Action::Abort(WorkerError::Connect)));
        assert_eq!(w.phase(), Phase::Failed(WorkerError::Connect));
        assert_eq!(w.step(Event::Elapsed), None);
        assert_eq!(w.step(Event::Cancelled), None);
    }
}

#[test]
fn failed_write_ends_a_worker_that_does_not_retry() {
    for policy in [ConnectionPolicy::ReconnectPerPass, ConnectionPolicy::Persistent] {
        let mut w = worker(2, Pacing::Tight, policy);
        w.step(Event::Start);
        w.step(Event::Connected);
        assert_eq!(w.step(Event::WriteFailed), Some(Action::Abort(WorkerError::Io)));
        assert_eq!(w.phase(), Phase::Failed(WorkerError::Io));
        assert_eq!(w.step(Event::Written), None);
    }
}

#[test]
fn retrying_worker_backs_off_and_goes_on_where_it_was() {
    let policy = ConnectionPolicy::PersistentWithRetry { initial_millis: 10, max_millis: 35 };
    let mut w = worker(3, Pacing::Tight, policy);
    w.step(Event::Start);
    w.step(Event::Connected);
    assert_eq!(w.step(Event::Written), Some(Action::Write { index: 1 }));
    assert_eq!(w.step(Event::WriteFailed), Some(Action::Sleep { millis: 10 }));
    assert_eq!(w.phase(), Phase::BackingOff);
    assert_eq!(w.step(Event::Elapsed), Some(Action::Connect));
    assert_eq!(w.step(Event::ConnectFailed), Some(Action::Sleep { millis: 20 }));
    assert_eq!(w.step(Event::Elapsed), Some(Action::Connect));
    assert_eq!(w.step(Event::ConnectFailed), Some(Action::Sleep { millis: 35 }));
    assert_eq!(w.step(Event::Elapsed), Some(Action::Connect));
    assert_eq!(w.step(Event::ConnectFailed), Some(Action::Sleep { millis: 35 }));
    assert_eq!(w.step(Event::Elapsed), Some(Action::Connect));
    assert_eq!(w.step(Event::Connected), Some(Action::Write { index: 1 }));
    assert_eq!(w.step(Event::Written), Some(Action::Write { index: 2 }));
    assert_eq!(w.step(Event::WriteFailed), Some(Action::Sleep { millis: 10 }));
}

#[test]
fn first_wait_never_exceeds_the_limit() {
    let policy = ConnectionPolicy::PersistentWithRetry { initial_millis: 500, max_millis: 40 };
    let mut w = worker(1, Pacing::Tight, policy);
    w.step(Event::Start);
    w.step(Event::Connected);
    assert_eq!(w.step(Event::WriteFailed), Some(Action::Sleep { millis: 40 }));
    let huge = ConnectionPolicy::PersistentWithRetry {
        initial_millis: u32::MAX,
        max_millis: u32::MAX,
    };
    let mut w = worker(1, Pacing::Tight, huge);
    w.step(Event::Start);
    w.step(Event::Connected);
    assert_eq!(w.step(Event::WriteFailed), Some(Action::Sleep { millis: u32::MAX }));
    w.step(Event::Elapsed);
    assert_eq!(w.step(Event::ConnectFailed), Some(Action::Sleep { millis: u32::MAX }));
}

#[test]
fn cancellation_stops_a_worker_in_any_phase() {
    let mut fresh = worker(1, Pacing::Tight, ConnectionPolicy::Persistent);
    assert_eq!(fresh.step(Event::Cancelled), Some(Action::Stop));
    assert_eq!(fresh.phase(), Phase::Stopped);
    assert_eq!(fresh.step(Event::Start), None);

    let mut writing = worker(1, Pacing::Paced { millis: 1 }, ConnectionPolicy::Persistent);
    writing.step(Event::Start);
    writing.step(Event::Connected);
    assert_eq!(writing.step(Event::Cancelled), Some(Action::Stop));
    assert_eq!(writing.step(Event::Written), None);
    assert_eq!(writing.phase(), Phase::Stopped);
}

#[test]
fn event_that_is_not_awaited_changes_nothing() {
    let mut w = worker(2, Pacing::Tight, ConnectionPolicy::Persistent);
    assert_eq!(w.step(Event::Written), None);
    assert_eq!(w.phase(), Phase::Ready);
    w.step(Event::Start);
    assert_eq!(w.step(Event::Start), None);
    assert_eq!(w.step(Event::Elapsed), None);
    assert_eq!(w.phase(), Phase::Connecting);
    w.step(Event::Connected);
    assert_eq!(w.step(Event::Connected), None);
    assert_eq!(w.cursor(), 0);
    assert_eq!(w.phase(), Phase::Writing);
}

#[test]
fn worker_with_nothing_to_draw_idles() {
    let mut tight = worker(0, Pacing::Tight, ConnectionPolicy::Persistent);
    assert_eq!(tight.step(Event::Start), Some(Action::Connect));
    assert_eq!(tight.step(Event::Connected), Some(Action::Sleep { millis: 0 }));
    assert_eq!(tight.step(Event::Elapsed), Some(Action::Sleep { millis: 0 }));

    let mut paced = worker(0, Pacing::Paced { millis: 50 }, ConnectionPolicy::Persistent);
    paced.step(Event::Start);
    assert_eq!(paced.step(Event::Connected), Some(Action::Sleep { millis: 50 }));
    assert_eq!(paced.step(Event::Elapsed), Some(Action::Sleep { millis: 50 }));
    assert_eq!(paced.step(Event::Elapsed), Some(Action::Sleep { millis: 50 }));
    assert_eq!(paced.phase(), Phase::Pausing);

    let retry = ConnectionPolicy::PersistentWithRetry { initial_millis: 1, max_millis: 2 };
    let mut retrying = worker(0, Pacing::Paced { millis: 9 }, retry);
    retrying.step(Event::Start);
    assert_eq!(retrying.step(Event::Connected), Some(Action::Sleep { millis: 9 }));
    assert_eq!(retrying.step(Event::Elapsed), Some(Action::Sleep { millis: 9 }));

    let mut each_pass = worker(0, Pacing::Paced { millis: 3 }, ConnectionPolicy::ReconnectPerPass);
    each_pass.step(Event::Start);
    assert_eq!(each_pass.step(Event::Connected), Some(Action::Sleep { millis: 3 }));
    assert_eq!(each_pass.step(Event::Elapsed), Some(Action::Connect));

    let mut reconnecting = worker(0, Pacing::Tight, ConnectionPolicy::ReconnectPerPass);
    reconnecting.step(Event::Start);
    assert_eq!(reconnecting.step(Event::Connected), Some(Action::Connect));
}
