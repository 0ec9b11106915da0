use keysync::reconnectable_stream::{
    link_is_dead, next_backoff, IoOutcome, Plan, ReconnectableTcpStream, Transfer,
    CONNECTION_TIMEOUT_SECS, INITIAL_BACKOFF_MS, MAX_BACKOFF_MS,
};

fn open() -> ReconnectableTcpStream<&'static str> {
    ReconnectableTcpStream::new("127.0.0.1:1234".to_string(), "first")
}

#[test]
fn constants_have_their_values() {
    assert_eq!(INITIAL_BACKOFF_MS, 50);
    assert_eq!(MAX_BACKOFF_MS, 10_000);
    assert_eq!(CONNECTION_TIMEOUT_SECS, 5);
}

#[test]
fn backoff_doubles_up_to_the_ceiling() {
    assert_eq!(next_backoff(50), 100);
    assert_eq!(next_backoff(100), 200);
    assert_eq!(next_backoff(4999), 9998);
    assert_eq!(next_backoff(5000), 10_000);
    assert_eq!(next_backoff(6400), 10_000);
    assert_eq!(next_backoff(10_000), 10_000);
    assert_eq!(next_backoff(u64::MAX), 10_000);
    assert_eq!(next_backoff(0), 0);
}

#[test]
fn new_link_is_connected_with_backoff_at_floor() {
    let link = open();
    assert!(link.is_connected());
    assert_eq!(link.stream(), Some(&"first"));
    assert_eq!(link.server_addr(), "127.0.0.1:1234");
    assert_eq!(link.current_backoff_ms(), 50);
    assert_eq!(link.generation(), 0);
    assert_eq!(link.plan(Some(0)), Plan::Use);
    assert_eq!(link.plan(None), Plan::Adopt);
    assert_eq!(link.plan(Some(7)), Plan::Adopt);
}

#[test]
fn eof_on_read_and_errors_mean_a_dead_link() {
    assert!(link_is_dead(Transfer::Read, IoOutcome::Done(0)));
    assert!(link_is_dead(Transfer::Read, IoOutcome::Failed));
    assert!(link_is_dead(Transfer::Write, IoOutcome::Failed));
    assert!(!link_is_dead(Transfer::Read, IoOutcome::Done(1)));
    assert!(!link_is_dead(Transfer::Write, IoOutcome::Done(0)));
    assert!(!link_is_dead(Transfer::Write, IoOutcome::Done(12)));
}

#[test]
fn write_recovers_after_k_attempts_with_growing_backoff() {
    let expected = [50u64, 100, 200, 400, 800, 1600, 3200, 6400, 10_000, 10_000, 10_000];
    for k in 1..=expected.len() {
        let mut link = open();
        assert_eq!(link.complete_transfer(0, Transfer::Write, IoOutcome::Failed), None);
        assert!(!link.is_connected());
        let mut previous = 0u64;
        for attempt in 1..=k {
            assert_eq!(link.plan(Some(0)), Plan::Attempt { number: attempt as u64, backoff_ms: expected[attempt - 1] });
            let (number, backoff) = link.begin_attempt().unwrap();
            assert_eq!(number, attempt as u64);
            assert_eq!(backoff, expected[attempt - 1]);
            assert!(backoff > previous || backoff == MAX_BACKOFF_MS);
            previous = backoff;
            assert_eq!(link.plan(Some(0)), Plan::Wait);
            assert_eq!(link.begin_attempt(), None);
            if attempt < k {
                link.connect_failed();
            }
        }
        assert_eq!(link.connect_succeeded("second"), k as u64);
        assert!(link.is_connected());
        assert_eq!(link.current_backoff_ms(), 50);
        assert_eq!(link.generation(), 1);
        assert_eq!(link.stream(), Some(&"second"));
        assert_eq!(link.plan(Some(0)), Plan::Adopt);
        assert_eq!(link.plan(Some(1)), Plan::Use);
        assert_eq!(link.complete_transfer(1, Transfer::Write, IoOutcome::Done(9)), Some(9));
    }
}

#[test]
fn clean_close_triggers_exactly_one_reconnect() {
    let mut link = open();
    // The reader sees end of stream on the first connection.
    assert_eq!(link.complete_transfer(0, Transfer::Read, IoOutcome::Done(0)), None);
    assert_eq!(link.stream(), None);
    // The writer's failure on the same connection comes later and starts nothing new.
    assert_eq!(link.begin_attempt(), Some((1, 50)));
    assert!(!link.report_failure(0));
    assert_eq!(link.plan(Some(0)), Plan::Wait);
    assert_eq!(link.connect_succeeded("second"), 1);
    // A late report about the first connection does not tear down the second.
    assert!(!link.report_failure(0));
    assert_eq!(link.complete_transfer(0, Transfer::Write, IoOutcome::Failed), None);
    assert!(link.is_connected());
    assert_eq!(link.generation(), 1);
    assert_eq!(link.begin_attempt(), None);
    // Both handles take over the second connection; reads and writes go through.
    assert_eq!(link.plan(Some(0)), Plan::Adopt);
    assert_eq!(link.stream(), Some(&"second"));
    assert_eq!(link.plan(Some(1)), Plan::Use);
    assert_eq!(link.complete_transfer(1, Transfer::Read, IoOutcome::Done(5)), Some(5));
    assert_eq!(link.complete_transfer(1, Transfer::Write, IoOutcome::Done(7)), Some(7));
    assert_eq!(link.complete_transfer(1, Transfer::Write, IoOutcome::Done(0)), Some(0));
}

#[test]
fn failure_report_counts_only_for_the_live_connection() {
    let mut link = open();
    assert!(!link.report_failure(3));
    assert!(link.is_connected());
    assert!(link.report_failure(0));
    assert!(!link.is_connected());
    assert!(!link.report_failure(0));
    assert_eq!(link.plan(None), Plan::Attempt { number: 1, backoff_ms: 50 });
}

#[test]
fn connect_failed_changes_nothing_while_connected() {
    let mut link = open();
    link.connect_failed();
    assert!(link.is_connected());
    assert_eq!(link.current_backoff_ms(), 50);
    assert_eq!(link.plan(Some(0)), Plan::Use);
}

#[test]
fn backoff_returns_to_floor_after_each_recovery() {
    let mut link = open();
    link.report_failure(0);
    link.begin_attempt();
    link.connect_failed();
    link.begin_attempt();
    link.connect_failed();
    assert_eq!(link.current_backoff_ms(), 200);
    link.begin_attempt();
    assert_eq!(link.connect_succeeded("second"), 3);
    assert_eq!(link.current_backoff_ms(), 50);
    assert!(link.report_failure(1));
    assert_eq!(link.begin_attempt(), Some((1, 50)));
}
