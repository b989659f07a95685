use tls_bench::collector::final_elapsed_ms;
use tls_bench::collector::latency_row;
use tls_bench::collector::CollectorState;
use tls_bench::probe::ErrorKind;
use tls_bench::probe::Outcome;
use tls_bench::probe::TlsDuration;

fn success(tcp: u64, hs: u64) -> Outcome {
    Outcome::Success(TlsDuration { tcp_connect: tcp, handshake: hs })
}

#[test]
fn test_count_bounded_termination() {
    // duration 0, ramp-up 0: the run accepts exactly `concurrently` outcomes.
    let concurrently = 4;
    let mut state = CollectorState::new();
    let outcomes = [
        success(2, 9),
        Outcome::Failure(ErrorKind::ConnectRefused),
        success(3, 11),
        Outcome::Failure(ErrorKind::Timeout),
    ];
    let mut accepted = 0;
    for o in outcomes.iter() {
        assert!(!state.should_terminate(0, 0, concurrently, 50));
        state.on_outcome(o, 50, 0, 0);
        accepted += 1;
    }
    assert_eq!(accepted, concurrently);
    assert!(state.should_terminate(0, 0, concurrently, 50));
    assert_eq!(state.handshakes_count, 2);
    assert_eq!(state.err_count, 2);
    assert_eq!(state.handshake_latencies_ms, vec![9, 11]);
    assert_eq!(state.tcp_connect_latencies_ms, vec![2, 3]);
}

#[test]
fn test_all_probes_fail() {
    // Connection refused on every attempt: errors counted, no samples, the
    // table suppressed, success ratio zero.
    let mut state = CollectorState::new();
    for _ in 0..3 {
        state.on_outcome(&Outcome::Failure(ErrorKind::ConnectRefused), 100, 1, 0);
    }
    assert_eq!(state.handshakes_count, 0);
    assert_eq!(state.err_count, 3);
    assert!(!state.should_render_table());
    let ratio = state.success_ratio();
    assert_eq!(ratio.num, 0);
    assert_eq!(ratio.den, 3);
}

#[test]
fn test_duration_bounded_termination() {
    let state = CollectorState::new();
    assert!(!state.should_terminate(2, 0, 8, 1_999));
    assert!(state.should_terminate(2, 0, 8, 2_000));
}

#[test]
fn test_ramp_up_only_terminates_at_steady_state() {
    // duration 0, ramp-up > 0: the run ends the instant elapsed reaches 0.
    let state = CollectorState::new();
    assert!(!state.should_terminate(0, 5, 8, -1));
    assert!(state.should_terminate(0, 5, 8, 0));
    assert!(state.should_terminate(0, 5, 8, 1));
}

#[test]
fn test_ramp_up_reset_happens_once() {
    let mut state = CollectorState::new();
    // Two successes during ramp-up (elapsed still negative).
    state.on_outcome(&success(1, 5), -500, 10, 2);
    state.on_outcome(&success(1, 6), -100, 10, 2);
    assert_eq!(state.handshakes_count, 2);
    assert!(!state.ramp_up_reset_done);
    // First success at steady state discards the ramp-up count, exactly once.
    state.on_outcome(&success(1, 7), 0, 10, 2);
    assert_eq!(state.handshakes_count, 0);
    assert!(state.ramp_up_reset_done);
    state.on_outcome(&success(1, 8), 100, 10, 2);
    assert_eq!(state.handshakes_count, 1);
    // All four samples were kept.
    assert_eq!(state.handshake_latencies_ms, vec![5, 6, 7, 8]);
}

#[test]
fn test_throughput_rounds_up() {
    let mut state = CollectorState::new();
    state.on_outcome(&success(1, 5), 1_500, 0, 0);
    // 1 handshake over 1.5 s: ceil(0.67) = 1.
    assert_eq!(state.throughput_hps, 1);
    state.on_outcome(&success(1, 5), 1_500, 0, 0);
    state.on_outcome(&success(1, 5), 1_500, 0, 0);
    // 3 handshakes over 1.5 s: 2.
    assert_eq!(state.throughput_hps, 2);
}

#[test]
fn test_throughput_during_ramp_up_uses_wall_time() {
    let mut state = CollectorState::new();
    // elapsed -1 s with a 2 s ramp-up: the time base is 1 s of wall time.
    state.on_outcome(&success(1, 5), -1_000, 0, 2);
    assert_eq!(state.throughput_hps, 1);
}

#[test]
fn test_final_elapsed_adds_ramp_up_back() {
    assert_eq!(final_elapsed_ms(2_500, 4), 6_500);
    assert_eq!(final_elapsed_ms(2_500, 0), 2_500);
    assert_eq!(final_elapsed_ms(-300, 1), 700);
}

#[test]
fn test_latency_row_exact() {
    let mut xs = vec![10, 30, 20];
    let row = latency_row(&mut xs);
    assert_eq!(row.min_ms, 10);
    assert_eq!(row.max_ms, 30);
    assert_eq!(row.avg.num, 60);
    assert_eq!(row.avg.den, 3);
    assert_eq!(row.p50, 20_000);
    // 95th percentile of [10, 20, 30]: rank 1.9, 20 * 0.1 + 30 * 0.9.
    assert_eq!(row.p95, 29_000);
    assert_eq!(row.p99, 29_800);
    assert_eq!(row.p999, 29_980);
    assert_eq!(xs, vec![10, 20, 30]);
}

#[test]
fn test_success_ratio_mixed() {
    let mut state = CollectorState::new();
    state.on_outcome(&success(1, 5), 100, 0, 0);
    state.on_outcome(&Outcome::Failure(ErrorKind::TlsHandshake), 110, 0, 0);
    state.on_outcome(&success(1, 6), 120, 0, 0);
    state.on_outcome(&Outcome::Failure(ErrorKind::Unsupported), 130, 0, 0);
    let ratio = state.success_ratio();
    // 2 of 4 succeeded: 200 / 4 = 50%.
    assert_eq!(ratio.num, 200);
    assert_eq!(ratio.den, 4);
}

#[test]
fn test_error_kinds_all_counted() {
    let kinds = [
        ErrorKind::Resolve,
        ErrorKind::Precondition,
        ErrorKind::ConnectRefused,
        ErrorKind::ConnectReset,
        ErrorKind::ConnectOther,
        ErrorKind::Timeout,
        ErrorKind::Unsupported,
        ErrorKind::TlsHandshake,
        ErrorKind::Shutdown,
    ];
    let mut state = CollectorState::new();
    for k in kinds.iter() {
        state.on_outcome(&Outcome::Failure(*k), 10, 0, 0);
    }
    assert_eq!(state.err_count, kinds.len() as u128);
    assert_eq!(state.handshakes_count, 0);
}
