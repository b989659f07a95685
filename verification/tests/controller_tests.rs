use tls_bench::controller::TrafficController;
use tls_bench::controller::INITIAL_PERIOD_US;

#[test]
fn test_traffic_controller_new() {
    let capacity = 5;
    let controller = TrafficController::new(capacity);
    assert_eq!(controller.capacity, capacity);
    assert_eq!(controller.available, 0);
}

#[test]
fn test_traffic_controller_flow_no_ramp_up() {
    let mut controller = TrafficController::new(4);
    controller.tick();
    assert!(controller.available > 0);
}

#[test]
fn test_traffic_controller_flow_with_ramp_up() {
    let capacity = 10;
    let mut controller = TrafficController::new(capacity);
    // Before any time has passed the pacer waits the fixed initial period.
    assert_eq!(controller.next_period_us(4, 0), INITIAL_PERIOD_US);
    // Midway through a 4 s ramp-up the rate is half of 10/s: 0.2 s per permit.
    assert_eq!(controller.next_period_us(4, 2_000), 200_000);
    // Past the ramp-up window the pacer holds the steady period 1/10 s.
    assert_eq!(controller.next_period_us(4, 4_001), 100_000);
    // However many ticks arrive, the store never exceeds its capacity,
    // and each admission consumes exactly one permit.
    for _ in 0..25 {
        controller.tick();
        assert!(controller.available <= capacity);
    }
    assert_eq!(controller.available, capacity);
    controller.acquire();
    assert_eq!(controller.available, capacity - 1);
}

#[test]
fn test_flow_tick_grants_and_paces() {
    let mut controller = TrafficController::new(10);
    let period = controller.flow_tick(4, 1_000);
    assert_eq!(controller.available, 1);
    // A quarter of the way through the ramp-up the rate is 2.5/s: 0.4 s.
    assert_eq!(period, 400_000);
}

#[test]
fn test_steady_period() {
    let controller = TrafficController::new(1000);
    assert_eq!(controller.next_period_us(0, 12_345), 1_000);
    let slow = TrafficController::new(1);
    assert_eq!(slow.next_period_us(0, 0), 1_000_000);
}

#[test]
fn test_ramp_up_boundary_period() {
    // At the very end of the window the ramp formula already equals the
    // steady period.
    let controller = TrafficController::new(10);
    assert_eq!(controller.next_period_us(4, 4_000), 100_000);
}
