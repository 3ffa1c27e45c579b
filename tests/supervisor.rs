use edge_workers::heap::near_heap_limit_cap;
use edge_workers::supervisor::{
    Supervisor, SupervisorAction, SupervisorLimits, SupervisorOutcome, SupervisorSignal,
    TerminationReason,
};

fn limits(interval: u64, max_bursts: u64) -> SupervisorLimits {
    SupervisorLimits {
        cpu_time_threshold_ms: 50,
        cpu_burst_interval_ms: interval,
        max_cpu_bursts: max_bursts,
        worker_timeout_ms: 1000,
        low_memory_multiplier: 5,
    }
}

#[test]
fn cpu_bursts_spaced_beyond_interval_terminate_after_third_alarm() {
    let mut sup = Supervisor::new(limits(100, 2), 0);
    let mut terminations = 0;
    let mut actions = Vec::new();
    for t in [150u64, 300, 450] {
        let a = sup.step(SupervisorSignal::CpuAlarm { now_ms: t });
        if matches!(a, SupervisorAction::Terminate(_)) {
            terminations += 1;
        }
        actions.push(a);
    }
    assert_eq!(actions[0], SupervisorAction::Wait);
    assert_eq!(actions[1], SupervisorAction::Wait);
    assert_eq!(actions[2], SupervisorAction::Terminate(TerminationReason::CpuTimeLimit));
    assert_eq!(sup.bursts, 3);
    assert_eq!(terminations, 1);
    assert_eq!(
        sup.outcome,
        Some(SupervisorOutcome::Terminated(TerminationReason::CpuTimeLimit))
    );
}

#[test]
fn alarms_within_interval_are_not_counted() {
    let mut sup = Supervisor::new(limits(100, 0), 1000);
    assert_eq!(sup.step(SupervisorSignal::CpuAlarm { now_ms: 1050 }), SupervisorAction::Wait);
    assert_eq!(sup.step(SupervisorSignal::CpuAlarm { now_ms: 1100 }), SupervisorAction::Wait);
    assert_eq!(sup.bursts, 0);
    assert_eq!(sup.last_burst_ms, 1000);
    // exactly at the interval: still not beyond it
    assert_eq!(sup.step(SupervisorSignal::CpuAlarm { now_ms: 1100 }), SupervisorAction::Wait);
    assert_eq!(
        sup.step(SupervisorSignal::CpuAlarm { now_ms: 1101 }),
        SupervisorAction::Terminate(TerminationReason::CpuTimeLimit)
    );
    assert_eq!(sup.bursts, 1);
}

#[test]
fn clock_reading_earlier_counts_no_burst() {
    let mut sup = Supervisor::new(limits(10, 5), 500);
    assert_eq!(sup.step(SupervisorSignal::CpuAlarm { now_ms: 100 }), SupervisorAction::Wait);
    assert_eq!(sup.bursts, 0);
}

#[test]
fn wall_clock_deadline_terminates() {
    let mut sup = Supervisor::new(limits(100, 2), 0);
    assert_eq!(
        sup.step(SupervisorSignal::WallClockDeadline),
        SupervisorAction::Terminate(TerminationReason::WallClockTimeLimit)
    );
    assert!(sup.is_finished());
}

#[test]
fn memory_pressure_terminates_once() {
    let mut sup = Supervisor::new(limits(100, 2), 0);
    assert_eq!(
        sup.step(SupervisorSignal::MemoryPressure),
        SupervisorAction::Terminate(TerminationReason::MemoryLimit)
    );
    assert_eq!(sup.step(SupervisorSignal::MemoryPressure), SupervisorAction::Ignore);
    assert_eq!(sup.step(SupervisorSignal::WallClockDeadline), SupervisorAction::Ignore);
    assert_eq!(
        sup.outcome,
        Some(SupervisorOutcome::Terminated(TerminationReason::MemoryLimit))
    );
}

#[test]
fn dropped_stops_without_termination() {
    let mut sup = Supervisor::new(limits(100, 2), 0);
    assert_eq!(sup.step(SupervisorSignal::Dropped), SupervisorAction::Stop);
    assert_eq!(sup.outcome, Some(SupervisorOutcome::Dropped));
    assert_eq!(sup.step(SupervisorSignal::MemoryPressure), SupervisorAction::Ignore);
}

#[test]
fn race_of_all_signals_yields_one_final_action() {
    let orders = [
        [
            SupervisorSignal::CpuAlarm { now_ms: 500 },
            SupervisorSignal::WallClockDeadline,
            SupervisorSignal::MemoryPressure,
        ],
        [
            SupervisorSignal::MemoryPressure,
            SupervisorSignal::CpuAlarm { now_ms: 500 },
            SupervisorSignal::WallClockDeadline,
        ],
        [
            SupervisorSignal::WallClockDeadline,
            SupervisorSignal::MemoryPressure,
            SupervisorSignal::CpuAlarm { now_ms: 500 },
        ],
    ];
    for order in orders {
        let mut sup = Supervisor::new(limits(100, 0), 0);
        let finals = order
            .iter()
            .map(|s| sup.step(*s))
            .filter(|a| matches!(a, SupervisorAction::Terminate(_) | SupervisorAction::Stop))
            .count();
        assert_eq!(finals, 1);
    }
}

#[test]
fn heap_cap_is_current_times_multiplier() {
    assert_eq!(near_heap_limit_cap(1000, 5), 5000);
    assert_eq!(near_heap_limit_cap(0, 5), 0);
    assert_eq!(near_heap_limit_cap(7, 1), 7);
    assert!(near_heap_limit_cap(4096, 2) > 4096);
}

#[test]
fn heap_cap_saturates_at_address_space() {
    assert_eq!(near_heap_limit_cap(usize::MAX / 2 + 1, 2), usize::MAX);
    assert_eq!(near_heap_limit_cap(2, u64::MAX), usize::MAX);
}
