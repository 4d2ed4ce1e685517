use gta_assistant::controller::{
    check_thread_status, step, TaskAction, TaskEvent, TaskPhase, TaskTiming, ThreadStatus,
};
use gta_assistant::registry::{ButtonType, Feature, TaskCommand, TaskRegistry};
use gta_assistant::signature::Similarity;
use gta_assistant::solver::{CASINO_WAIT_MILLIS, LOOP_DELAY_MILLIS};
use std::sync::{Arc, Mutex};

const TIMING: TaskTiming = TaskTiming { poll_millis: LOOP_DELAY_MILLIS, settle_millis: CASINO_WAIT_MILLIS };

fn scored(running: bool, matching: u32, total: u32) -> TaskEvent {
    TaskEvent::HeaderScored { running, header: Similarity { matching, total } }
}

#[test]
fn poll_interval_is_a_tenth_of_a_second() {
    assert_eq!(LOOP_DELAY_MILLIS, 100);
}

#[test]
fn start_then_poll() {
    let (p, a) = step(TIMING, TaskPhase::Idle, TaskEvent::Start { running: true });
    assert_eq!((p, a), (TaskPhase::Polling, TaskAction::CaptureHeader));
}

#[test]
fn header_above_threshold_triggers_acting() {
    assert_eq!(
        step(TIMING, TaskPhase::Polling, scored(true, 995, 1000)),
        (TaskPhase::Acting, TaskAction::Solve)
    );
}

#[test]
fn header_below_threshold_keeps_polling() {
    assert_eq!(
        step(TIMING, TaskPhase::Polling, scored(true, 99, 100)),
        (TaskPhase::Polling, TaskAction::Sleep { millis: 100 })
    );
    assert_eq!(
        step(TIMING, TaskPhase::Polling, TaskEvent::Slept { running: true }),
        (TaskPhase::Polling, TaskAction::CaptureHeader)
    );
}

#[test]
fn acting_then_cooling_down_then_polling() {
    assert_eq!(
        step(TIMING, TaskPhase::Acting, TaskEvent::Solved { running: true }),
        (TaskPhase::CoolingDown, TaskAction::Sleep { millis: 4350 })
    );
    assert_eq!(
        step(TIMING, TaskPhase::CoolingDown, TaskEvent::Slept { running: true }),
        (TaskPhase::Polling, TaskAction::CaptureHeader)
    );
}

#[test]
fn cleared_flag_stops_from_every_phase() {
    let phases = [
        TaskPhase::Idle,
        TaskPhase::Polling,
        TaskPhase::Acting,
        TaskPhase::CoolingDown,
        TaskPhase::Stopped,
    ];
    let events = [
        TaskEvent::Start { running: false },
        scored(false, 64, 64),
        TaskEvent::Solved { running: false },
        TaskEvent::Slept { running: false },
    ];
    for p in phases {
        for e in events {
            assert_eq!(step(TIMING, p, e), (TaskPhase::Stopped, TaskAction::Exit));
        }
    }
}

#[test]
fn out_of_order_event_stops() {
    assert_eq!(
        step(TIMING, TaskPhase::Idle, TaskEvent::Solved { running: true }),
        (TaskPhase::Stopped, TaskAction::Exit)
    );
    assert_eq!(
        step(TIMING, TaskPhase::Stopped, TaskEvent::Start { running: true }),
        (TaskPhase::Stopped, TaskAction::Exit)
    );
}

#[test]
fn thread_status_reads_the_flag() {
    let status: ThreadStatus = Arc::new(Mutex::new(true));
    assert!(check_thread_status(&status));
    *status.lock().unwrap() = false;
    assert!(!check_thread_status(&status));
}

#[test]
fn starting_a_running_feature_is_a_noop() {
    let mut reg = TaskRegistry::new();
    assert!(!reg.is_running(Feature::CasinoFingerprint));
    assert_eq!(
        reg.handle_button(Feature::CasinoFingerprint, ButtonType::Toggle, true),
        TaskCommand::Start
    );
    assert!(reg.is_running(Feature::CasinoFingerprint));
    assert_eq!(
        reg.handle_button(Feature::CasinoFingerprint, ButtonType::Toggle, true),
        TaskCommand::Nothing
    );
    assert!(!reg.start(Feature::CasinoFingerprint));
    assert!(reg.is_running(Feature::CasinoFingerprint));
    assert!(!reg.is_running(Feature::CayoFingerprint));
}

#[test]
fn stopping_a_feature_unregisters_it() {
    let mut reg = TaskRegistry::new();
    assert!(reg.start(Feature::CayoFingerprint));
    assert_eq!(
        reg.handle_button(Feature::CayoFingerprint, ButtonType::Toggle, false),
        TaskCommand::Stop
    );
    assert!(!reg.is_running(Feature::CayoFingerprint));
    assert_eq!(
        reg.handle_button(Feature::CayoFingerprint, ButtonType::Toggle, false),
        TaskCommand::Nothing
    );
    assert!(!reg.stop(Feature::CayoFingerprint));
}

#[test]
fn timer_button_starts_unless_running() {
    let mut reg = TaskRegistry::new();
    assert_eq!(reg.handle_button(Feature::NoAfk, ButtonType::Timer(30), true), TaskCommand::StartTimer(30));
    assert!(reg.is_running(Feature::NoAfk));
    // a second start while the timed run goes on starts nothing
    assert_eq!(reg.handle_button(Feature::NoAfk, ButtonType::Timer(30), true), TaskCommand::Nothing);
    assert!(reg.is_running(Feature::NoAfk));
    assert_eq!(reg.handle_button(Feature::NoAfk, ButtonType::Timer(30), false), TaskCommand::Nothing);
    // once the timed run ends it can start again
    assert!(reg.stop(Feature::NoAfk));
    assert_eq!(reg.handle_button(Feature::NoAfk, ButtonType::Timer(30), true), TaskCommand::StartTimer(30));
}
