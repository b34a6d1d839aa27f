use std::sync::atomic::AtomicI32;

use styrolite::plan::{OnFailure, Operation, Stage, Step};
use styrolite::signal::{
    forward_signal, forward_target, reset_child_signal_handlers, setup_parent_signal_handlers,
    store_child_pid, ForwardedSignal,
};

const FORWARDED: [ForwardedSignal; 6] = [
    ForwardedSignal::Terminate,
    ForwardedSignal::Interrupt,
    ForwardedSignal::Quit,
    ForwardedSignal::Hangup,
    ForwardedSignal::User1,
    ForwardedSignal::User2,
];

#[test]
fn forwarders_are_installed_for_the_six_signals_in_order() {
    let steps = setup_parent_signal_handlers();
    let expected: Vec<Step> = FORWARDED
        .iter()
        .map(|signal| Step {
            operation: Operation::ForwardSignal { signal: *signal },
            stage: Stage::Signals,
            on_failure: OnFailure::Abort,
        })
        .collect();
    assert_eq!(steps, expected);
}

#[test]
fn the_child_resets_the_same_six_signals() {
    let steps = reset_child_signal_handlers();
    let expected: Vec<Step> = FORWARDED
        .iter()
        .map(|signal| Step {
            operation: Operation::ResetSignal { signal: *signal },
            stage: Stage::Signals,
            on_failure: OnFailure::Abort,
        })
        .collect();
    assert_eq!(steps, expected);
}

#[test]
fn a_known_signal_goes_to_a_registered_child() {
    assert_eq!(forward_target(42, 15, true), Some((42, 15)));
    assert_eq!(forward_target(1, 2, true), Some((1, 2)));
}

#[test]
fn nothing_is_sent_without_a_child_or_for_an_unknown_signal() {
    assert_eq!(forward_target(0, 15, true), None);
    assert_eq!(forward_target(-1, 15, true), None);
    assert_eq!(forward_target(i32::MIN, 15, true), None);
    assert_eq!(forward_target(42, 15, false), None);
    assert_eq!(forward_target(0, 0, false), None);
}

#[test]
fn the_handler_forwards_termination_to_the_stored_child() {
    let slot = AtomicI32::new(0);
    assert_eq!(forward_signal(&slot, libc::SIGTERM), None);
    store_child_pid(&slot, 4711);
    assert_eq!(forward_signal(&slot, libc::SIGTERM), Some((4711, libc::SIGTERM)));
    assert_eq!(forward_signal(&slot, libc::SIGINT), Some((4711, libc::SIGINT)));
    assert_eq!(forward_signal(&slot, libc::SIGUSR2), Some((4711, libc::SIGUSR2)));
    store_child_pid(&slot, 12);
    assert_eq!(forward_signal(&slot, libc::SIGHUP), Some((12, libc::SIGHUP)));
}

#[test]
fn the_handler_drops_numbers_that_are_no_signal() {
    let slot = AtomicI32::new(0);
    store_child_pid(&slot, 4711);
    assert_eq!(forward_signal(&slot, 0), None);
    assert_eq!(forward_signal(&slot, -3), None);
    assert_eq!(forward_signal(&slot, 4096), None);
    store_child_pid(&slot, -1);
    assert_eq!(forward_signal(&slot, libc::SIGTERM), None);
}
