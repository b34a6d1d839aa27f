//! Passing signals on from the supervisor to the workload.
//!
//! The supervisor keeps the pid of its child in one process-wide slot. The
//! handler it installs for each forwarded signal reads the slot and, where
//! it holds a pid, sends the signal on. The child gives the same signals
//! their default disposition again before it becomes the workload.

use std::sync::atomic::AtomicI32;
use vstd::prelude::*;

use crate::plan::{push_steps, OnFailure, Operation, OperationView, Stage, Step, Steps, steps_of};

verus! {

/// A signal that the supervisor passes on to its child.
#[derive(Clone, Copy, Debug, PartialEq, Eq, Structural)]
pub enum ForwardedSignal {
    Terminate,
    Interrupt,
    Quit,
    Hangup,
    User1,
    User2,
}

/// The forwarded signals, in the order in which their handlers are set.
pub open spec fn forwarded_signals() -> Seq<ForwardedSignal> {
    seq![
        ForwardedSignal::Terminate,
        ForwardedSignal::Interrupt,
        ForwardedSignal::Quit,
        ForwardedSignal::Hangup,
        ForwardedSignal::User1,
        ForwardedSignal::User2,
    ]
}

/// The steps that install the forwarding handler for every forwarded
/// signal.
pub open spec fn forward_steps() -> Steps {
    steps_of(
        forwarded_signals().map_values(
            |signal: ForwardedSignal| OperationView::ForwardSignal { signal },
        ),
        Stage::Signals,
        OnFailure::Abort,
    )
}

/// The steps that give every forwarded signal its default disposition.
pub open spec fn reset_steps() -> Steps {
    steps_of(
        forwarded_signals().map_values(
            |signal: ForwardedSignal| OperationView::ResetSignal { signal },
        ),
        Stage::Signals,
        OnFailure::Abort,
    )
}

/// What the forwarding handler does with a signal it caught: it sends the
/// signal to the child if a child is registered and the signal is one the
/// system knows, and does nothing otherwise.
pub open spec fn forward_choice(child: i32, signum: i32, known: bool) -> Option<(i32, i32)> {
    if child > 0 && known {
        Some((child, signum))
    } else {
        None
    }
}

fn all_signals() -> (signals: Vec<ForwardedSignal>)
    ensures
        signals@ == forwarded_signals(),
{
    let mut signals: Vec<ForwardedSignal> = Vec::new();
    signals.push(ForwardedSignal::Terminate);
    signals.push(ForwardedSignal::Interrupt);
    signals.push(ForwardedSignal::Quit);
    signals.push(ForwardedSignal::Hangup);
    signals.push(ForwardedSignal::User1);
    signals.push(ForwardedSignal::User2);
    assert(signals@ =~= forwarded_signals());
    signals
}

/// Plans the installation of the forwarding handlers in the supervisor.
pub fn setup_parent_signal_handlers() -> (steps: Vec<Step>)
    ensures
        steps.deep_view() == forward_steps(),
{
    let signals = all_signals();
    let mut calls: Vec<Operation> = Vec::new();
    let mut i: usize = 0;
    while i < signals.len()
        invariant
            i <= signals.len(),
            signals@ == forwarded_signals(),
            calls.deep_view() == forwarded_signals().take(i as int).map_values(
                |signal: ForwardedSignal| OperationView::ForwardSignal { signal },
            ),
        decreases signals.len() - i,
    {
        let ghost before = calls.deep_view();
        calls.push(Operation::ForwardSignal { signal: signals[i] });
        assert(calls.deep_view() =~= before.push(
            OperationView::ForwardSignal { signal: signals@[i as int] },
        ));
        assert(calls.deep_view() =~= forwarded_signals().take(i + 1).map_values(
            |signal: ForwardedSignal| OperationView::ForwardSignal { signal },
        ));
        i += 1;
    }
    assert(forwarded_signals().take(signals.len() as int) =~= forwarded_signals());
    let mut steps: Vec<Step> = Vec::new();
    assert(steps.deep_view() =~= Steps::empty());
    push_steps(&mut steps, calls, Stage::Signals, OnFailure::Abort);
    assert(steps.deep_view() =~= forward_steps());
    steps
}

/// Plans the return of the forwarded signals to their default disposition
/// in the child.
pub fn reset_child_signal_handlers() -> (steps: Vec<Step>)
    ensures
        steps.deep_view() == reset_steps(),
{
    let signals = all_signals();
    let mut calls: Vec<Operation> = Vec::new();
    let mut i: usize = 0;
    while i < signals.len()
        invariant
            i <= signals.len(),
            signals@ == forwarded_signals(),
            calls.deep_view() == forwarded_signals().take(i as int).map_values(
                |signal: ForwardedSignal| OperationView::ResetSignal { signal },
            ),
        decreases signals.len() - i,
    {
        let ghost before = calls.deep_view();
        calls.push(Operation::ResetSignal { signal: signals[i] });
        assert(calls.deep_view() =~= before.push(
            OperationView::ResetSignal { signal: signals@[i as int] },
        ));
        assert(calls.deep_view() =~= forwarded_signals().take(i + 1).map_values(
            |signal: ForwardedSignal| OperationView::ResetSignal { signal },
        ));
        i += 1;
    }
    assert(forwarded_signals().take(signals.len() as int) =~= forwarded_signals());
    let mut steps: Vec<Step> = Vec::new();
    assert(steps.deep_view() =~= Steps::empty());
    push_steps(&mut steps, calls, Stage::Signals, OnFailure::Abort);
    assert(steps.deep_view() =~= reset_steps());
    steps
}

/// `nix::sys::signal::Signal::try_from`: whether the number is that of a
/// signal which nix knows on the platform the library was built for. Nothing
/// is claimed of the answer.
#[verifier::external_body]
fn known_signal(signum: i32) -> (known: bool) {
    nix::sys::signal::Signal::try_from(signum).is_ok()
}

/// Decides where a caught signal goes, given whether the system knows it.
pub fn forward_target(child: i32, signum: i32, known: bool) -> (target: Option<(i32, i32)>)
    ensures
        target == forward_choice(child, signum, known),
{
    if child <= 0 {
        return None;
    }
    if known {
        Some((child, signum))
    } else {
        None
    }
}

/// Registers `pid` as the child that caught signals go to.
pub fn store_child_pid(slot: &AtomicI32, pid: i32) {
    slot.store(pid, std::sync::atomic::Ordering::SeqCst);
}

/// The body of the forwarding handler: reads the registered child and
/// decides where the caught signal goes. It only loads an atomic and
/// compares integers, so it may run in a signal handler.
///
/// Nothing is sent while no child is registered, and a signal is only ever
/// sent unchanged.
pub fn forward_signal(slot: &AtomicI32, signum: i32) -> (target: Option<(i32, i32)>)
    ensures
        match target {
            Some((child, signal)) => child > 0 && signal == signum,
            None => true,
        },
{
    let pid = slot.load(std::sync::atomic::Ordering::SeqCst);
    if pid <= 0 {
        return None;
    }
    forward_target(pid, signum, known_signal(signum))
}

} // verus!
