//! What a supervisor does, written down before it is done: a list of kernel
//! operations, each with the stage it belongs to and what its failure means,
//! and the rule by which a runner walks the list.

use vstd::prelude::*;

use crate::capability::CapInternalResult;
use crate::config::Text;
use crate::signal::ForwardedSignal;

verus! {

/// A POSIX resource that `setrlimit` bounds.
#[derive(Clone, Copy, Debug, PartialEq, Eq, Structural)]
pub enum Resource {
    AddressSpace,
    Core,
    Cpu,
    Data,
    FileSize,
    LockedMemory,
    MessageQueue,
    Nice,
    OpenFiles,
    Processes,
    ResidentSet,
    RealTimePriority,
    RealTimeTime,
    PendingSignals,
    Stack,
}

/// One of the two counters over which supervisor and child wait for each
/// other.
#[derive(Clone, Copy, Debug, PartialEq, Eq, Structural)]
pub enum Channel {
    /// The counter the supervisor waits on.
    Parent,
    /// The counter the child waits on.
    Child,
}

/// The part of the pipeline a step belongs to.
#[derive(Clone, Copy, Debug, PartialEq, Eq, Structural)]
pub enum Stage {
    Cgroup,
    Signals,
    Namespaces,
    BootTime,
    Hostname,
    Limits,
    Rendezvous,
    IdMaps,
    Filesystem,
    Capabilities,
    Launch,
    Wait,
}

/// What the failure of a step means for the steps after it.
#[derive(Clone, Copy, Debug, PartialEq, Eq, Structural)]
pub enum OnFailure {
    /// Nothing after it runs: the container would be less isolated than asked.
    Abort,
    /// The rest of its stage is skipped and the next stage runs.
    SkipStage,
    /// The next step runs as if nothing had happened.
    Continue,
}

/// One call into the kernel, with its arguments.
#[derive(Clone, Debug, PartialEq, Eq)]
#[allow(inconsistent_fields)]
pub enum Operation {
    /// `faccessat(AT_FDCWD, path, F_OK, AT_EACCESS)`.
    CheckAccess { path: String },
    /// Create `path` and every missing directory above it.
    CreateDirAll { path: String },
    /// Write `contents` to the file `path`, replacing what it held.
    WriteFile { path: String, contents: String },
    /// `unshare(flags)`.
    Unshare { flags: i32 },
    /// Open `path` and `setns` into the namespace behind it.
    EnterNamespace { path: String, flag: i32 },
    /// Read the boot clock and write its offset to `/proc/self/timens_offsets`.
    OffsetBootTime,
    /// `sethostname(name)`.
    SetHostname { name: String },
    /// `setrlimit(resource, {limit, limit})`; without a limit, with the C
    /// library's `RLIM_INFINITY` for both.
    SetLimit { resource: Resource, limit: Option<u64> },
    /// `mount(source, target, fstype, flags, NULL)`; an absent text is a null
    /// pointer.
    Mount { source: Option<String>, target: String, fstype: Option<String>, flags: u64 },
    /// `chdir(path)`.
    ChangeDir { path: String },
    /// `pivot_root(new_root, put_old)`.
    PivotRoot { new_root: String, put_old: String },
    /// `umount2(target, flags)`.
    Unmount { target: String, flags: i32 },
    /// Read the thread's capability sets and apply the request's changes.
    ApplyCapabilities,
    /// `capset` with the given header and slots.
    SetCapabilities { raw: CapInternalResult },
    /// `prctl(PR_CAP_AMBIENT, PR_CAP_AMBIENT_LOWER, capability)`.
    LowerAmbient { capability: u8 },
    /// `prctl(PR_CAP_AMBIENT, PR_CAP_AMBIENT_RAISE, capability)`.
    RaiseAmbient { capability: u8 },
    /// Install the handler that passes `signal` on to the child.
    ForwardSignal { signal: ForwardedSignal },
    /// Give `signal` its default disposition again.
    ResetSignal { signal: ForwardedSignal },
    /// Make the child just forked the one that caught signals go to.
    RegisterChild,
    /// Make the two counters over which supervisor and child wait for each
    /// other, both at zero and both counting down by one for each wait.
    OpenChannels,
    /// Block until the counter of `channel` is above zero, and take one.
    Await { channel: Channel },
    /// Add `value` to the counter of `channel`.
    Notify { channel: Channel, value: u64 },
    /// `setuid(uid)`, where the real user id is another.
    SwitchUser { uid: u32 },
    /// `setgid(gid)`, where the real group id is another.
    SwitchGroup { gid: u32 },
    /// `execvpe(program, arguments, environment)`.
    Execute { program: String, arguments: Vec<String>, environment: Vec<String> },
    /// Wait for the child and exit with its exit status.
    WaitChild,
}

/// An [`Operation`] as plain values.
#[allow(inconsistent_fields)]
pub enum OperationView {
    CheckAccess { path: Text },
    CreateDirAll { path: Text },
    WriteFile { path: Text, contents: Text },
    Unshare { flags: i32 },
    EnterNamespace { path: Text, flag: i32 },
    OffsetBootTime,
    SetHostname { name: Text },
    SetLimit { resource: Resource, limit: Option<u64> },
    Mount { source: Option<Text>, target: Text, fstype: Option<Text>, flags: u64 },
    ChangeDir { path: Text },
    PivotRoot { new_root: Text, put_old: Text },
    Unmount { target: Text, flags: i32 },
    ApplyCapabilities,
    SetCapabilities { raw: CapInternalResult },
    LowerAmbient { capability: u8 },
    RaiseAmbient { capability: u8 },
    ForwardSignal { signal: ForwardedSignal },
    ResetSignal { signal: ForwardedSignal },
    RegisterChild,
    OpenChannels,
    Await { channel: Channel },
    Notify { channel: Channel, value: u64 },
    SwitchUser { uid: u32 },
    SwitchGroup { gid: u32 },
    Execute { program: Text, arguments: Seq<Text>, environment: Seq<Text> },
    WaitChild,
}

impl View for Operation {
    type V = OperationView;

    open spec fn view(&self) -> OperationView {
        match self {
            Operation::CheckAccess { path } => OperationView::CheckAccess { path: path@ },
            Operation::CreateDirAll { path } => OperationView::CreateDirAll { path: path@ },
            Operation::WriteFile { path, contents } => OperationView::WriteFile {
                path: path@,
                contents: contents@,
            },
            Operation::Unshare { flags } => OperationView::Unshare { flags: *flags },
            Operation::EnterNamespace { path, flag } => OperationView::EnterNamespace {
                path: path@,
                flag: *flag,
            },
            Operation::OffsetBootTime => OperationView::OffsetBootTime,
            Operation::SetHostname { name } => OperationView::SetHostname { name: name@ },
            Operation::SetLimit { resource, limit } => OperationView::SetLimit {
                resource: *resource,
                limit: *limit,
            },
            Operation::Mount { source, target, fstype, flags } => OperationView::Mount {
                source: source.deep_view(),
                target: target@,
                fstype: fstype.deep_view(),
                flags: *flags,
            },
            Operation::ChangeDir { path } => OperationView::ChangeDir { path: path@ },
            Operation::PivotRoot { new_root, put_old } => OperationView::PivotRoot {
                new_root: new_root@,
                put_old: put_old@,
            },
            Operation::Unmount { target, flags } => OperationView::Unmount {
                target: target@,
                flags: *flags,
            },
            Operation::ApplyCapabilities => OperationView::ApplyCapabilities,
            Operation::SetCapabilities { raw } => OperationView::SetCapabilities { raw: *raw },
            Operation::LowerAmbient { capability } => OperationView::LowerAmbient {
                capability: *capability,
            },
            Operation::RaiseAmbient { capability } => OperationView::RaiseAmbient {
                capability: *capability,
            },
            Operation::ForwardSignal { signal } => OperationView::ForwardSignal { signal: *signal },
            Operation::ResetSignal { signal } => OperationView::ResetSignal { signal: *signal },
            Operation::RegisterChild => OperationView::RegisterChild,
            Operation::OpenChannels => OperationView::OpenChannels,
            Operation::Await { channel } => OperationView::Await { channel: *channel },
            Operation::Notify { channel, value } => OperationView::Notify {
                channel: *channel,
                value: *value,
            },
            Operation::SwitchUser { uid } => OperationView::SwitchUser { uid: *uid },
            Operation::SwitchGroup { gid } => OperationView::SwitchGroup { gid: *gid },
            Operation::Execute { program, arguments, environment } => OperationView::Execute {
                program: program@,
                arguments: arguments.deep_view(),
                environment: environment.deep_view(),
            },
            Operation::WaitChild => OperationView::WaitChild,
        }
    }
}

impl DeepView for Operation {
    type V = OperationView;

    open spec fn deep_view(&self) -> OperationView {
        self@
    }
}

/// An operation in its place in the pipeline.
#[derive(Clone, Debug, PartialEq, Eq)]
pub struct Step {
    pub operation: Operation,
    pub stage: Stage,
    pub on_failure: OnFailure,
}

/// A [`Step`] as plain values.
pub struct StepView {
    pub operation: OperationView,
    pub stage: Stage,
    pub on_failure: OnFailure,
}

impl View for Step {
    type V = StepView;

    open spec fn view(&self) -> StepView {
        StepView { operation: self.operation@, stage: self.stage, on_failure: self.on_failure }
    }
}

impl DeepView for Step {
    type V = StepView;

    open spec fn deep_view(&self) -> StepView {
        self@
    }
}

/// A list of steps as plain values.
pub type Steps = Seq<StepView>;

/// The step that performs `operation` in `stage`.
pub open spec fn step_of(operation: OperationView, stage: Stage, on_failure: OnFailure) -> StepView {
    StepView { operation, stage, on_failure }
}

/// `operations`, each as a step of `stage` with the same meaning of failure.
pub open spec fn steps_of(operations: Seq<OperationView>, stage: Stage, on_failure: OnFailure) -> Steps {
    operations.map_values(|operation: OperationView| step_of(operation, stage, on_failure))
}

/// What a runner does after a step.
#[derive(Clone, Copy, Debug, PartialEq, Eq, Structural)]
pub enum Next {
    /// Run the step at this position.
    Run(usize),
    /// Every step that was to run has run.
    Finished,
    /// Stop: a step failed that nothing may follow.
    Aborted,
}

/// The first position after `at` whose step belongs to another stage than the
/// step at `at`; the length of the list where there is none.
pub open spec fn stage_end(steps: Steps, at: int, from: int) -> int
    decreases steps.len() - from,
{
    if from < 0 || from >= steps.len() {
        steps.len() as int
    } else if steps[from].stage != steps[at].stage {
        from
    } else {
        stage_end(steps, at, from + 1)
    }
}

/// The position to go on with after the step at `at`, or the length of the
/// list when nothing is left; `None` when the pipeline stops.
pub open spec fn successor(steps: Steps, at: int, succeeded: bool) -> Option<int> {
    if succeeded || steps[at].on_failure == OnFailure::Continue {
        Some(at + 1)
    } else if steps[at].on_failure == OnFailure::SkipStage {
        Some(stage_end(steps, at, at + 1))
    } else {
        None
    }
}

/// Wraps an operation as a step.
pub fn step(operation: Operation, stage: Stage, on_failure: OnFailure) -> (out: Step)
    ensures
        out@ == step_of(operation@, stage, on_failure),
{
    Step { operation, stage, on_failure }
}

/// Appends `operations` to `steps`, each as a step of `stage` with the same
/// meaning of failure.
pub fn push_steps(
    steps: &mut Vec<Step>,
    operations: Vec<Operation>,
    stage: Stage,
    on_failure: OnFailure,
)
    ensures
        final(steps).deep_view() == old(steps).deep_view() + steps_of(
            operations.deep_view(),
            stage,
            on_failure,
        ),
{
    let ghost before = steps.deep_view();
    let ghost all = operations.deep_view();
    let ghost source = operations@;
    for operation in it: operations
        invariant
            it.seq() == source,
            all.len() == source.len(),
            forall|i: int| 0 <= i < source.len() ==> all[i] == (#[trigger] source[i])@,
            steps.deep_view() == before + steps_of(all.take(it.index() as int), stage, on_failure),
    {
        let ghost so_far = steps.deep_view();
        let ghost n = it.index() as int;
        steps.push(Step { operation, stage, on_failure });
        proof {
            assert(steps.deep_view() =~= so_far.push(step_of(operation@, stage, on_failure)));
            assert(all.take(n + 1) =~= all.take(n).push(all[n]));
            assert(steps.deep_view() =~= before + steps_of(all.take(n + 1), stage, on_failure));
        }
    }
    assert(all.take(all.len() as int) =~= all);
}

/// Moves the calls of `more` to the end of `calls`.
pub fn append_calls(calls: &mut Vec<Operation>, more: Vec<Operation>)
    ensures
        final(calls).deep_view() == old(calls).deep_view() + more.deep_view(),
{
    let ghost before = calls.deep_view();
    let ghost added = more.deep_view();
    let mut more = more;
    calls.append(&mut more);
    assert(calls.deep_view() =~= before + added);
}

/// Moves the steps of `more` to the end of `steps`.
pub fn append_steps(steps: &mut Vec<Step>, more: Vec<Step>)
    ensures
        final(steps).deep_view() == old(steps).deep_view() + more.deep_view(),
{
    let ghost before = steps.deep_view();
    let ghost added = more.deep_view();
    let mut more = more;
    steps.append(&mut more);
    assert(steps.deep_view() =~= before + added);
}

/// What a runner does after the step at `at`, given how that step ended;
/// after a position that holds no step there is nothing left to do.
pub open spec fn next_after(steps: Steps, at: int, succeeded: bool) -> Next {
    if at < 0 || at >= steps.len() {
        Next::Finished
    } else {
        match successor(steps, at, succeeded) {
            Some(to) => if to < steps.len() {
                Next::Run(to as usize)
            } else {
                Next::Finished
            },
            None => Next::Aborted,
        }
    }
}

/// Tells a runner what follows the step at `at`, given how that step ended.
pub fn advance(steps: &Vec<Step>, at: usize, succeeded: bool) -> (next: Next)
    ensures
        next == next_after(steps.deep_view(), at as int, succeeded),
{
    if at >= steps.len() {
        return Next::Finished;
    }
    let ghost all = steps.deep_view();
    let mut to: usize = at + 1;
    if !succeeded {
        match steps[at].on_failure {
            OnFailure::Abort => {
                return Next::Aborted;
            },
            OnFailure::Continue => {},
            OnFailure::SkipStage => {
                while to < steps.len() && stage_is(&steps[to], &steps[at])
                    invariant
                        at < to <= steps.len(),
                        all == steps.deep_view(),
                        stage_end(all, at as int, at + 1) == stage_end(all, at as int, to as int),
                    decreases steps.len() - to,
                {
                    to += 1;
                }
            },
        }
    }
    if to < steps.len() {
        Next::Run(to)
    } else {
        Next::Finished
    }
}

fn stage_is(a: &Step, b: &Step) -> (same: bool)
    ensures
        same == (a@.stage == b@.stage),
{
    a.stage == b.stage
}

/// The pipeline begins with its first step, if it has one.
pub fn begin(steps: &Vec<Step>) -> (next: Next)
    ensures
        next == if steps.len() > 0 {
            Next::Run(0)
        } else {
            Next::Finished
        },
{
    if steps.len() > 0 {
        Next::Run(0)
    } else {
        Next::Finished
    }
}

/// The steps of a supervisor's work, by the process that takes them.
#[derive(Clone, Debug, PartialEq, Eq)]
pub struct Plan {
    /// Taken by the supervisor before it forks.
    pub supervisor: Vec<Step>,
    /// Taken by the supervisor after the fork.
    pub parent: Vec<Step>,
    /// Taken by the child.
    pub child: Vec<Step>,
}

/// A [`Plan`] as plain values.
pub struct PlanView {
    pub supervisor: Steps,
    pub parent: Steps,
    pub child: Steps,
}

impl View for Plan {
    type V = PlanView;

    open spec fn view(&self) -> PlanView {
        PlanView {
            supervisor: self.supervisor.deep_view(),
            parent: self.parent.deep_view(),
            child: self.child.deep_view(),
        }
    }
}

/// The stages that harden a container without being needed for it: what
/// fails in them is lived with.
pub open spec fn best_effort(stage: Stage) -> bool {
    stage == Stage::Cgroup || stage == Stage::BootTime || stage == Stage::Hostname || stage
        == Stage::Limits
}

/// Whether a step keeps to the split between what may fail and what may
/// not. In a best-effort stage no failure stops the pipeline. In every other
/// stage but the launch every failure does. In the launch the switch of user
/// and group may fail, and nothing else.
pub open spec fn keeps_policy(step: StepView) -> bool {
    if best_effort(step.stage) {
        step.on_failure != OnFailure::Abort
    } else if step.stage == Stage::Launch {
        (step.on_failure == OnFailure::Abort) <==> !(step.operation is SwitchUser
            || step.operation is SwitchGroup)
    } else {
        step.on_failure == OnFailure::Abort
    }
}

/// Whether every step of a list keeps to the split.
pub open spec fn keep_policy(steps: Steps) -> bool {
    forall|i: int| 0 <= i < steps.len() ==> keeps_policy(#[trigger] steps[i])
}

/// Two lists that keep to the split do so when joined.
pub proof fn lemma_policy_joined(a: Steps, b: Steps)
    requires
        keep_policy(a),
        keep_policy(b),
    ensures
        keep_policy(a + b),
{
    assert forall|i: int| 0 <= i < (a + b).len() implies keeps_policy(#[trigger] (a + b)[i]) by {
        if i < a.len() {
            assert((a + b)[i] == a[i]);
        } else {
            assert((a + b)[i] == b[i - a.len()]);
        }
    }
}

/// Steps of one stage outside the launch keep to the split if their common
/// meaning of failure suits the stage.
pub proof fn lemma_policy_of_stage(
    operations: Seq<OperationView>,
    stage: Stage,
    on_failure: OnFailure,
)
    requires
        stage != Stage::Launch,
        best_effort(stage) <==> on_failure != OnFailure::Abort,
    ensures
        keep_policy(steps_of(operations, stage, on_failure)),
{
}

proof fn lemma_stage_end(steps: Steps, at: int, from: int)
    requires
        0 <= from <= steps.len(),
    ensures
        from <= stage_end(steps, at, from) <= steps.len(),
        forall|i: int| from <= i < stage_end(steps, at, from) ==> steps[i].stage == steps[at].stage,
        stage_end(steps, at, from) < steps.len() ==> steps[stage_end(steps, at, from)].stage
            != steps[at].stage,
    decreases steps.len() - from,
{
    if from < steps.len() && steps[from].stage == steps[at].stage {
        lemma_stage_end(steps, at, from + 1);
    }
}

/// A runner only ever moves forward, so it comes to an end. After a
/// failure that skips the stage, what it moves over is the rest of that
/// stage and nothing else.
pub proof fn lemma_runner_progress(steps: Steps, at: int, succeeded: bool)
    requires
        0 <= at < steps.len() <= usize::MAX,
    ensures
        match next_after(steps, at, succeeded) {
            Next::Run(to) => at < to < steps.len(),
            _ => true,
        },
        !succeeded && steps[at].on_failure == OnFailure::SkipStage ==> {
            let to = stage_end(steps, at, at + 1);
            &&& at < to <= steps.len()
            &&& forall|i: int| at < i < to ==> steps[i].stage == steps[at].stage
            &&& to < steps.len() ==> steps[to].stage != steps[at].stage
        },
{
    lemma_stage_end(steps, at, at + 1);
}

} // verus!
