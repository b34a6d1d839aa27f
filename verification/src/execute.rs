//! Launching the workload: its resource limits, its identity, its arguments
//! and environment, and what its exit means for the supervisor.

use vstd::prelude::*;

use crate::config::{ExecutableSpec, ExecutableSpecView, ProcessResourceLimits, Text};
use crate::error::Error;
use crate::plan::{
    keep_policy, keeps_policy, lemma_policy_of_stage, push_steps, step, step_of, steps_of,
    OnFailure, Operation, OperationView, Resource, Stage, Step, Steps,
};
use crate::string_map::StringMap;
use crate::text::{clone_texts, contains_nul, glued};

verus! {

/// The call that sets both the soft and the hard limit of `resource`; an
/// absent limit lifts the limit.
pub open spec fn limit_call(resource: Resource, limit: Option<u64>) -> OperationView {
    OperationView::SetLimit { resource, limit }
}

/// The calls that set every resource limit, in the order in which they are
/// made.
pub open spec fn limit_calls(limits: ProcessResourceLimits) -> Seq<OperationView> {
    seq![
        limit_call(Resource::AddressSpace, limits.address_space_size),
        limit_call(Resource::Core, limits.core_size),
        limit_call(Resource::Cpu, limits.cpu_time),
        limit_call(Resource::Data, limits.data_space_size),
        limit_call(Resource::FileSize, limits.file_size),
        limit_call(Resource::LockedMemory, limits.locked_space_size),
        limit_call(Resource::MessageQueue, limits.msgqueue_size),
        limit_call(Resource::Nice, limits.nice_ceiling),
        limit_call(Resource::OpenFiles, limits.open_files),
        limit_call(Resource::Processes, limits.thread_limit),
        limit_call(Resource::ResidentSet, limits.resident_space_size),
        limit_call(Resource::RealTimePriority, limits.real_time_priority),
        limit_call(Resource::RealTimeTime, limits.real_time_limit),
        limit_call(Resource::PendingSignals, limits.pending_signal_limit),
        limit_call(Resource::Stack, limits.main_thread_stack_size),
    ]
}

/// The steps that apply a workload's resource limits: none where it has no
/// limits; else one for every resource, the first failure ending the stage.
pub open spec fn limit_steps(limits: Option<ProcessResourceLimits>) -> Steps {
    match limits {
        Some(limits) => steps_of(limit_calls(limits), Stage::Limits, OnFailure::SkipStage),
        None => Seq::empty(),
    }
}

/// The argument vector of the workload: the program itself, then its
/// arguments.
pub open spec fn argument_vector(spec: ExecutableSpecView) -> Seq<Text> {
    seq![spec.executable->0] + (match spec.arguments {
        Some(arguments) => arguments,
        None => Seq::empty(),
    })
}

/// One entry of the environment as the kernel takes it.
pub open spec fn environment_entry(entry: (Text, Text)) -> Text {
    entry.0 + seq!['='] + entry.1
}

/// The environment of the workload, in the order of its keys.
pub open spec fn environment_vector(spec: ExecutableSpecView) -> Seq<Text> {
    match spec.environment {
        Some(entries) => entries.map_values(|entry: (Text, Text)| environment_entry(entry)),
        None => Seq::empty(),
    }
}

/// Whether one of the texts holds a NUL.
pub open spec fn any_nul(texts: Seq<Text>) -> bool {
    exists|i: int| 0 <= i < texts.len() && (#[trigger] texts[i]).contains('\0')
}

/// Why a workload cannot be launched, if it cannot.
pub open spec fn launch_error(spec: ExecutableSpecView) -> Option<Error> {
    if spec.executable is None {
        Some(Error::MissingExecutable)
    } else if any_nul(argument_vector(spec)) || any_nul(environment_vector(spec)) {
        Some(Error::InteriorNul)
    } else {
        None
    }
}

/// The call that replaces the process image with the workload.
pub open spec fn execute_call(spec: ExecutableSpecView) -> OperationView {
    OperationView::Execute {
        program: spec.executable->0,
        arguments: argument_vector(spec),
        environment: environment_vector(spec),
    }
}

/// The steps that launch a workload: the user id and the group id are
/// switched where they are given, which may fail without harm; the working
/// directory is entered where one is given; the program is executed.
pub open spec fn launch_steps(spec: ExecutableSpecView) -> Steps {
    (match spec.uid {
        Some(uid) => seq![
            step_of(OperationView::SwitchUser { uid }, Stage::Launch, OnFailure::Continue),
        ],
        None => Seq::empty(),
    }) + (match spec.gid {
        Some(gid) => seq![
            step_of(OperationView::SwitchGroup { gid }, Stage::Launch, OnFailure::Continue),
        ],
        None => Seq::empty(),
    }) + (match spec.working_directory {
        Some(path) => seq![
            step_of(OperationView::ChangeDir { path }, Stage::Launch, OnFailure::Abort),
        ],
        None => Seq::empty(),
    }) + seq![step_of(execute_call(spec), Stage::Launch, OnFailure::Abort)]
}

/// The exit status that a wait status carries: its second-lowest byte.
pub open spec fn exit_status(status: i32) -> i32 {
    (status >> 8) & 0xff
}

/// `libc::WEXITSTATUS`: shifts the wait status right by eight bits and keeps
/// the lowest eight of what is left.
#[verifier::external_body]
fn wexitstatus(status: i32) -> (code: i32)
    ensures
        code == exit_status(status),
{
    libc::WEXITSTATUS(status)
}

/// The code with which the supervisor exits, given the wait status of the
/// child it waited for.
pub fn wait_for_pid(status: i32) -> (code: i32)
    ensures
        code == exit_status(status),
        0 <= code <= 255,
{
    let code = wexitstatus(status);
    assert(0 <= ((status >> 8) & 0xff) <= 255) by (bit_vector);
    code
}

/// Which side of a fork a process finds itself on.
#[derive(Clone, Copy, Debug, PartialEq, Eq, Structural)]
pub enum ForkSide {
    /// The process that forked; it waits for the child with this pid.
    Supervisor(i32),
    /// The process that goes on to become the workload.
    Child,
}

/// Reads the result of `fork`: a pid above zero is the supervisor's view of
/// its child; anything else goes on as the child.
pub fn fork_and_wait(pid: i32) -> (side: ForkSide)
    ensures
        side == if pid > 0 {
            ForkSide::Supervisor(pid)
        } else {
            ForkSide::Child
        },
{
    if pid > 0 {
        ForkSide::Supervisor(pid)
    } else {
        ForkSide::Child
    }
}

/// Whether a process has to switch to the user or group id it is to run
/// as: only where the id it has is another. A process that has the id
/// already makes no call, which could only fail for want of privilege.
pub open spec fn id_differs(current: u32, target: u32) -> bool {
    current != target
}

/// Decides whether a step that switches the user or group id makes its
/// call, given the real id of the process and the id to switch to.
pub fn switches_id(current: u32, target: u32) -> (switch: bool)
    ensures
        switch == id_differs(current, target),
{
    current != target
}

/// The call that sets both limits of `resource` to `limit`, or lifts them.
pub fn set_process_limit(resource: Resource, limit: Option<u64>) -> (call: Operation)
    ensures
        call@ == limit_call(resource, limit),
{
    Operation::SetLimit { resource, limit }
}

fn check_texts(texts: &Vec<String>) -> (clean: bool)
    ensures
        clean == !any_nul(texts.deep_view()),
{
    let mut i: usize = 0;
    while i < texts.len()
        invariant
            i <= texts.len(),
            forall|j: int| 0 <= j < i ==> !(#[trigger] texts.deep_view()[j]).contains('\0'),
        decreases texts.len() - i,
    {
        if contains_nul(texts[i].as_str()) {
            assert(texts.deep_view()[i as int].contains('\0'));
            return false;
        }
        i += 1;
    }
    true
}

fn environment_of(environment: &Option<StringMap>) -> (lines: Vec<String>)
    ensures
        lines.deep_view() == (match environment.deep_view() {
            Some(entries) => entries.map_values(|entry: (Text, Text)| environment_entry(entry)),
            None => Seq::empty(),
        }),
{
    let mut lines: Vec<String> = Vec::new();
    match environment {
        Some(map) => {
            let ghost entries = map@;
            let mut i: usize = 0;
            assert(lines.deep_view() =~= entries.take(0).map_values(
                |entry: (Text, Text)| environment_entry(entry),
            ));
            while i < map.len()
                invariant
                    i <= map@.len(),
                    entries == map@,
                    lines.deep_view() == entries.take(i as int).map_values(
                        |entry: (Text, Text)| environment_entry(entry),
                    ),
                decreases map@.len() - i,
            {
                proof {
                    reveal_strlit("=");
                }
                let ghost before = lines.deep_view();
                let mut line = glued(map.key_at(i), "=");
                line.append(map.value_at(i));
                assert(line@ =~= environment_entry(entries[i as int]));
                lines.push(line);
                assert(lines.deep_view() =~= before.push(line@));
                assert(entries.take(i + 1) =~= entries.take(i as int).push(entries[i as int]));
                assert(lines.deep_view() =~= entries.take(i + 1).map_values(
                    |entry: (Text, Text)| environment_entry(entry),
                ));
                i += 1;
            }
            assert(entries.take(entries.len() as int) =~= entries);
        },
        None => {
            assert(lines.deep_view() =~= Seq::<Text>::empty());
        },
    }
    lines
}

impl ExecutableSpec {
    /// Plans the launch of the workload.
    ///
    /// Fails when no program is named, or when the program, an argument or
    /// an environment entry holds a NUL and so cannot be handed to the kernel.
    pub fn execute(&self) -> (planned: Result<Vec<Step>, Error>)
        ensures
            match planned {
                Ok(steps) => launch_error(self@) is None && steps.deep_view() == launch_steps(self@),
                Err(error) => launch_error(self@) == Some(error),
            },
    {
        let program = match &self.executable {
            Some(program) => program.clone(),
            None => {
                return Err(Error::MissingExecutable);
            },
        };
        let mut arguments: Vec<String> = Vec::new();
        arguments.push(program.clone());
        match &self.arguments {
            Some(given) => {
                let mut rest = clone_texts(given);
                let ghost head = arguments.deep_view();
                let ghost tail = rest.deep_view();
                arguments.append(&mut rest);
                assert(arguments.deep_view() =~= head + tail);
            },
            None => {},
        }
        assert(arguments.deep_view() =~= argument_vector(self@));
        let environment = environment_of(&self.environment);
        if !check_texts(&arguments) || !check_texts(&environment) {
            return Err(Error::InteriorNul);
        }
        let mut steps: Vec<Step> = Vec::new();
        if let Some(uid) = self.uid {
            steps.push(step(Operation::SwitchUser { uid }, Stage::Launch, OnFailure::Continue));
        }
        if let Some(gid) = self.gid {
            steps.push(step(Operation::SwitchGroup { gid }, Stage::Launch, OnFailure::Continue));
        }
        if let Some(path) = &self.working_directory {
            steps.push(
                step(Operation::ChangeDir { path: path.clone() }, Stage::Launch, OnFailure::Abort),
            );
        }
        steps.push(
            step(Operation::Execute { program, arguments, environment }, Stage::Launch, OnFailure::Abort),
        );
        assert(steps.deep_view() =~= launch_steps(self@));
        Ok(steps)
    }

    /// Plans the calls that apply the workload's resource limits to the
    /// calling process, from which the workload inherits them.
    pub fn set_process_limits(&self) -> (steps: Vec<Step>)
        ensures
            steps.deep_view() == limit_steps(self@.process_limits),
    {
        let mut steps: Vec<Step> = Vec::new();
        let prlimits = match self.process_limits {
            Some(prlimits) => prlimits,
            None => {
                assert(steps.deep_view() =~= Steps::empty());
                return steps;
            },
        };
        let mut calls: Vec<Operation> = Vec::new();
        calls.push(set_process_limit(Resource::AddressSpace, prlimits.address_space_size));
        calls.push(set_process_limit(Resource::Core, prlimits.core_size));
        calls.push(set_process_limit(Resource::Cpu, prlimits.cpu_time));
        calls.push(set_process_limit(Resource::Data, prlimits.data_space_size));
        calls.push(set_process_limit(Resource::FileSize, prlimits.file_size));
        calls.push(set_process_limit(Resource::LockedMemory, prlimits.locked_space_size));
        calls.push(set_process_limit(Resource::MessageQueue, prlimits.msgqueue_size));
        calls.push(set_process_limit(Resource::Nice, prlimits.nice_ceiling));
        calls.push(set_process_limit(Resource::OpenFiles, prlimits.open_files));
        calls.push(set_process_limit(Resource::Processes, prlimits.thread_limit));
        calls.push(set_process_limit(Resource::ResidentSet, prlimits.resident_space_size));
        calls.push(set_process_limit(Resource::RealTimePriority, prlimits.real_time_priority));
        calls.push(set_process_limit(Resource::RealTimeTime, prlimits.real_time_limit));
        calls.push(set_process_limit(Resource::PendingSignals, prlimits.pending_signal_limit));
        calls.push(set_process_limit(Resource::Stack, prlimits.main_thread_stack_size));
        assert(calls.deep_view() =~= limit_calls(prlimits));
        assert(steps.deep_view() =~= Steps::empty());
        push_steps(&mut steps, calls, Stage::Limits, OnFailure::SkipStage);
        assert(steps.deep_view() =~= limit_steps(self@.process_limits));
        steps
    }
}

/// Every step of a launch belongs to the launch and keeps to the split
/// between what may fail and what may not, and the last one executes the
/// workload.
pub proof fn lemma_launch_stages(spec: ExecutableSpecView, at: int)
    requires
        0 <= at < launch_steps(spec).len(),
    ensures
        launch_steps(spec)[at].stage == Stage::Launch,
        keeps_policy(launch_steps(spec)[at]),
        launch_steps(spec).last().operation == execute_call(spec),
{
    let uid: Steps = match spec.uid {
        Some(uid) => seq![
            step_of(OperationView::SwitchUser { uid }, Stage::Launch, OnFailure::Continue),
        ],
        None => Seq::empty(),
    };
    let gid: Steps = match spec.gid {
        Some(gid) => seq![
            step_of(OperationView::SwitchGroup { gid }, Stage::Launch, OnFailure::Continue),
        ],
        None => Seq::empty(),
    };
    let dir: Steps = match spec.working_directory {
        Some(path) => seq![
            step_of(OperationView::ChangeDir { path }, Stage::Launch, OnFailure::Abort),
        ],
        None => Seq::empty(),
    };
    let run: Steps = seq![step_of(execute_call(spec), Stage::Launch, OnFailure::Abort)];
    let launch = launch_steps(spec);
    assert(launch == uid + gid + dir + run);
    assert(launch[launch.len() - 1] == run[0]);
    if at < uid.len() {
        assert(launch[at] == uid[at]);
    } else if at < uid.len() + gid.len() {
        assert(launch[at] == gid[at - uid.len()]);
    } else if at < uid.len() + gid.len() + dir.len() {
        assert(launch[at] == dir[at - uid.len() - gid.len()]);
    } else {
        assert(launch[at] == run[at - uid.len() - gid.len() - dir.len()]);
    }
}

/// The steps of a launch and of the resource limits keep to the split
/// between what may fail and what may not.
pub proof fn lemma_workload_policy(spec: ExecutableSpecView)
    ensures
        keep_policy(launch_steps(spec)),
        keep_policy(limit_steps(spec.process_limits)),
{
    let launch = launch_steps(spec);
    assert forall|at: int| 0 <= at < launch.len() implies keeps_policy(#[trigger] launch[at]) by {
        lemma_launch_stages(spec, at);
    }
    if spec.process_limits is Some {
        lemma_policy_of_stage(
            limit_calls(spec.process_limits->0),
            Stage::Limits,
            OnFailure::SkipStage,
        );
    }
}

} // verus!
