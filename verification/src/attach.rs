//! Joining a container that runs: the steps that take a process into the
//! namespaces of the container's first process and start a workload there.

use vstd::prelude::*;

use crate::config::{AttachRequest, AttachRequestView};
use crate::error::Error;
use crate::execute::{launch_error, launch_steps, limit_steps};
use crate::namespace::{namespaces_or_default, requested_namespaces, Namespace};
use crate::plan::{
    append_steps, keep_policy, keeps_policy, lemma_policy_joined, lemma_policy_of_stage,
    push_steps, step, step_of, steps_of, OnFailure, Operation, OperationView, Plan, PlanView,
    Stage, Step, Steps,
};
use crate::text::decimal_string;
use crate::unshare::{setns, setns_calls};
use crate::wrap::{
    capabilities_known, cgroup_entry_steps, check_capabilities, enter_cgroup, first_child,
    first_child_pid_of, identity_of,
};

verus! {

/// The namespaces to join: those of the request, or the default.
pub open spec fn joined_namespaces(request: AttachRequestView) -> Seq<Namespace> {
    namespaces_or_default(request.namespaces)
}

/// Why a request to attach is refused by validation, if it is.
pub open spec fn attach_validation_error(request: AttachRequestView) -> Option<Error> {
    if request.workload.executable is None {
        Some(Error::MissingExecutable)
    } else if request.capabilities is Some && !capabilities_known(request.capabilities->0) {
        Some(Error::UnknownCapability)
    } else {
        None
    }
}

/// Why no attachment can be planned, if none can: validation refuses the
/// request, its workload cannot be handed to the kernel, or the list of the
/// supervisor's children names no first child.
pub open spec fn attach_error(request: AttachRequestView, children: Seq<char>) -> Option<Error> {
    match attach_validation_error(request) {
        Some(error) => Some(error),
        None => match launch_error(request.workload) {
            Some(error) => Some(error),
            None => if first_child(children) is None {
                Some(Error::NoChildProcess)
            } else {
                None
            },
        },
    }
}

/// The steps that place the attaching supervisor in the container's cgroup.
pub open spec fn attach_cgroup_steps(request: AttachRequestView, supervisor: u32) -> Steps {
    cgroup_entry_steps(
        request.cgroupfs,
        identity_of(request.workload_id, supervisor),
        Seq::empty(),
        supervisor,
    )
}

/// What the attaching supervisor does before it forks: it enters the
/// container's cgroup as far as it can, enters the namespaces of the
/// container's first process, bounds its resources as far as it can, and
/// applies the capability changes.
pub open spec fn attach_supervisor_steps(
    request: AttachRequestView,
    supervisor: u32,
    target: i32,
) -> Steps {
    attach_cgroup_steps(request, supervisor) + steps_of(
        setns_calls(target as int, joined_namespaces(request)),
        Stage::Namespaces,
        OnFailure::Abort,
    ) + limit_steps(request.workload.process_limits) + (if request.capabilities is Some {
        seq![step_of(OperationView::ApplyCapabilities, Stage::Capabilities, OnFailure::Abort)]
    } else {
        Seq::empty()
    })
}

/// The plan of an attachment. The fork is needed because a process that
/// enters a PID namespace stays outside it; only its children are inside.
pub open spec fn attach_plan(
    request: AttachRequestView,
    supervisor: u32,
    target: i32,
) -> PlanView {
    PlanView {
        supervisor: attach_supervisor_steps(request, supervisor, target),
        parent: seq![step_of(OperationView::WaitChild, Stage::Wait, OnFailure::Abort)],
        child: launch_steps(request.workload),
    }
}

impl AttachRequest {
    /// The name by which the container goes, given the supervisor's pid.
    pub fn identity(&self, supervisor: u32) -> (identity: String)
        ensures
            identity@ == identity_of(self@.workload_id, supervisor),
    {
        match &self.workload_id {
            Some(wid) => wid.clone(),
            None => decimal_string(supervisor as u64),
        }
    }

    /// Plans the entry of the supervisor into the container's cgroup.
    pub fn attach_cgroup(&self, supervisor: u32) -> (steps: Vec<Step>)
        ensures
            steps.deep_view() == attach_cgroup_steps(self@, supervisor),
    {
        enter_cgroup(&self.cgroupfs, self.identity(supervisor).as_str(), None, supervisor)
    }

    /// The namespaces to join.
    pub fn namespaces(&self) -> (kinds: Vec<Namespace>)
        ensures
            kinds@ == joined_namespaces(self@),
    {
        requested_namespaces(&self.namespaces)
    }

    /// Checks the request before anything is done for it.
    pub fn validate(&self) -> (checked: Result<(), Error>)
        ensures
            match checked {
                Ok(_) => attach_validation_error(self@) is None,
                Err(error) => attach_validation_error(self@) == Some(error),
            },
    {
        if self.workload.executable.is_none() {
            return Err(Error::MissingExecutable);
        }
        if let Some(capabilities) = &self.capabilities {
            if !check_capabilities(capabilities) {
                return Err(Error::UnknownCapability);
            }
        }
        Ok(())
    }

    /// Plans the attachment for the supervisor whose pid is `supervisor`,
    /// given the kernel's list of the children of the container's
    /// supervisor. The process to join is the first of them: it is the one
    /// that lives in the container's namespaces.
    ///
    /// Fails, with nothing planned, if and only if validation refuses the
    /// request, its workload cannot be handed to the kernel, or the list
    /// names no first child.
    pub fn wrap(&self, supervisor: u32, children: &str) -> (planned: Result<Plan, Error>)
        ensures
            match planned {
                Ok(plan) => attach_error(self@, children@) is None && plan@ == attach_plan(
                    self@,
                    supervisor,
                    first_child(children@)->0,
                ),
                Err(error) => attach_error(self@, children@) == Some(error),
            },
    {
        self.validate()?;
        let launch = self.workload.execute()?;
        let target_ns = self.namespaces();
        let target_pid = first_child_pid_of(children)?;

        let mut steps = self.attach_cgroup(supervisor);
        push_steps(&mut steps, setns(target_pid, &target_ns), Stage::Namespaces, OnFailure::Abort);
        append_steps(&mut steps, self.workload.set_process_limits());
        if self.capabilities.is_some() {
            steps.push(step(Operation::ApplyCapabilities, Stage::Capabilities, OnFailure::Abort));
        }
        assert(steps.deep_view() =~= attach_supervisor_steps(self@, supervisor, target_pid));

        let mut parent: Vec<Step> = Vec::new();
        parent.push(step(Operation::WaitChild, Stage::Wait, OnFailure::Abort));
        assert(parent.deep_view() =~= seq![
            step_of(OperationView::WaitChild, Stage::Wait, OnFailure::Abort),
        ]);

        Ok(Plan { supervisor: steps, parent, child: launch })
    }
}

/// The plan of an attachment keeps to the split between what may fail and
/// what may not: cgroup and resource limits are best effort; the namespaces
/// and the capabilities are not.
pub proof fn lemma_attach_policy(request: AttachRequestView, supervisor: u32, target: i32)
    ensures
        keep_policy(attach_plan(request, supervisor, target).supervisor),
        keep_policy(attach_plan(request, supervisor, target).parent),
        keep_policy(attach_plan(request, supervisor, target).child),
{
    crate::execute::lemma_workload_policy(request.workload);
    crate::wrap::lemma_cgroup_policy(
        request.cgroupfs,
        identity_of(request.workload_id, supervisor),
        Seq::empty(),
        supervisor,
    );
    let cgroup = attach_cgroup_steps(request, supervisor);
    let join = steps_of(
        setns_calls(target as int, joined_namespaces(request)),
        Stage::Namespaces,
        OnFailure::Abort,
    );
    let limits = limit_steps(request.workload.process_limits);
    let caps: Steps = if request.capabilities is Some {
        seq![step_of(OperationView::ApplyCapabilities, Stage::Capabilities, OnFailure::Abort)]
    } else {
        Seq::empty()
    };
    lemma_policy_of_stage(
        setns_calls(target as int, joined_namespaces(request)),
        Stage::Namespaces,
        OnFailure::Abort,
    );
    lemma_policy_joined(cgroup, join);
    lemma_policy_joined(cgroup + join, limits);
    lemma_policy_joined(cgroup + join + limits, caps);
    let parent = attach_plan(request, supervisor, target).parent;
    assert(keeps_policy(parent[0]));
}

} // verus!
