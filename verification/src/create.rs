//! Building a container: the steps of the supervisor before it forks, of the
//! supervisor after the fork, and of the child that becomes the workload.

use vstd::prelude::*;

use crate::config::{
    CreateDirMutation, CreateRequest, CreateRequestView, MountSpec, MountSpecView, Mutation,
    MutationView, Text,
};
use crate::error::Error;
use crate::execute::{launch_error, launch_steps, limit_steps};
use crate::mount::{mount_calls, pivot_calls};
use crate::namespace::{
    clone_flag, clone_flags_of, has_namespace, lemma_flags_membership, lemma_without_membership,
    namespaces_or_default, remove_namespace, requested_namespaces, without, Namespace,
};
use crate::plan::{
    append_calls, append_steps, keep_policy, keeps_policy, lemma_policy_joined,
    lemma_policy_of_stage, push_steps, step, step_of, steps_of, Channel, OnFailure, Operation,
    OperationView, Plan, PlanView, Stage, Step, Steps,
};
use crate::signal::{
    forward_steps, reset_child_signal_handlers, reset_steps, setup_parent_signal_handlers,
};
use crate::text::{
    clone_text, decimal_string, join_path, joined_path, owned, same_text, signed_decimal_string,
};
use crate::unshare::{unshare, unshare_call};
use crate::wrap::{
    capabilities_known, cgroup_entry_steps, check_capabilities, container_name, enter_cgroup,
    identity_of, name_container, proc_file, proc_path, render_uidgid_mappings, rendered_mappings,
    timens_offsets,
};

verus! {

/// The mount that makes the whole old tree private, so that nothing done
/// to it afterwards reaches the host.
pub open spec fn old_root_mount() -> MountSpecView {
    MountSpecView {
        source: None,
        target: "/"@,
        fstype: None,
        bind: false,
        recurse: true,
        unshare: true,
        safe: false,
        read_only: false,
        create_mountpoint: false,
    }
}

/// The mount that binds the new root onto itself, which makes it a mount
/// point that the root can be pivoted to.
pub open spec fn new_root_mount(rootfs: Text) -> MountSpecView {
    MountSpecView {
        source: Some(rootfs),
        target: rootfs,
        fstype: Some("none"@),
        bind: true,
        recurse: true,
        unshare: false,
        safe: false,
        read_only: false,
        create_mountpoint: false,
    }
}

/// The mount of the process filesystem below the new root.
pub open spec fn proc_mount(rootfs: Text) -> MountSpecView {
    MountSpecView {
        source: Some("proc"@),
        target: join_path(rootfs, "proc"@),
        fstype: Some("proc"@),
        bind: false,
        recurse: true,
        unshare: false,
        safe: true,
        read_only: false,
        create_mountpoint: false,
    }
}

/// A mount of the request as it is realised: its target below the new root,
/// everything else as asked.
pub open spec fn parented(rootfs: Text, mount: MountSpecView) -> MountSpecView {
    MountSpecView {
        source: mount.source,
        target: join_path(rootfs, mount.target),
        fstype: mount.fstype,
        bind: mount.bind,
        recurse: mount.recurse,
        unshare: mount.unshare,
        safe: mount.safe,
        read_only: mount.read_only,
        create_mountpoint: mount.create_mountpoint,
    }
}

/// The calls that realise the request's mounts below the new root, in the
/// order of the request.
pub open spec fn parented_calls(rootfs: Text, mounts: Seq<MountSpecView>) -> Seq<OperationView>
    decreases mounts.len(),
{
    if mounts.len() == 0 {
        Seq::empty()
    } else {
        parented_calls(rootfs, mounts.drop_last()) + mount_calls(parented(rootfs, mounts.last()))
    }
}

/// The call that makes one change to the new root's tree.
pub open spec fn mutation_call(rootfs: Text, mutation: MutationView) -> OperationView {
    match mutation {
        MutationView::CreateDir { target } => OperationView::CreateDirAll {
            path: join_path(rootfs, target),
        },
    }
}

/// A list of mounts that may be absent, as a list.
pub open spec fn mounts_of(request: CreateRequestView) -> Seq<MountSpecView> {
    match request.mounts {
        Some(mounts) => mounts,
        None => Seq::empty(),
    }
}

/// A list of mutations that may be absent, as a list.
pub open spec fn mutations_of(request: CreateRequestView) -> Seq<MutationView> {
    match request.mutations {
        Some(mutations) => mutations,
        None => Seq::empty(),
    }
}

/// The calls that build the mount tree of the container and make it the
/// root. The old tree is made private before anything is bound; the process
/// filesystem is mounted before the request's mounts, so that one of them
/// may lie over it; the pivot comes last, so that a mount that fails leaves
/// no half-built root behind.
pub open spec fn pivot_fs_calls(request: CreateRequestView) -> Seq<OperationView> {
    let rootfs = request.rootfs->0;
    mount_calls(old_root_mount()) + mount_calls(new_root_mount(rootfs)) + mount_calls(proc_mount(rootfs))
        + parented_calls(rootfs, mounts_of(request)) + mutations_of(request).map_values(
        |mutation: MutationView| mutation_call(rootfs, mutation),
    ) + pivot_calls(rootfs)
}

/// What is wrong with a mount, if anything: its target is empty, or it is a
/// bind mount without a source that is not the change of propagation on
/// `/`.
pub open spec fn mount_fault(mount: MountSpecView) -> Option<Error> {
    if mount.target.len() == 0 {
        Some(Error::EmptyMountTarget)
    } else if mount.bind && mount.source is None && !(mount.unshare && mount.target == "/"@) {
        Some(Error::BindWithoutSource)
    } else {
        None
    }
}

/// The fault of the first faulty mount of a list.
pub open spec fn mounts_fault(mounts: Seq<MountSpecView>) -> Option<Error>
    decreases mounts.len(),
{
    if mounts.len() == 0 {
        None
    } else {
        match mounts_fault(mounts.drop_last()) {
            Some(fault) => Some(fault),
            None => mount_fault(mounts.last()),
        }
    }
}

/// Why a request to create is refused by validation, if it is: it names no
/// program, no root filesystem, a capability that does not exist, or a
/// mount that cannot be made.
pub open spec fn validation_error(request: CreateRequestView) -> Option<Error> {
    if request.workload.executable is None {
        Some(Error::MissingExecutable)
    } else if request.rootfs is None {
        Some(Error::MissingRootfs)
    } else if request.capabilities is Some && !capabilities_known(request.capabilities->0) {
        Some(Error::UnknownCapability)
    } else {
        mounts_fault(mounts_of(request))
    }
}

/// Why no container can be planned for a request, if none can: validation
/// refuses it, or its workload cannot be handed to the kernel.
pub open spec fn create_error(request: CreateRequestView) -> Option<Error> {
    match validation_error(request) {
        Some(error) => Some(error),
        None => launch_error(request.workload),
    }
}

/// The namespaces of the container: those of the request, or the default.
pub open spec fn target_namespaces(request: CreateRequestView) -> Seq<Namespace> {
    namespaces_or_default(request.namespaces)
}

/// Whether the user namespace is entered in two stages: by the child, after
/// the mount tree is built, and not by the supervisor with the others.
pub open spec fn two_stage(request: CreateRequestView) -> bool {
    request.skip_two_stage_userns != Some(true)
}

/// The namespaces that the supervisor leaves before it forks: all that are
/// asked for but the user namespace, which stays for the second stage.
pub open spec fn first_level_namespaces(request: CreateRequestView) -> Seq<Namespace> {
    if two_stage(request) {
        without(target_namespaces(request), Namespace::User)
    } else {
        target_namespaces(request)
    }
}

/// The host name of the container: the one the request gives, or the
/// container's name.
pub open spec fn hostname_of(request: CreateRequestView, supervisor: u32) -> Text {
    match request.hostname {
        Some(hostname) => hostname,
        None => container_name(identity_of(request.workload_id, supervisor)),
    }
}

/// The steps that place the supervisor in its cgroup: none where the
/// request sets no limits.
pub open spec fn cgroup_steps(request: CreateRequestView, supervisor: u32) -> Steps {
    match request.limits {
        Some(limits) => cgroup_entry_steps(
            request.cgroupfs,
            identity_of(request.workload_id, supervisor),
            limits,
            supervisor,
        ),
        None => Seq::empty(),
    }
}

/// The calls that give the user namespace of process `pid` its id maps,
/// from outside: the uid map, the denial of `setgroups` unless the request
/// turns it off, the gid map.
pub open spec fn userns_calls(request: CreateRequestView, pid: int) -> Seq<OperationView> {
    (match request.uid_mappings {
        Some(mappings) => seq![
            OperationView::WriteFile {
                path: proc_file(pid, "uid_map"@),
                contents: rendered_mappings(mappings),
            },
        ],
        None => Seq::empty(),
    }) + (if request.setgroups_deny != Some(false) {
        seq![OperationView::WriteFile { path: proc_file(pid, "setgroups"@), contents: "deny"@ }]
    } else {
        Seq::empty()
    }) + (match request.gid_mappings {
        Some(mappings) => seq![
            OperationView::WriteFile {
                path: proc_file(pid, "gid_map"@),
                contents: rendered_mappings(mappings),
            },
        ],
        None => Seq::empty(),
    })
}

/// The steps that write the id maps of process `pid`; the failure of any
/// of them stops the pipeline.
pub open spec fn userns_steps(request: CreateRequestView, pid: int) -> Steps {
    steps_of(userns_calls(request, pid), Stage::IdMaps, OnFailure::Abort)
}

/// What the supervisor does before it forks. It enters its cgroup, leaves
/// the first-level namespaces, starts the boot clock over if the container
/// has clocks of its own, names the host, bounds its resources, installs
/// the handlers that will pass signals on, and makes the two counters over
/// which it and the child will wait for each other. Cgroup, clock, host
/// name and resource limits are best effort; the rest is not.
pub open spec fn supervisor_steps(request: CreateRequestView, supervisor: u32) -> Steps {
    cgroup_steps(request, supervisor) + seq![
        step_of(
            unshare_call(first_level_namespaces(request)),
            Stage::Namespaces,
            OnFailure::Abort,
        ),
    ] + (if target_namespaces(request).contains(Namespace::Time) {
        seq![step_of(OperationView::OffsetBootTime, Stage::BootTime, OnFailure::Continue)]
    } else {
        Seq::empty()
    }) + seq![
        step_of(
            OperationView::SetHostname { name: hostname_of(request, supervisor) },
            Stage::Hostname,
            OnFailure::Continue,
        ),
    ] + limit_steps(request.workload.process_limits) + forward_steps() + seq![
        step_of(OperationView::OpenChannels, Stage::Rendezvous, OnFailure::Abort),
    ]
}

/// What the supervisor does after the fork. It makes the child the one
/// that caught signals go to, waits until the child has entered its user
/// namespace, writes the id maps of pid 1 where there is a user namespace,
/// lets the child go on, and waits for it to exit.
pub open spec fn parent_steps(request: CreateRequestView) -> Steps {
    seq![
        step_of(OperationView::RegisterChild, Stage::Signals, OnFailure::Abort),
        step_of(
            OperationView::Await { channel: Channel::Parent },
            Stage::Rendezvous,
            OnFailure::Abort,
        ),
    ] + (if target_namespaces(request).contains(Namespace::User) {
        userns_steps(request, 1)
    } else {
        Seq::empty()
    }) + seq![
        step_of(
            OperationView::Notify { channel: Channel::Child, value: 1 },
            Stage::Rendezvous,
            OnFailure::Abort,
        ),
        step_of(OperationView::WaitChild, Stage::Wait, OnFailure::Abort),
    ]
}

/// What the child does before it meets the supervisor. It takes the
/// default signal dispositions back, builds the mount tree and pivots into
/// it where there is a mount namespace, enters the user namespace where
/// that was left for the second stage, and applies the capability changes.
pub open spec fn child_prelude(request: CreateRequestView) -> Steps {
    reset_steps() + (if target_namespaces(request).contains(Namespace::Mount) {
        steps_of(pivot_fs_calls(request), Stage::Filesystem, OnFailure::Abort)
    } else {
        Seq::empty()
    }) + (if target_namespaces(request).contains(Namespace::User) && two_stage(request) {
        seq![step_of(unshare_call(seq![Namespace::User]), Stage::Namespaces, OnFailure::Abort)]
    } else {
        Seq::empty()
    }) + (if request.capabilities is Some {
        seq![step_of(OperationView::ApplyCapabilities, Stage::Capabilities, OnFailure::Abort)]
    } else {
        Seq::empty()
    })
}

/// The two steps by which the child meets the supervisor: it tells the
/// supervisor that the id maps can be written, and waits until they are.
pub open spec fn child_meeting() -> Steps {
    seq![
        step_of(
            OperationView::Notify { channel: Channel::Parent, value: 2 },
            Stage::Rendezvous,
            OnFailure::Abort,
        ),
        step_of(
            OperationView::Await { channel: Channel::Child },
            Stage::Rendezvous,
            OnFailure::Abort,
        ),
    ]
}

/// What the child does: its preparations, the meeting with the supervisor,
/// and the launch of the workload.
pub open spec fn child_steps(request: CreateRequestView) -> Steps {
    child_prelude(request) + child_meeting() + launch_steps(request.workload)
}

/// The plan of the container that a request describes.
pub open spec fn create_plan(request: CreateRequestView, supervisor: u32) -> PlanView {
    PlanView {
        supervisor: supervisor_steps(request, supervisor),
        parent: parent_steps(request),
        child: child_steps(request),
    }
}

fn check_mount(mount: &MountSpec) -> (fault: Option<Error>)
    ensures
        fault == mount_fault(mount@),
{
    let target = mount.target.as_str();
    if target.unicode_len() == 0 {
        Some(Error::EmptyMountTarget)
    } else if mount.bind && mount.source.is_none() && !(mount.unshare && same_text(target, "/")) {
        Some(Error::BindWithoutSource)
    } else {
        None
    }
}

fn check_mounts(mounts: &Option<Vec<MountSpec>>) -> (fault: Option<Error>)
    ensures
        fault == mounts_fault(
            match mounts.deep_view() {
                Some(mounts) => mounts,
                None => Seq::empty(),
            },
        ),
{
    match mounts {
        Some(mounts) => {
            let ghost all = mounts.deep_view();
            let mut fault: Option<Error> = None;
            let mut i: usize = 0;
            assert(all.take(0) =~= Seq::<MountSpecView>::empty());
            while i < mounts.len()
                invariant
                    i <= mounts.len(),
                    all == mounts.deep_view(),
                    fault == mounts_fault(all.take(i as int)),
                decreases mounts.len() - i,
            {
                assert(all.take(i + 1).drop_last() =~= all.take(i as int));
                if fault.is_none() {
                    fault = check_mount(&mounts[i]);
                }
                i += 1;
            }
            assert(all.take(mounts.len() as int) =~= all);
            fault
        },
        None => None,
    }
}

impl CreateDirMutation {
    /// The call that creates the directory below `rootfs`.
    pub fn mutate(&self, rootfs: &str) -> (call: Operation)
        ensures
            call@ == (OperationView::CreateDirAll { path: join_path(rootfs@, self.target@) }),
    {
        Operation::CreateDirAll { path: joined_path(rootfs, self.target.as_str()) }
    }
}

impl CreateRequest {
    /// The name by which the container goes, given the supervisor's pid.
    pub fn identity(&self, supervisor: u32) -> (identity: String)
        ensures
            identity@ == identity_of(self@.workload_id, supervisor),
    {
        match &self.workload_id {
            Some(wid) => wid.clone(),
            None => decimal_string(supervisor as u64),
        }
    }

    /// The call that starts the boot clock of the container over, given
    /// the reading of the supervisor's boot clock in seconds; a clock that
    /// cannot be read counts as zero.
    pub fn update_boottime(&self, reading: Option<i64>) -> (call: Operation)
        ensures
            call@ == (OperationView::WriteFile {
                path: "/proc/self/timens_offsets"@,
                contents: timens_offsets(
                    match reading {
                        Some(seconds) => seconds as int,
                        None => 0,
                    },
                ),
            }),
    {
        let seconds: i64 = match reading {
            Some(seconds) => seconds,
            None => 0,
        };
        let mut timecfg = owned("boottime ");
        if seconds <= 1 {
            timecfg.append("0");
        } else {
            timecfg.append(signed_decimal_string(-(seconds - 1)).as_str());
        }
        timecfg.append(" 0\n");
        assert(timecfg@ =~= timens_offsets(seconds as int));
        Operation::WriteFile { path: owned("/proc/self/timens_offsets"), contents: timecfg }
    }

    /// Plans the writing of the id maps of process `pid`.
    pub fn prepare_userns(&self, pid: i32) -> (steps: Vec<Step>)
        ensures
            steps.deep_view() == userns_steps(self@, pid as int),
    {
        let mut calls: Vec<Operation> = Vec::new();
        if let Some(uid_mappings) = &self.uid_mappings {
            calls.push(
                Operation::WriteFile {
                    path: proc_path(pid, "uid_map"),
                    contents: render_uidgid_mappings(uid_mappings),
                },
            );
        }
        let sgd = match self.setgroups_deny {
            Some(deny) => deny,
            None => true,
        };
        if sgd {
            calls.push(
                Operation::WriteFile { path: proc_path(pid, "setgroups"), contents: owned("deny") },
            );
        }
        if let Some(gid_mappings) = &self.gid_mappings {
            calls.push(
                Operation::WriteFile {
                    path: proc_path(pid, "gid_map"),
                    contents: render_uidgid_mappings(gid_mappings),
                },
            );
        }
        let mut steps: Vec<Step> = Vec::new();
        assert(steps.deep_view() =~= Steps::empty());
        let ghost planned = calls.deep_view();
        push_steps(&mut steps, calls, Stage::IdMaps, OnFailure::Abort);
        assert(steps.deep_view() =~= steps_of(planned, Stage::IdMaps, OnFailure::Abort));
        assert(planned =~= userns_calls(self@, pid as int));
        steps
    }

    /// The call that names the host of the container: as the request says,
    /// or after the container.
    pub fn update_hostname(&self, supervisor: u32) -> (call: Operation)
        ensures
            call@ == (OperationView::SetHostname { name: hostname_of(self@, supervisor) }),
    {
        let final_hostname = match &self.hostname {
            Some(hostname) => hostname.clone(),
            None => name_container(self.identity(supervisor).as_str()),
        };
        Operation::SetHostname { name: final_hostname }
    }

    /// Plans the entry of the supervisor into the cgroup that enforces the
    /// request's limits; nothing where it sets none.
    pub fn prepare_cgroup(&self, supervisor: u32) -> (steps: Vec<Step>)
        ensures
            steps.deep_view() == cgroup_steps(self@, supervisor),
    {
        match &self.limits {
            Some(limits) => enter_cgroup(
                &self.cgroupfs,
                self.identity(supervisor).as_str(),
                Some(limits),
                supervisor,
            ),
            None => {
                let steps: Vec<Step> = Vec::new();
                assert(steps.deep_view() =~= Steps::empty());
                steps
            },
        }
    }

    /// Plans the mount tree of the container and the pivot into it.
    ///
    /// Fails if and only if the request names no root filesystem.
    pub fn pivot_fs(&self) -> (planned: Result<Vec<Step>, Error>)
        ensures
            match planned {
                Ok(steps) => self@.rootfs is Some && steps.deep_view() == steps_of(
                    pivot_fs_calls(self@),
                    Stage::Filesystem,
                    OnFailure::Abort,
                ),
                Err(error) => self@.rootfs is None && error == Error::MissingRootfs,
            },
    {
        let rootfs = match &self.rootfs {
            Some(rootfs) => rootfs.clone(),
            None => {
                return Err(Error::MissingRootfs);
            },
        };
        let ghost root = rootfs@;
        let oldroot = MountSpec {
            source: None,
            target: owned("/"),
            fstype: None,
            bind: false,
            recurse: true,
            unshare: true,
            safe: false,
            read_only: false,
            create_mountpoint: false,
        };
        let newroot = MountSpec {
            source: Some(rootfs.clone()),
            target: rootfs.clone(),
            fstype: Some(owned("none")),
            bind: true,
            recurse: true,
            unshare: false,
            safe: false,
            read_only: false,
            create_mountpoint: false,
        };
        let procfs = MountSpec {
            source: Some(owned("proc")),
            target: joined_path(rootfs.as_str(), "proc"),
            fstype: Some(owned("proc")),
            bind: false,
            recurse: true,
            unshare: false,
            safe: true,
            read_only: false,
            create_mountpoint: false,
        };
        assert(oldroot@ == old_root_mount());
        assert(newroot@ == new_root_mount(root));
        assert(procfs@ == proc_mount(root));
        let mut calls = oldroot.mount();
        append_calls(&mut calls, newroot.mount());
        append_calls(&mut calls, procfs.mount());
        let ghost fixed = calls.deep_view();
        let ghost asked = mounts_of(self@);
        if let Some(mounts) = &self.mounts {
            let mut i: usize = 0;
            assert(asked.take(0) =~= Seq::<MountSpecView>::empty());
            assert(calls.deep_view() =~= fixed + parented_calls(root, asked.take(0)));
            while i < mounts.len()
                invariant
                    i <= mounts.len(),
                    asked == mounts.deep_view(),
                    root == rootfs@,
                    calls.deep_view() == fixed + parented_calls(root, asked.take(i as int)),
                decreases mounts.len() - i,
            {
                let mount = &mounts[i];
                let parented_mount = MountSpec {
                    source: clone_text(&mount.source),
                    target: joined_path(rootfs.as_str(), mount.target.as_str()),
                    fstype: clone_text(&mount.fstype),
                    bind: mount.bind,
                    recurse: mount.recurse,
                    unshare: mount.unshare,
                    safe: mount.safe,
                    read_only: mount.read_only,
                    create_mountpoint: mount.create_mountpoint,
                };
                assert(parented_mount@ == parented(root, asked[i as int]));
                let ghost before = calls.deep_view();
                append_calls(&mut calls, parented_mount.mount());
                proof {
                    assert(asked.take(i + 1).drop_last() =~= asked.take(i as int));
                    assert(calls.deep_view() =~= fixed + parented_calls(root, asked.take(i + 1)));
                }
                i += 1;
            }
            assert(asked.take(mounts.len() as int) =~= asked);
        } else {
            assert(calls.deep_view() =~= fixed + parented_calls(root, asked));
        }
        let ghost mounted = calls.deep_view();
        let ghost changes = mutations_of(self@);
        if let Some(mutations) = &self.mutations {
            let mut i: usize = 0;
            assert(calls.deep_view() =~= mounted + changes.take(0).map_values(
                |mutation: MutationView| mutation_call(root, mutation),
            ));
            while i < mutations.len()
                invariant
                    i <= mutations.len(),
                    changes == mutations.deep_view(),
                    root == rootfs@,
                    calls.deep_view() == mounted + changes.take(i as int).map_values(
                        |mutation: MutationView| mutation_call(root, mutation),
                    ),
                decreases mutations.len() - i,
            {
                let ghost before = calls.deep_view();
                let call = match &mutations[i] {
                    Mutation::CreateDir(cdm) => cdm.mutate(rootfs.as_str()),
                };
                assert(call@ == mutation_call(root, changes[i as int]));
                calls.push(call);
                proof {
                    assert(calls.deep_view() =~= before.push(call@));
                    assert(changes.take(i + 1) =~= changes.take(i as int).push(changes[i as int]));
                    assert(calls.deep_view() =~= mounted + changes.take(i + 1).map_values(
                        |mutation: MutationView| mutation_call(root, mutation),
                    ));
                }
                i += 1;
            }
            assert(changes.take(mutations.len() as int) =~= changes);
        } else {
            assert(calls.deep_view() =~= mounted + changes.map_values(
                |mutation: MutationView| mutation_call(root, mutation),
            ));
        }
        append_calls(&mut calls, newroot.pivot());
        assert(calls.deep_view() =~= pivot_fs_calls(self@));
        let mut steps: Vec<Step> = Vec::new();
        assert(steps.deep_view() =~= Steps::empty());
        push_steps(&mut steps, calls, Stage::Filesystem, OnFailure::Abort);
        Ok(steps)
    }

    /// The namespaces of the container.
    pub fn namespaces(&self) -> (kinds: Vec<Namespace>)
        ensures
            kinds@ == target_namespaces(self@),
    {
        requested_namespaces(&self.namespaces)
    }

    /// The namespaces that the supervisor leaves before it forks.
    pub fn first_level(&self) -> (kinds: Vec<Namespace>)
        ensures
            kinds@ == first_level_namespaces(self@),
    {
        let target_ns = self.namespaces();
        match self.skip_two_stage_userns {
            Some(true) => target_ns,
            _ => remove_namespace(&target_ns, Namespace::User),
        }
    }

    /// Checks the request before anything is done for it.
    pub fn validate(&self) -> (checked: Result<(), Error>)
        ensures
            match checked {
                Ok(_) => validation_error(self@) is None,
                Err(error) => validation_error(self@) == Some(error),
            },
    {
        if self.workload.executable.is_none() {
            return Err(Error::MissingExecutable);
        }
        if self.rootfs.is_none() {
            return Err(Error::MissingRootfs);
        }
        if let Some(capabilities) = &self.capabilities {
            if !check_capabilities(capabilities) {
                return Err(Error::UnknownCapability);
            }
        }
        match check_mounts(&self.mounts) {
            Some(fault) => Err(fault),
            None => Ok(()),
        }
    }

    /// Plans the creation of the container for the supervisor whose pid is
    /// `supervisor`.
    ///
    /// Fails, with nothing planned, if and only if validation refuses the
    /// request or its workload cannot be handed to the kernel.
    pub fn wrap(&self, supervisor: u32) -> (planned: Result<Plan, Error>)
        ensures
            match planned {
                Ok(plan) => create_error(self@) is None && plan@ == create_plan(self@, supervisor),
                Err(error) => create_error(self@) == Some(error),
            },
    {
        self.validate()?;
        let launch = self.workload.execute()?;
        let target_ns = self.namespaces();
        let first_level_ns = self.first_level();
        let two_stage = match self.skip_two_stage_userns {
            Some(true) => false,
            _ => true,
        };

        let mut before_fork = self.prepare_cgroup(supervisor);
        before_fork.push(step(unshare(&first_level_ns), Stage::Namespaces, OnFailure::Abort));
        if has_namespace(&target_ns, Namespace::Time) {
            before_fork.push(
                step(Operation::OffsetBootTime, Stage::BootTime, OnFailure::Continue),
            );
        }
        before_fork.push(
            step(self.update_hostname(supervisor), Stage::Hostname, OnFailure::Continue),
        );
        append_steps(&mut before_fork, self.workload.set_process_limits());
        append_steps(&mut before_fork, setup_parent_signal_handlers());
        let ghost signalled = before_fork.deep_view();
        before_fork.push(step(Operation::OpenChannels, Stage::Rendezvous, OnFailure::Abort));
        assert(before_fork.deep_view() =~= signalled + seq![
            step_of(OperationView::OpenChannels, Stage::Rendezvous, OnFailure::Abort),
        ]);
        assert(before_fork.deep_view() =~= supervisor_steps(self@, supervisor));

        let mut parent: Vec<Step> = Vec::new();
        parent.push(step(Operation::RegisterChild, Stage::Signals, OnFailure::Abort));
        parent.push(
            step(Operation::Await { channel: Channel::Parent }, Stage::Rendezvous, OnFailure::Abort),
        );
        let ghost awaiting = parent.deep_view();
        assert(awaiting =~= seq![
            step_of(OperationView::RegisterChild, Stage::Signals, OnFailure::Abort),
            step_of(
                OperationView::Await { channel: Channel::Parent },
                Stage::Rendezvous,
                OnFailure::Abort,
            ),
        ]);
        if has_namespace(&target_ns, Namespace::User) {
            append_steps(&mut parent, self.prepare_userns(1));
        }
        let ghost mapped = parent.deep_view();
        assert(mapped =~= awaiting + (if target_namespaces(self@).contains(Namespace::User) {
            userns_steps(self@, 1)
        } else {
            Seq::empty()
        }));
        parent.push(
            step(
                Operation::Notify { channel: Channel::Child, value: 1 },
                Stage::Rendezvous,
                OnFailure::Abort,
            ),
        );
        parent.push(step(Operation::WaitChild, Stage::Wait, OnFailure::Abort));
        assert(parent.deep_view() =~= mapped + seq![
            step_of(
                OperationView::Notify { channel: Channel::Child, value: 1 },
                Stage::Rendezvous,
                OnFailure::Abort,
            ),
            step_of(OperationView::WaitChild, Stage::Wait, OnFailure::Abort),
        ]);
        assert(parent.deep_view() =~= parent_steps(self@));

        let mut child = reset_child_signal_handlers();
        if has_namespace(&target_ns, Namespace::Mount) {
            let tree = self.pivot_fs()?;
            append_steps(&mut child, tree);
        }
        if has_namespace(&target_ns, Namespace::User) && two_stage {
            let mut user: Vec<Namespace> = Vec::new();
            user.push(Namespace::User);
            assert(user@ =~= seq![Namespace::User]);
            child.push(step(unshare(&user), Stage::Namespaces, OnFailure::Abort));
        }
        if self.capabilities.is_some() {
            child.push(step(Operation::ApplyCapabilities, Stage::Capabilities, OnFailure::Abort));
        }
        child.push(
            step(
                Operation::Notify { channel: Channel::Parent, value: 2 },
                Stage::Rendezvous,
                OnFailure::Abort,
            ),
        );
        child.push(
            step(Operation::Await { channel: Channel::Child }, Stage::Rendezvous, OnFailure::Abort),
        );
        append_steps(&mut child, launch);
        assert(child.deep_view() =~= child_steps(self@));

        Ok(Plan { supervisor: before_fork, parent, child })
    }
}

/// The first call to `unshare` is handed the flag of every namespace the
/// request asks for, and of no other; but the flag of the user namespace
/// only when the request gives up the second stage.
pub proof fn lemma_first_level_flags(request: CreateRequestView, supervisor: u32, ns: Namespace)
    ensures
        supervisor_steps(request, supervisor).contains(
            step_of(
                OperationView::Unshare { flags: clone_flags_of(first_level_namespaces(request)) },
                Stage::Namespaces,
                OnFailure::Abort,
            ),
        ),
        (clone_flags_of(first_level_namespaces(request)) & clone_flag(ns) != 0) <==> (
        target_namespaces(request).contains(ns) && (ns != Namespace::User || !two_stage(request))),
{
    lemma_flags_membership(first_level_namespaces(request), ns);
    lemma_without_membership(target_namespaces(request), Namespace::User, ns);
    let steps = supervisor_steps(request, supervisor);
    let at = cgroup_steps(request, supervisor).len() as int;
    assert(steps[at] == step_of(
        unshare_call(first_level_namespaces(request)),
        Stage::Namespaces,
        OnFailure::Abort,
    ));
}

/// Without a host name in the request, the container's host is named
/// after the workload id, and after the supervisor's pid where there is no
/// workload id either.
pub proof fn lemma_hostname_fallback(request: CreateRequestView, supervisor: u32)
    requires
        request.hostname is None,
    ensures
        request.workload_id is Some ==> hostname_of(request, supervisor) == "litewrap-"@
            + request.workload_id->0,
        request.workload_id is None ==> hostname_of(request, supervisor) == "litewrap-"@
            + crate::text::decimal(supervisor as nat),
{
}

/// Every mount of the request is realised below the new root: as the
/// request has it in every respect but the target, which is the path of the
/// request's target under the root.
pub proof fn lemma_mounts_are_parented(request: CreateRequestView, at: int)
    requires
        0 <= at < mounts_of(request).len(),
    ensures
        parented(request.rootfs->0, mounts_of(request)[at]).target == join_path(
            request.rootfs->0,
            mounts_of(request)[at].target,
        ),
        exists|from: int|
            0 <= from && from + mount_calls(parented(request.rootfs->0, mounts_of(request)[at])).len()
                <= parented_calls(request.rootfs->0, mounts_of(request)).len()
                && #[trigger] parented_calls(request.rootfs->0, mounts_of(request)).subrange(
                from,
                from + mount_calls(parented(request.rootfs->0, mounts_of(request)[at])).len(),
            ) == mount_calls(parented(request.rootfs->0, mounts_of(request)[at])),
{
    lemma_parented_calls(request.rootfs->0, mounts_of(request), at);
}

proof fn lemma_parented_calls(rootfs: Text, mounts: Seq<MountSpecView>, at: int)
    requires
        0 <= at < mounts.len(),
    ensures
        exists|from: int|
            0 <= from && from + mount_calls(parented(rootfs, mounts[at])).len() <= parented_calls(
                rootfs,
                mounts,
            ).len() && #[trigger] parented_calls(rootfs, mounts).subrange(
                from,
                from + mount_calls(parented(rootfs, mounts[at])).len(),
            ) == mount_calls(parented(rootfs, mounts[at])),
    decreases mounts.len(),
{
    let all = parented_calls(rootfs, mounts);
    let init = parented_calls(rootfs, mounts.drop_last());
    let wanted = mount_calls(parented(rootfs, mounts[at]));
    if at == mounts.len() - 1 {
        let from = init.len() as int;
        assert(all.subrange(from, from + wanted.len()) =~= wanted);
    } else {
        lemma_parented_calls(rootfs, mounts.drop_last(), at);
        let from = choose|from: int|
            0 <= from && from + wanted.len() <= init.len() && #[trigger] init.subrange(
                from,
                from + wanted.len(),
            ) == wanted;
        assert(all.subrange(from, from + wanted.len()) =~= init.subrange(from, from + wanted.len()));
    }
}

/// The supervisor's side of the rendezvous. It first registers the child
/// and waits for it; what it does then, before it lets the child go on, is
/// to write id maps and nothing else; letting the child go on and waiting
/// for its exit are its last two steps.
pub proof fn lemma_parent_order(request: CreateRequestView, at: int)
    requires
        0 <= at < parent_steps(request).len(),
    ensures
        parent_steps(request).len() >= 4,
        parent_steps(request)[0].operation == OperationView::RegisterChild,
        parent_steps(request)[1].operation == (OperationView::Await { channel: Channel::Parent }),
        parent_steps(request)[parent_steps(request).len() - 2].operation == (OperationView::Notify {
            channel: Channel::Child,
            value: 1,
        }),
        parent_steps(request).last().operation == OperationView::WaitChild,
        1 < at < parent_steps(request).len() - 2 ==> parent_steps(request)[at].stage
            == Stage::IdMaps,
        parent_steps(request)[at].stage == Stage::IdMaps ==> 1 < at < parent_steps(request).len()
            - 2,
{
}

/// No preparation of the child belongs to the meeting or the launch, and
/// the failure of any of them stops the child.
pub proof fn lemma_prelude_stages(request: CreateRequestView, at: int)
    requires
        0 <= at < child_prelude(request).len(),
    ensures
        child_prelude(request)[at].stage != Stage::Launch,
        child_prelude(request)[at].stage != Stage::Rendezvous,
        child_prelude(request)[at].on_failure == OnFailure::Abort,
        keeps_policy(child_prelude(request)[at]),
        child_prelude(request).len() >= 6,
{
    let resets = reset_steps();
    let tree: Steps = if target_namespaces(request).contains(Namespace::Mount) {
        steps_of(pivot_fs_calls(request), Stage::Filesystem, OnFailure::Abort)
    } else {
        Seq::empty()
    };
    let user: Steps = if target_namespaces(request).contains(Namespace::User) && two_stage(request) {
        seq![step_of(unshare_call(seq![Namespace::User]), Stage::Namespaces, OnFailure::Abort)]
    } else {
        Seq::empty()
    };
    let caps: Steps = if request.capabilities is Some {
        seq![step_of(OperationView::ApplyCapabilities, Stage::Capabilities, OnFailure::Abort)]
    } else {
        Seq::empty()
    };
    assert(resets.len() == 6);
    assert(child_prelude(request) == resets + tree + user + caps);
    if at < resets.len() {
        assert(resets[at].stage == Stage::Signals);
    } else if at < resets.len() + tree.len() {
        assert(tree[at - resets.len()].stage == Stage::Filesystem);
    } else if at < resets.len() + tree.len() + user.len() {
        assert(user[at - resets.len() - tree.len()].stage == Stage::Namespaces);
    } else {
        assert(caps[at - resets.len() - tree.len() - user.len()].stage == Stage::Capabilities);
    }
}

/// The child's side of the rendezvous. Whatever the child does to its
/// namespaces, its mount tree and its capabilities is done before it tells
/// the supervisor; it then waits for the supervisor; and only then come the
/// steps of the launch, the last of which executes the workload.
pub proof fn lemma_child_order(request: CreateRequestView, at: int)
    requires
        0 <= at < child_steps(request).len(),
    ensures
        ({
            let steps = child_steps(request);
            let told = steps.len() - launch_steps(request.workload).len() - 2;
            &&& 6 <= told
            &&& steps[told].operation == (OperationView::Notify {
                channel: Channel::Parent,
                value: 2,
            })
            &&& steps[told + 1].operation == (OperationView::Await { channel: Channel::Child })
            &&& steps.last().operation == crate::execute::execute_call(request.workload)
            &&& at < told ==> steps[at].stage != Stage::Launch && steps[at].stage
                != Stage::Rendezvous
            &&& at > told + 1 ==> steps[at].stage == Stage::Launch
        }),
{
    let steps = child_steps(request);
    let prelude = child_prelude(request);
    let launch = launch_steps(request.workload);
    let told = prelude.len() as int;
    crate::execute::lemma_launch_stages(request.workload, 0);
    assert(steps[told] == child_meeting()[0]);
    assert(steps[told + 1] == child_meeting()[1]);
    assert(steps[steps.len() - 1] == launch[launch.len() - 1]);
    if at < told {
        lemma_prelude_stages(request, at);
        assert(steps[at] == prelude[at]);
    } else {
        lemma_prelude_stages(request, 0);
    }
    if at > told + 1 {
        crate::execute::lemma_launch_stages(request.workload, at - told - 2);
        assert(steps[at] == launch[at - told - 2]);
    }
}

/// The plan of a container keeps to the split between what may fail and
/// what may not: cgroup, boot clock, host name and resource limits are best
/// effort; namespaces, signals, id maps, mount tree, capabilities and the
/// rendezvous are not; of the launch only the switch of user and group may
/// fail.
pub proof fn lemma_create_policy(request: CreateRequestView, supervisor: u32)
    ensures
        keep_policy(supervisor_steps(request, supervisor)),
        keep_policy(parent_steps(request)),
        keep_policy(child_steps(request)),
{
    crate::execute::lemma_workload_policy(request.workload);
    // The supervisor before the fork.
    let cgroup = cgroup_steps(request, supervisor);
    if request.limits is Some {
        crate::wrap::lemma_cgroup_policy(
            request.cgroupfs,
            identity_of(request.workload_id, supervisor),
            request.limits->0,
            supervisor,
        );
    }
    let leave: Steps = seq![
        step_of(
            unshare_call(first_level_namespaces(request)),
            Stage::Namespaces,
            OnFailure::Abort,
        ),
    ];
    let clock: Steps = if target_namespaces(request).contains(Namespace::Time) {
        seq![step_of(OperationView::OffsetBootTime, Stage::BootTime, OnFailure::Continue)]
    } else {
        Seq::empty()
    };
    let host: Steps = seq![
        step_of(
            OperationView::SetHostname { name: hostname_of(request, supervisor) },
            Stage::Hostname,
            OnFailure::Continue,
        ),
    ];
    let limits = limit_steps(request.workload.process_limits);
    lemma_signal_policy();
    assert(keeps_policy(leave[0]));
    assert(keeps_policy(host[0]));
    lemma_policy_joined(cgroup, leave);
    lemma_policy_joined(cgroup + leave, clock);
    lemma_policy_joined(cgroup + leave + clock, host);
    lemma_policy_joined(cgroup + leave + clock + host, limits);
    lemma_policy_joined(cgroup + leave + clock + host + limits, forward_steps());
    let open: Steps = seq![
        step_of(OperationView::OpenChannels, Stage::Rendezvous, OnFailure::Abort),
    ];
    assert(keeps_policy(open[0]));
    lemma_policy_joined(cgroup + leave + clock + host + limits + forward_steps(), open);
    // The supervisor after the fork.
    let parent = parent_steps(request);
    assert forall|i: int| 0 <= i < parent.len() implies keeps_policy(#[trigger] parent[i]) by {
        lemma_parent_order(request, i);
        if 1 < i < parent.len() - 2 {
            assert(parent[i].on_failure == OnFailure::Abort);
        }
    }
    // The child.
    let prelude = child_prelude(request);
    assert forall|i: int| 0 <= i < prelude.len() implies keeps_policy(#[trigger] prelude[i]) by {
        lemma_prelude_stages(request, i);
    }
    assert(keeps_policy(child_meeting()[0]));
    assert(keeps_policy(child_meeting()[1]));
    lemma_policy_joined(prelude, child_meeting());
    lemma_policy_joined(prelude + child_meeting(), launch_steps(request.workload));
}

proof fn lemma_signal_policy()
    ensures
        keep_policy(forward_steps()),
        keep_policy(reset_steps()),
{
    lemma_policy_of_stage(
        crate::signal::forwarded_signals().map_values(
            |signal: crate::signal::ForwardedSignal| OperationView::ForwardSignal { signal },
        ),
        Stage::Signals,
        OnFailure::Abort,
    );
    lemma_policy_of_stage(
        crate::signal::forwarded_signals().map_values(
            |signal: crate::signal::ForwardedSignal| OperationView::ResetSignal { signal },
        ),
        Stage::Signals,
        OnFailure::Abort,
    );
}

} // verus!
