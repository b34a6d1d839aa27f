//! The declarative description of a container: what to run, in which
//! namespaces, over which mount tree, under which limits.

use vstd::prelude::*;

use crate::namespace::Namespace;
use crate::string_map::{Entries, StringMap};

verus! {

/// A text as a plain value.
pub type Text = Seq<char>;

/// One filesystem to mount.
#[derive(Clone, Debug, PartialEq, Eq)]
pub struct MountSpec {
    /// What to mount; absent for a change of propagation alone.
    pub source: Option<String>,
    /// Where to mount it.
    pub target: String,
    /// The filesystem type; absent for a bind mount.
    pub fstype: Option<String>,
    /// Mount `source` a second time instead of a new filesystem.
    pub bind: bool,
    /// Apply to the whole subtree.
    pub recurse: bool,
    /// Make the mount private, so that nothing propagates from or to it.
    pub unshare: bool,
    /// Refuse set-user-id programs, device nodes and execution.
    pub safe: bool,
    /// Mount read-only.
    pub read_only: bool,
    /// Create the target directory first.
    pub create_mountpoint: bool,
}

/// A [`MountSpec`] as plain values.
pub struct MountSpecView {
    pub source: Option<Text>,
    pub target: Text,
    pub fstype: Option<Text>,
    pub bind: bool,
    pub recurse: bool,
    pub unshare: bool,
    pub safe: bool,
    pub read_only: bool,
    pub create_mountpoint: bool,
}

impl View for MountSpec {
    type V = MountSpecView;

    open spec fn view(&self) -> MountSpecView {
        MountSpecView {
            source: self.source.deep_view(),
            target: self.target@,
            fstype: self.fstype.deep_view(),
            bind: self.bind,
            recurse: self.recurse,
            unshare: self.unshare,
            safe: self.safe,
            read_only: self.read_only,
            create_mountpoint: self.create_mountpoint,
        }
    }
}

impl DeepView for MountSpec {
    type V = MountSpecView;

    open spec fn deep_view(&self) -> MountSpecView {
        self@
    }
}

impl Default for MountSpec {
    /// A mount of nothing onto the empty path, with every flag off.
    fn default() -> (spec: MountSpec)
        ensures
            spec@ == (MountSpecView {
                source: None,
                target: Seq::empty(),
                fstype: None,
                bind: false,
                recurse: false,
                unshare: false,
                safe: false,
                read_only: false,
                create_mountpoint: false,
            }),
    {
        MountSpec {
            source: None,
            target: String::new(),
            fstype: None,
            bind: false,
            recurse: false,
            unshare: false,
            safe: false,
            read_only: false,
            create_mountpoint: false,
        }
    }
}

/// A run of ids inside a user namespace and the run of host ids it stands for.
#[derive(Clone, Copy, Debug, PartialEq, Eq, Structural)]
pub struct IdMapping {
    /// First id inside the namespace.
    pub base_nsid: u32,
    /// First id on the host.
    pub base_hostid: u32,
    /// How many ids the run holds.
    pub remap_count: u32,
}

impl DeepView for IdMapping {
    type V = IdMapping;

    open spec fn deep_view(&self) -> IdMapping {
        *self
    }
}

/// Capabilities to add to and to take from the workload, by canonical name.
#[derive(Clone, Debug, PartialEq, Eq)]
pub struct Capabilities {
    /// Raised in the effective, permitted and inheritable sets.
    pub raise: Option<Vec<String>>,
    /// Raised in the ambient set as well, so that they survive `execve`.
    pub raise_ambient: Option<Vec<String>>,
    /// Dropped from every set.
    pub drop: Option<Vec<String>>,
}

/// [`Capabilities`] as plain values.
pub struct CapabilitiesView {
    pub raise: Option<Seq<Text>>,
    pub raise_ambient: Option<Seq<Text>>,
    pub drop: Option<Seq<Text>>,
}

impl View for Capabilities {
    type V = CapabilitiesView;

    open spec fn view(&self) -> CapabilitiesView {
        CapabilitiesView {
            raise: self.raise.deep_view(),
            raise_ambient: self.raise_ambient.deep_view(),
            drop: self.drop.deep_view(),
        }
    }
}

impl DeepView for Capabilities {
    type V = CapabilitiesView;

    open spec fn deep_view(&self) -> CapabilitiesView {
        self@
    }
}

impl Default for Capabilities {
    /// No list at all.
    fn default() -> (caps: Capabilities)
        ensures
            caps@ == (CapabilitiesView { raise: None, raise_ambient: None, drop: None }),
    {
        Capabilities { raise: None, raise_ambient: None, drop: None }
    }
}

/// POSIX resource limits of the workload; an absent limit means no limit.
#[derive(Clone, Copy, Debug, PartialEq, Eq, Structural)]
pub struct ProcessResourceLimits {
    pub address_space_size: Option<u64>,
    pub core_size: Option<u64>,
    pub cpu_time: Option<u64>,
    pub data_space_size: Option<u64>,
    pub file_size: Option<u64>,
    pub locked_space_size: Option<u64>,
    pub msgqueue_size: Option<u64>,
    pub nice_ceiling: Option<u64>,
    pub open_files: Option<u64>,
    pub thread_limit: Option<u64>,
    pub resident_space_size: Option<u64>,
    pub real_time_priority: Option<u64>,
    pub real_time_limit: Option<u64>,
    pub pending_signal_limit: Option<u64>,
    pub main_thread_stack_size: Option<u64>,
}

impl DeepView for ProcessResourceLimits {
    type V = ProcessResourceLimits;

    open spec fn deep_view(&self) -> ProcessResourceLimits {
        *self
    }
}

impl Default for ProcessResourceLimits {
    /// No limit on anything.
    fn default() -> (limits: ProcessResourceLimits)
        ensures
            limits == ProcessResourceLimits::unlimited(),
    {
        ProcessResourceLimits {
            address_space_size: None,
            core_size: None,
            cpu_time: None,
            data_space_size: None,
            file_size: None,
            locked_space_size: None,
            msgqueue_size: None,
            nice_ceiling: None,
            open_files: None,
            thread_limit: None,
            resident_space_size: None,
            real_time_priority: None,
            real_time_limit: None,
            pending_signal_limit: None,
            main_thread_stack_size: None,
        }
    }
}

impl ProcessResourceLimits {
    /// The limits that limit nothing.
    pub open spec fn unlimited() -> ProcessResourceLimits {
        ProcessResourceLimits {
            address_space_size: None,
            core_size: None,
            cpu_time: None,
            data_space_size: None,
            file_size: None,
            locked_space_size: None,
            msgqueue_size: None,
            nice_ceiling: None,
            open_files: None,
            thread_limit: None,
            resident_space_size: None,
            real_time_priority: None,
            real_time_limit: None,
            pending_signal_limit: None,
            main_thread_stack_size: None,
        }
    }
}

/// The program to run and the process attributes it runs with.
#[derive(Clone, Debug, PartialEq, Eq)]
pub struct ExecutableSpec {
    /// Path or name of the program; looked up along `PATH` when it has no slash.
    pub executable: Option<String>,
    /// Arguments after the program's own name.
    pub arguments: Option<Vec<String>>,
    /// Directory to run in.
    pub working_directory: Option<String>,
    /// The whole environment of the program.
    pub environment: Option<StringMap>,
    /// User id to run as.
    pub uid: Option<u32>,
    /// Group id to run as.
    pub gid: Option<u32>,
    /// Whether the program may gain privileges through `execve`.
    pub no_new_privs: bool,
    /// POSIX resource limits.
    pub process_limits: Option<ProcessResourceLimits>,
}

/// An [`ExecutableSpec`] as plain values.
pub struct ExecutableSpecView {
    pub executable: Option<Text>,
    pub arguments: Option<Seq<Text>>,
    pub working_directory: Option<Text>,
    pub environment: Option<Entries>,
    pub uid: Option<u32>,
    pub gid: Option<u32>,
    pub no_new_privs: bool,
    pub process_limits: Option<ProcessResourceLimits>,
}

impl View for ExecutableSpec {
    type V = ExecutableSpecView;

    open spec fn view(&self) -> ExecutableSpecView {
        ExecutableSpecView {
            executable: self.executable.deep_view(),
            arguments: self.arguments.deep_view(),
            working_directory: self.working_directory.deep_view(),
            environment: self.environment.deep_view(),
            uid: self.uid,
            gid: self.gid,
            no_new_privs: self.no_new_privs,
            process_limits: self.process_limits,
        }
    }
}

impl DeepView for ExecutableSpec {
    type V = ExecutableSpecView;

    open spec fn deep_view(&self) -> ExecutableSpecView {
        self@
    }
}

impl ExecutableSpecView {
    /// The description that names nothing.
    pub open spec fn empty() -> ExecutableSpecView {
        ExecutableSpecView {
            executable: None,
            arguments: None,
            working_directory: None,
            environment: None,
            uid: None,
            gid: None,
            no_new_privs: false,
            process_limits: None,
        }
    }
}

impl Default for ExecutableSpec {
    fn default() -> (spec: ExecutableSpec)
        ensures
            spec@ == ExecutableSpecView::empty(),
    {
        ExecutableSpec {
            executable: None,
            arguments: None,
            working_directory: None,
            environment: None,
            uid: None,
            gid: None,
            no_new_privs: false,
            process_limits: None,
        }
    }
}

/// Creates a directory below the new root, after the mounts are in place.
#[derive(Clone, Debug, PartialEq, Eq)]
pub struct CreateDirMutation {
    /// The directory, as a path below the new root.
    pub target: String,
}

/// A change to the new root's tree, made after the mounts and before the
/// pivot.
#[derive(Clone, Debug, PartialEq, Eq)]
pub enum Mutation {
    CreateDir(CreateDirMutation),
}

/// A [`Mutation`] as plain values.
pub enum MutationView {
    CreateDir { target: Text },
}

impl View for Mutation {
    type V = MutationView;

    open spec fn view(&self) -> MutationView {
        match self {
            Mutation::CreateDir(dir) => MutationView::CreateDir { target: dir.target@ },
        }
    }
}

impl DeepView for Mutation {
    type V = MutationView;

    open spec fn deep_view(&self) -> MutationView {
        self@
    }
}

/// A request to build a container and run a workload in it.
#[derive(Clone, Debug, PartialEq, Eq)]
pub struct CreateRequest {
    /// The program to run and how.
    pub workload: ExecutableSpec,
    /// The directory that becomes the container's root.
    pub rootfs: Option<String>,
    pub rootfs_readonly: Option<bool>,
    /// Enter the user namespace together with the others, not after the
    /// mount tree is built.
    pub skip_two_stage_userns: Option<bool>,
    /// Names the container; the supervisor's pid stands in when absent.
    pub workload_id: Option<String>,
    pub hostname: Option<String>,
    /// Write `deny` to the child's `setgroups` before its gid map; on when
    /// absent.
    pub setgroups_deny: Option<bool>,
    pub namespaces: Option<Vec<Namespace>>,
    pub uid_mappings: Option<Vec<IdMapping>>,
    pub gid_mappings: Option<Vec<IdMapping>>,
    pub mounts: Option<Vec<MountSpec>>,
    pub mutations: Option<Vec<Mutation>>,
    /// Cgroup control files and the values to write to them.
    pub limits: Option<StringMap>,
    /// Root of the cgroup v2 tree, `/sys/fs/cgroup` when absent.
    pub cgroupfs: Option<String>,
    pub capabilities: Option<Capabilities>,
}

/// A [`CreateRequest`] as plain values.
pub struct CreateRequestView {
    pub workload: ExecutableSpecView,
    pub rootfs: Option<Text>,
    pub rootfs_readonly: Option<bool>,
    pub skip_two_stage_userns: Option<bool>,
    pub workload_id: Option<Text>,
    pub hostname: Option<Text>,
    pub setgroups_deny: Option<bool>,
    pub namespaces: Option<Seq<Namespace>>,
    pub uid_mappings: Option<Seq<IdMapping>>,
    pub gid_mappings: Option<Seq<IdMapping>>,
    pub mounts: Option<Seq<MountSpecView>>,
    pub mutations: Option<Seq<MutationView>>,
    pub limits: Option<Entries>,
    pub cgroupfs: Option<Text>,
    pub capabilities: Option<CapabilitiesView>,
}

/// The plain value of an optional list: the list itself, element by element.
pub open spec fn view_list<T>(list: Option<Vec<T>>) -> Option<Seq<T>> {
    match list {
        Some(items) => Some(items@),
        None => None,
    }
}

impl View for CreateRequest {
    type V = CreateRequestView;

    open spec fn view(&self) -> CreateRequestView {
        CreateRequestView {
            workload: self.workload@,
            rootfs: self.rootfs.deep_view(),
            rootfs_readonly: self.rootfs_readonly,
            skip_two_stage_userns: self.skip_two_stage_userns,
            workload_id: self.workload_id.deep_view(),
            hostname: self.hostname.deep_view(),
            setgroups_deny: self.setgroups_deny,
            namespaces: view_list(self.namespaces),
            uid_mappings: view_list(self.uid_mappings),
            gid_mappings: view_list(self.gid_mappings),
            mounts: self.mounts.deep_view(),
            mutations: self.mutations.deep_view(),
            limits: self.limits.deep_view(),
            cgroupfs: self.cgroupfs.deep_view(),
            capabilities: self.capabilities.deep_view(),
        }
    }
}

impl DeepView for CreateRequest {
    type V = CreateRequestView;

    open spec fn deep_view(&self) -> CreateRequestView {
        self@
    }
}

impl CreateRequestView {
    /// The request that names nothing.
    pub open spec fn empty() -> CreateRequestView {
        CreateRequestView {
            workload: ExecutableSpecView::empty(),
            rootfs: None,
            rootfs_readonly: None,
            skip_two_stage_userns: None,
            workload_id: None,
            hostname: None,
            setgroups_deny: None,
            namespaces: None,
            uid_mappings: None,
            gid_mappings: None,
            mounts: None,
            mutations: None,
            limits: None,
            cgroupfs: None,
            capabilities: None,
        }
    }
}

impl Default for CreateRequest {
    fn default() -> (request: CreateRequest)
        ensures
            request@ == CreateRequestView::empty(),
    {
        CreateRequest {
            workload: ExecutableSpec::default(),
            rootfs: None,
            rootfs_readonly: None,
            skip_two_stage_userns: None,
            workload_id: None,
            hostname: None,
            setgroups_deny: None,
            namespaces: None,
            uid_mappings: None,
            gid_mappings: None,
            mounts: None,
            mutations: None,
            limits: None,
            cgroupfs: None,
            capabilities: None,
        }
    }
}

/// A request to run a workload inside a container that already runs.
#[derive(Clone, Debug, PartialEq, Eq)]
pub struct AttachRequest {
    /// The program to run and how.
    pub workload: ExecutableSpec,
    /// Pid of the supervisor of the container to join.
    pub pid: i32,
    pub workload_id: Option<String>,
    pub namespaces: Option<Vec<Namespace>>,
    pub cgroupfs: Option<String>,
    pub capabilities: Option<Capabilities>,
}

/// An [`AttachRequest`] as plain values.
pub struct AttachRequestView {
    pub workload: ExecutableSpecView,
    pub pid: i32,
    pub workload_id: Option<Text>,
    pub namespaces: Option<Seq<Namespace>>,
    pub cgroupfs: Option<Text>,
    pub capabilities: Option<CapabilitiesView>,
}

impl View for AttachRequest {
    type V = AttachRequestView;

    open spec fn view(&self) -> AttachRequestView {
        AttachRequestView {
            workload: self.workload@,
            pid: self.pid,
            workload_id: self.workload_id.deep_view(),
            namespaces: view_list(self.namespaces),
            cgroupfs: self.cgroupfs.deep_view(),
            capabilities: self.capabilities.deep_view(),
        }
    }
}

impl DeepView for AttachRequest {
    type V = AttachRequestView;

    open spec fn deep_view(&self) -> AttachRequestView {
        self@
    }
}

impl AttachRequestView {
    /// The request that names nothing and joins pid 0.
    pub open spec fn empty() -> AttachRequestView {
        AttachRequestView {
            workload: ExecutableSpecView::empty(),
            pid: 0,
            workload_id: None,
            namespaces: None,
            cgroupfs: None,
            capabilities: None,
        }
    }
}

impl Default for AttachRequest {
    fn default() -> (request: AttachRequest)
        ensures
            request@ == AttachRequestView::empty(),
    {
        AttachRequest {
            workload: ExecutableSpec::default(),
            pid: 0,
            workload_id: None,
            namespaces: None,
            cgroupfs: None,
            capabilities: None,
        }
    }
}

/// What the supervisor is started with: one request of either kind.
#[derive(Clone, Debug, PartialEq, Eq)]
pub enum Config {
    Create(CreateRequest),
    Attach(AttachRequest),
}

/// A [`Config`] as plain values.
pub enum ConfigView {
    Create(CreateRequestView),
    Attach(AttachRequestView),
}

impl View for Config {
    type V = ConfigView;

    open spec fn view(&self) -> ConfigView {
        match self {
            Config::Create(request) => ConfigView::Create(request@),
            Config::Attach(request) => ConfigView::Attach(request@),
        }
    }
}

} // verus!
