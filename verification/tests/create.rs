use styrolite::config::{
    Capabilities, CreateDirMutation, CreateRequest, ExecutableSpec, IdMapping, MountSpec, Mutation,
    ProcessResourceLimits,
};
use styrolite::error::Error;
use styrolite::namespace::Namespace;
use styrolite::plan::{Channel, OnFailure, Operation, Resource, Stage, Step};
use styrolite::signal::ForwardedSignal;
use styrolite::string_map::StringMap;

fn step(operation: Operation, stage: Stage, on_failure: OnFailure) -> Step {
    Step { operation, stage, on_failure }
}

fn write(path: &str, contents: &str) -> Operation {
    Operation::WriteFile { path: path.to_string(), contents: contents.to_string() }
}

fn create(rootfs: &str, program: &str) -> CreateRequest {
    CreateRequest {
        workload: ExecutableSpec {
            executable: Some(program.to_string()),
            ..ExecutableSpec::default()
        },
        rootfs: Some(rootfs.to_string()),
        ..CreateRequest::default()
    }
}

fn forwarders() -> Vec<Step> {
    [
        ForwardedSignal::Terminate,
        ForwardedSignal::Interrupt,
        ForwardedSignal::Quit,
        ForwardedSignal::Hangup,
        ForwardedSignal::User1,
        ForwardedSignal::User2,
    ]
    .iter()
    .map(|signal| {
        step(Operation::ForwardSignal { signal: *signal }, Stage::Signals, OnFailure::Abort)
    })
    .collect()
}

fn resets() -> Vec<Step> {
    [
        ForwardedSignal::Terminate,
        ForwardedSignal::Interrupt,
        ForwardedSignal::Quit,
        ForwardedSignal::Hangup,
        ForwardedSignal::User1,
        ForwardedSignal::User2,
    ]
    .iter()
    .map(|signal| step(Operation::ResetSignal { signal: *signal }, Stage::Signals, OnFailure::Abort))
    .collect()
}

fn mount(source: Option<&str>, target: &str, fstype: Option<&str>, flags: u64) -> Step {
    step(
        Operation::Mount {
            source: source.map(|s| s.to_string()),
            target: target.to_string(),
            fstype: fstype.map(|s| s.to_string()),
            flags,
        },
        Stage::Filesystem,
        OnFailure::Abort,
    )
}

fn pivot(rootfs: &str) -> Vec<Step> {
    vec![
        step(Operation::ChangeDir { path: rootfs.to_string() }, Stage::Filesystem, OnFailure::Abort),
        step(
            Operation::PivotRoot { new_root: ".".to_string(), put_old: ".".to_string() },
            Stage::Filesystem,
            OnFailure::Abort,
        ),
        step(
            Operation::Unmount { target: ".".to_string(), flags: 2 },
            Stage::Filesystem,
            OnFailure::Abort,
        ),
        step(Operation::ChangeDir { path: "/".to_string() }, Stage::Filesystem, OnFailure::Abort),
    ]
}

#[test]
fn the_identity_is_the_workload_id_or_the_supervisors_pid() {
    let mut named = create("/", "/bin/true");
    named.workload_id = Some("foo".to_string());
    assert_eq!(named.identity(4711), "foo");
    assert_eq!(create("/", "/bin/true").identity(4711), "4711");
    assert_eq!(create("/", "/bin/true").identity(0), "0");
}

#[test]
fn the_hostname_falls_back_to_the_container_name() {
    let mut named = create("/", "/bin/true");
    named.workload_id = Some("foo".to_string());
    assert_eq!(
        named.update_hostname(4711),
        Operation::SetHostname { name: "litewrap-foo".to_string() }
    );
    assert_eq!(
        create("/", "/bin/true").update_hostname(4711),
        Operation::SetHostname { name: "litewrap-4711".to_string() }
    );
    named.hostname = Some("box".to_string());
    assert_eq!(named.update_hostname(4711), Operation::SetHostname { name: "box".to_string() });
}

#[test]
fn the_boot_clock_offset_is_one_second_short_and_never_positive() {
    let request = create("/", "/bin/true");
    let path = "/proc/self/timens_offsets";
    assert_eq!(request.update_boottime(Some(1000)), write(path, "boottime -999 0\n"));
    assert_eq!(request.update_boottime(Some(2)), write(path, "boottime -1 0\n"));
    assert_eq!(request.update_boottime(Some(1)), write(path, "boottime 0 0\n"));
    assert_eq!(request.update_boottime(Some(0)), write(path, "boottime 0 0\n"));
    assert_eq!(request.update_boottime(Some(-5)), write(path, "boottime 0 0\n"));
    assert_eq!(request.update_boottime(None), write(path, "boottime 0 0\n"));
    assert_eq!(
        request.update_boottime(Some(i64::MAX)),
        write(path, "boottime -9223372036854775806 0\n")
    );
    assert_eq!(request.update_boottime(Some(i64::MIN)), write(path, "boottime 0 0\n"));
}

#[test]
fn id_maps_are_written_uid_first_with_setgroups_denied_by_default() {
    let mut request = create("/", "/bin/true");
    request.uid_mappings = Some(vec![
        IdMapping { base_nsid: 0, base_hostid: 1000, remap_count: 1 },
        IdMapping { base_nsid: 1, base_hostid: 100000, remap_count: 65536 },
    ]);
    request.gid_mappings = Some(vec![IdMapping { base_nsid: 0, base_hostid: 100, remap_count: 1 }]);
    let expected: Vec<Step> = vec![
        write("/proc/1/uid_map", "0 1000 1\n1 100000 65536"),
        write("/proc/1/setgroups", "deny"),
        write("/proc/1/gid_map", "0 100 1"),
    ]
    .into_iter()
    .map(|operation| step(operation, Stage::IdMaps, OnFailure::Abort))
    .collect();
    assert_eq!(request.prepare_userns(1), expected);
}

#[test]
fn setgroups_is_left_alone_when_the_request_says_so() {
    let mut request = create("/", "/bin/true");
    request.setgroups_deny = Some(false);
    assert_eq!(request.prepare_userns(1), vec![]);
    request.setgroups_deny = Some(true);
    assert_eq!(
        request.prepare_userns(33),
        vec![step(write("/proc/33/setgroups", "deny"), Stage::IdMaps, OnFailure::Abort)]
    );
    request.setgroups_deny = None;
    request.gid_mappings = Some(vec![]);
    assert_eq!(
        request.prepare_userns(1),
        vec![
            step(write("/proc/1/setgroups", "deny"), Stage::IdMaps, OnFailure::Abort),
            step(write("/proc/1/gid_map", ""), Stage::IdMaps, OnFailure::Abort),
        ]
    );
}

#[test]
fn without_limits_no_cgroup_is_entered() {
    assert_eq!(create("/", "/bin/true").prepare_cgroup(1), vec![]);
}

#[test]
fn a_limit_is_written_to_its_control_file_in_the_containers_cgroup() {
    let mut request = create("/", "/bin/true");
    request.workload_id = Some("t".to_string());
    request.cgroupfs = Some("/sys/fs/cgroup/delegated".to_string());
    request.limits = Some(StringMap::new().insert("memory.max".to_string(), "16777216".to_string()));
    let subtree = "/sys/fs/cgroup/delegated/litewrap-t";
    assert_eq!(
        request.prepare_cgroup(900),
        vec![
            step(
                Operation::CheckAccess { path: "/sys/fs/cgroup/delegated".to_string() },
                Stage::Cgroup,
                OnFailure::SkipStage
            ),
            step(
                Operation::CreateDirAll { path: subtree.to_string() },
                Stage::Cgroup,
                OnFailure::SkipStage
            ),
            step(
                Operation::CheckAccess { path: subtree.to_string() },
                Stage::Cgroup,
                OnFailure::SkipStage
            ),
            step(
                write("/sys/fs/cgroup/delegated/litewrap-t/memory.max", "16777216"),
                Stage::Cgroup,
                OnFailure::Continue
            ),
            step(
                write("/sys/fs/cgroup/delegated/litewrap-t/cgroup.procs", "900"),
                Stage::Cgroup,
                OnFailure::SkipStage
            ),
        ]
    );
}

#[test]
fn limits_are_written_in_key_order_under_the_default_root() {
    let mut request = create("/", "/bin/true");
    request.limits = Some(
        StringMap::new()
            .insert("pids.max".to_string(), "64".to_string())
            .insert("cpu.max".to_string(), "max".to_string()),
    );
    let steps = request.prepare_cgroup(12);
    let operations: Vec<Operation> = steps.iter().map(|step| step.operation.clone()).collect();
    assert_eq!(
        operations,
        vec![
            Operation::CheckAccess { path: "/sys/fs/cgroup".to_string() },
            Operation::CreateDirAll { path: "/sys/fs/cgroup/litewrap-12".to_string() },
            Operation::CheckAccess { path: "/sys/fs/cgroup/litewrap-12".to_string() },
            write("/sys/fs/cgroup/litewrap-12/cpu.max", "max"),
            write("/sys/fs/cgroup/litewrap-12/pids.max", "64"),
            write("/sys/fs/cgroup/litewrap-12/cgroup.procs", "12"),
        ]
    );
}

#[test]
fn the_mount_tree_is_built_in_order_and_pivoted_last() {
    let mut request = create("/jail", "/bin/true");
    request.mounts = Some(vec![MountSpec {
        source: Some("/srv/data".to_string()),
        target: "/data".to_string(),
        fstype: None,
        bind: true,
        recurse: false,
        unshare: false,
        safe: true,
        read_only: false,
        create_mountpoint: true,
    }]);
    request.mutations =
        Some(vec![Mutation::CreateDir(CreateDirMutation { target: "/run/lock".to_string() })]);
    let mut expected = vec![
        mount(None, "/", None, 0x8000 | 0x4000 | 0x40000),
        mount(Some("/jail"), "/jail", Some("none"), 0x8000 | 0x1000 | 0x4000),
        mount(Some("proc"), "/jail/proc", Some("proc"), 0x8000 | 0x4000 | 0xe),
        step(
            Operation::CreateDirAll { path: "/jail/data".to_string() },
            Stage::Filesystem,
            OnFailure::Abort,
        ),
        mount(Some("/srv/data"), "/jail/data", None, 0x8000 | 0x1000 | 0xe),
        step(
            Operation::CreateDirAll { path: "/jail/run/lock".to_string() },
            Stage::Filesystem,
            OnFailure::Abort,
        ),
    ];
    expected.extend(pivot("/jail"));
    assert_eq!(request.pivot_fs(), Ok(expected));
}

#[test]
fn a_mount_of_the_request_lands_below_the_new_root() {
    let mut request = create("/jail", "/bin/true");
    request.mounts = Some(vec![MountSpec {
        source: Some("tmpfs".to_string()),
        target: "/data".to_string(),
        fstype: Some("tmpfs".to_string()),
        ..MountSpec::default()
    }]);
    let steps = request.pivot_fs().unwrap();
    assert_eq!(steps[3], mount(Some("tmpfs"), "/jail/data", Some("tmpfs"), 0x8000));
}

#[test]
fn a_read_only_bind_mount_of_the_request_is_remounted_below_the_root() {
    let mut request = create("/", "/bin/true");
    request.mounts = Some(vec![MountSpec {
        source: Some("/etc/passwd".to_string()),
        target: "/etc/passwd".to_string(),
        fstype: None,
        bind: true,
        recurse: false,
        unshare: false,
        safe: true,
        read_only: true,
        create_mountpoint: false,
    }]);
    let steps = request.pivot_fs().unwrap();
    assert_eq!(steps[2], mount(Some("proc"), "/proc", Some("proc"), 0x8000 | 0x4000 | 0xe));
    assert_eq!(
        steps[3],
        mount(Some("/etc/passwd"), "/etc/passwd", None, 0x8000 | 0x1000 | 0xe | 0x1)
    );
    assert_eq!(steps[4], mount(None, "/etc/passwd", None, 0x8000 | 0x20 | 0x1000 | 0x1 | 0xe));
    assert_eq!(steps.len(), 9);
}

#[test]
fn no_tree_is_planned_without_a_root() {
    let mut request = create("/", "/bin/true");
    request.rootfs = None;
    assert_eq!(request.pivot_fs(), Err(Error::MissingRootfs));
}

#[test]
fn the_directory_of_a_mutation_is_made_below_the_root() {
    let dir = CreateDirMutation { target: "/var/empty".to_string() };
    assert_eq!(dir.mutate("/jail"), Operation::CreateDirAll { path: "/jail/var/empty".to_string() });
    assert_eq!(dir.mutate("/"), Operation::CreateDirAll { path: "/var/empty".to_string() });
}

#[test]
fn the_default_namespaces_are_six_with_the_user_namespace_left_for_the_child() {
    let request = create("/", "/bin/true");
    assert_eq!(
        request.namespaces(),
        vec![
            Namespace::Mount,
            Namespace::Time,
            Namespace::Uts,
            Namespace::Pid,
            Namespace::Ipc,
            Namespace::User,
        ]
    );
    assert_eq!(
        request.first_level(),
        vec![Namespace::Mount, Namespace::Time, Namespace::Uts, Namespace::Pid, Namespace::Ipc]
    );
}

#[test]
fn the_first_level_holds_what_is_asked_for_but_the_user_namespace() {
    let mut request = create("/", "/bin/true");
    request.namespaces = Some(vec![Namespace::User, Namespace::Net, Namespace::User, Namespace::Pid]);
    assert_eq!(request.first_level(), vec![Namespace::Net, Namespace::Pid]);
    request.skip_two_stage_userns = Some(false);
    assert_eq!(request.first_level(), vec![Namespace::Net, Namespace::Pid]);
    request.skip_two_stage_userns = Some(true);
    assert_eq!(
        request.first_level(),
        vec![Namespace::User, Namespace::Net, Namespace::User, Namespace::Pid]
    );
}

#[test]
fn validation_names_the_first_fault() {
    let mut request = CreateRequest::default();
    assert_eq!(request.validate(), Err(Error::MissingExecutable));
    request.workload.executable = Some("/bin/true".to_string());
    assert_eq!(request.validate(), Err(Error::MissingRootfs));
    request.rootfs = Some("/".to_string());
    assert_eq!(request.validate(), Ok(()));
    request.capabilities = Some(Capabilities {
        raise: Some(vec!["CAP_NET_ADMIN".to_string()]),
        raise_ambient: Some(vec!["CAP_NOPE".to_string()]),
        drop: None,
    });
    assert_eq!(request.validate(), Err(Error::UnknownCapability));
    request.capabilities = Some(Capabilities::default());
    request.mounts = Some(vec![
        MountSpec { target: "/ok".to_string(), ..MountSpec::default() },
        MountSpec { target: "/b".to_string(), bind: true, ..MountSpec::default() },
        MountSpec::default(),
    ]);
    assert_eq!(request.validate(), Err(Error::BindWithoutSource));
    request.mounts = Some(vec![
        MountSpec::default(),
        MountSpec { target: "/b".to_string(), bind: true, ..MountSpec::default() },
    ]);
    assert_eq!(request.validate(), Err(Error::EmptyMountTarget));
}

#[test]
fn a_bind_without_source_passes_only_as_the_change_of_propagation_on_the_root() {
    let mut request = create("/", "/bin/true");
    request.mounts = Some(vec![MountSpec {
        target: "/".to_string(),
        bind: true,
        unshare: true,
        ..MountSpec::default()
    }]);
    assert_eq!(request.validate(), Ok(()));
    request.mounts = Some(vec![MountSpec {
        target: "/mnt".to_string(),
        bind: true,
        unshare: true,
        ..MountSpec::default()
    }]);
    assert_eq!(request.validate(), Err(Error::BindWithoutSource));
    request.mounts =
        Some(vec![MountSpec { target: "/".to_string(), bind: true, ..MountSpec::default() }]);
    assert_eq!(request.validate(), Err(Error::BindWithoutSource));
}

#[test]
fn nothing_is_planned_for_a_request_that_is_refused() {
    assert_eq!(CreateRequest::default().wrap(1), Err(Error::MissingExecutable));
    let mut request = create("/", "/bin/true");
    request.rootfs = None;
    assert_eq!(request.wrap(1), Err(Error::MissingRootfs));
    let mut request = create("/", "/bin/true");
    request.workload.arguments = Some(vec!["\0".to_string()]);
    assert_eq!(request.wrap(1), Err(Error::InteriorNul));
    let mut request = create("/", "/bin/true");
    request.capabilities =
        Some(Capabilities { raise: None, raise_ambient: None, drop: Some(vec!["x".to_string()]) });
    assert_eq!(request.wrap(1), Err(Error::UnknownCapability));
}

#[test]
fn the_smoke_container_is_planned_step_by_step() {
    let mut request = create("/", "/bin/true");
    request.workload_id = Some("t1".to_string());
    request.namespaces = Some(vec![
        Namespace::User,
        Namespace::Mount,
        Namespace::Pid,
        Namespace::Uts,
        Namespace::Ipc,
        Namespace::Time,
    ]);
    let plan = request.wrap(4711).unwrap();

    let mut supervisor = vec![
        step(
            Operation::Unshare { flags: 0x0002_0000 | 0x2000_0000 | 0x0400_0000 | 0x0800_0000 | 0x80 },
            Stage::Namespaces,
            OnFailure::Abort,
        ),
        step(Operation::OffsetBootTime, Stage::BootTime, OnFailure::Continue),
        step(
            Operation::SetHostname { name: "litewrap-t1".to_string() },
            Stage::Hostname,
            OnFailure::Continue,
        ),
    ];
    supervisor.extend(forwarders());
    supervisor.push(step(Operation::OpenChannels, Stage::Rendezvous, OnFailure::Abort));
    assert_eq!(plan.supervisor, supervisor);

    assert_eq!(
        plan.parent,
        vec![
            step(Operation::RegisterChild, Stage::Signals, OnFailure::Abort),
            step(Operation::Await { channel: Channel::Parent }, Stage::Rendezvous, OnFailure::Abort),
            step(write("/proc/1/setgroups", "deny"), Stage::IdMaps, OnFailure::Abort),
            step(
                Operation::Notify { channel: Channel::Child, value: 1 },
                Stage::Rendezvous,
                OnFailure::Abort
            ),
            step(Operation::WaitChild, Stage::Wait, OnFailure::Abort),
        ]
    );

    let mut child = resets();
    child.extend(vec![
        mount(None, "/", None, 0x8000 | 0x4000 | 0x40000),
        mount(Some("/"), "/", Some("none"), 0x8000 | 0x1000 | 0x4000),
        mount(Some("proc"), "/proc", Some("proc"), 0x8000 | 0x4000 | 0xe),
    ]);
    child.extend(pivot("/"));
    child.extend(vec![
        step(Operation::Unshare { flags: 0x1000_0000 }, Stage::Namespaces, OnFailure::Abort),
        step(
            Operation::Notify { channel: Channel::Parent, value: 2 },
            Stage::Rendezvous,
            OnFailure::Abort,
        ),
        step(Operation::Await { channel: Channel::Child }, Stage::Rendezvous, OnFailure::Abort),
        step(
            Operation::Execute {
                program: "/bin/true".to_string(),
                arguments: vec!["/bin/true".to_string()],
                environment: vec![],
            },
            Stage::Launch,
            OnFailure::Abort,
        ),
    ]);
    assert_eq!(plan.child, child);
}

#[test]
fn giving_up_the_second_stage_moves_the_user_namespace_to_the_first_call() {
    let mut request = create("/", "/bin/true");
    request.skip_two_stage_userns = Some(true);
    request.namespaces = Some(vec![Namespace::User, Namespace::Mount]);
    let plan = request.wrap(1).unwrap();
    assert_eq!(
        plan.supervisor[0],
        step(Operation::Unshare { flags: 0x1000_0000 | 0x0002_0000 }, Stage::Namespaces, OnFailure::Abort)
    );
    assert!(plan
        .child
        .iter()
        .all(|step| !matches!(step.operation, Operation::Unshare { .. })));
    assert!(plan.parent.iter().any(|step| step.stage == Stage::IdMaps));
}

#[test]
fn without_mount_user_and_time_namespaces_their_steps_are_left_out() {
    let mut request = create("/", "/bin/true");
    request.namespaces = Some(vec![Namespace::Uts, Namespace::Net]);
    let plan = request.wrap(1).unwrap();
    assert_eq!(
        plan.supervisor[0],
        step(Operation::Unshare { flags: 0x0400_0000 | 0x4000_0000 }, Stage::Namespaces, OnFailure::Abort)
    );
    assert!(plan.supervisor.iter().all(|step| step.operation != Operation::OffsetBootTime));
    assert!(plan.parent.iter().all(|step| step.stage != Stage::IdMaps));
    assert!(plan.child.iter().all(|step| step.stage != Stage::Filesystem));
    assert!(plan.child.iter().all(|step| step.stage != Stage::Namespaces));
    assert_eq!(plan.child.len(), 6 + 2 + 1);
}

#[test]
fn capabilities_are_applied_before_the_supervisor_is_told() {
    let mut request = create("/", "/bin/true");
    request.capabilities = Some(Capabilities {
        raise: None,
        raise_ambient: None,
        drop: Some(vec!["CAP_SYS_ADMIN".to_string()]),
    });
    let plan = request.wrap(1).unwrap();
    let apply = plan
        .child
        .iter()
        .position(|step| step.operation == Operation::ApplyCapabilities)
        .unwrap();
    let notify = plan
        .child
        .iter()
        .position(|step| matches!(step.operation, Operation::Notify { .. }))
        .unwrap();
    let unshare = plan
        .child
        .iter()
        .position(|step| matches!(step.operation, Operation::Unshare { .. }))
        .unwrap();
    assert!(unshare < apply && apply < notify);
    assert_eq!(plan.child[apply].on_failure, OnFailure::Abort);
}

#[test]
fn resource_limits_and_cgroup_come_before_the_fork() {
    let mut request = create("/", "/bin/true");
    request.workload_id = Some("t".to_string());
    request.limits = Some(StringMap::new().insert("memory.max".to_string(), "16777216".to_string()));
    request.workload.process_limits =
        Some(ProcessResourceLimits { open_files: Some(64), ..ProcessResourceLimits::default() });
    let plan = request.wrap(77).unwrap();
    let stages: Vec<Stage> = plan.supervisor.iter().map(|step| step.stage).collect();
    let mut expected = vec![Stage::Cgroup; 5];
    expected.extend([Stage::Namespaces, Stage::BootTime, Stage::Hostname]);
    expected.extend(vec![Stage::Limits; 15]);
    expected.extend(vec![Stage::Signals; 6]);
    expected.push(Stage::Rendezvous);
    assert_eq!(stages, expected);
    assert_eq!(
        plan.supervisor[3].operation,
        write("/sys/fs/cgroup/litewrap-t/memory.max", "16777216")
    );
    assert_eq!(
        plan.supervisor[16].operation,
        Operation::SetLimit { resource: Resource::OpenFiles, limit: Some(64) }
    );
}

#[test]
fn the_counters_are_made_last_before_the_fork() {
    let plan = create("/", "/bin/true").wrap(1).unwrap();
    assert_eq!(
        plan.supervisor.last(),
        Some(&step(Operation::OpenChannels, Stage::Rendezvous, OnFailure::Abort))
    );
    let made = plan
        .supervisor
        .iter()
        .filter(|step| step.operation == Operation::OpenChannels)
        .count();
    assert_eq!(made, 1);
    assert!(plan.parent.iter().all(|step| step.operation != Operation::OpenChannels));
    assert!(plan.child.iter().all(|step| step.operation != Operation::OpenChannels));
}
