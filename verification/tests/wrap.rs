use styrolite::capability::{get_caps, CapResult};
use styrolite::cgroup::CGroup;
use styrolite::config::{AttachRequest, Capabilities, ExecutableSpec, IdMapping};
use styrolite::error::Error;
use styrolite::namespace::Namespace;
use styrolite::plan::{advance, begin, Next, OnFailure, Operation, Stage, Step};
use styrolite::wrap::{
    apply_capabilities, check_capabilities, enter_cgroup, first_child_pid_of, name_container,
    proc_path, render_uidgid_mappings,
};

fn step(operation: Operation, stage: Stage, on_failure: OnFailure) -> Step {
    Step { operation, stage, on_failure }
}

fn names(list: &[&str]) -> Option<Vec<String>> {
    Some(list.iter().map(|name| name.to_string()).collect())
}

#[test]
fn two_mappings_render_as_two_lines_without_a_trailing_newline() {
    let mappings = vec![
        IdMapping { base_nsid: 0, base_hostid: 1000, remap_count: 1 },
        IdMapping { base_nsid: 1, base_hostid: 100000, remap_count: 65536 },
    ];
    assert_eq!(render_uidgid_mappings(&mappings), "0 1000 1\n1 100000 65536");
}

#[test]
fn no_mapping_renders_as_nothing_and_one_as_one_line() {
    assert_eq!(render_uidgid_mappings(&vec![]), "");
    assert_eq!(
        render_uidgid_mappings(&vec![IdMapping {
            base_nsid: u32::MAX,
            base_hostid: 0,
            remap_count: 4294967295
        }]),
        "4294967295 0 4294967295"
    );
    let three = vec![IdMapping { base_nsid: 1, base_hostid: 2, remap_count: 3 }; 3];
    assert_eq!(render_uidgid_mappings(&three), "1 2 3\n1 2 3\n1 2 3");
}

#[test]
fn the_first_child_is_the_first_token_of_the_list() {
    assert_eq!(first_child_pid_of("4711 4712 4713 "), Ok(4711));
    assert_eq!(first_child_pid_of("123 456 "), Ok(123));
    assert_eq!(first_child_pid_of("1 "), Ok(1));
    assert_eq!(first_child_pid_of("23"), Ok(23));
    assert_eq!(first_child_pid_of("+5 6"), Ok(5));
}

#[test]
fn white_space_around_the_first_child_is_passed_over() {
    assert_eq!(first_child_pid_of(" 123"), Ok(123));
    assert_eq!(first_child_pid_of("123\n"), Ok(123));
    assert_eq!(first_child_pid_of(" 12"), Ok(12));
    assert_eq!(first_child_pid_of("12\n"), Ok(12));
    assert_eq!(first_child_pid_of("12\t13"), Ok(12));
    assert_eq!(first_child_pid_of("  \t\n 12   13\n"), Ok(12));
    assert_eq!(first_child_pid_of("12\r\n"), Ok(12));
    assert_eq!(first_child_pid_of("\u{a0}12\u{2003}13"), Ok(12));
}

#[test]
fn a_list_without_a_first_pid_has_no_first_child() {
    for list in ["", " ", "   ", "\n", " \t\r\n", "abc 12", "99999999999 1", "12a 13", "- 1", "1_2"] {
        let error = first_child_pid_of(list).unwrap_err();
        assert_eq!(error, Error::NoChildProcess, "list {:?}", list);
        assert_eq!(error.message(), "failed to find child PID");
    }
}

#[test]
fn the_first_child_is_what_the_standard_split_at_white_space_gives() {
    let lists = [
        "", " ", "1", " 1", "1 ", "1 2", "\t7\t8", "\n", "12\n", "x", " x 1", "2147483647 1",
        "2147483648 1", "-1 2", "\u{3000}9", "9\u{2028}8", "\u{b}5\u{c}", "\u{85}4", "3\u{200b}",
        "\u{1680}6\u{205f}",
    ];
    for list in lists {
        let expected = list.split_whitespace().next().and_then(|token| token.parse::<i32>().ok());
        assert_eq!(first_child_pid_of(list).ok(), expected, "list {:?}", list);
    }
}

#[test]
fn proc_paths_name_the_process_by_its_decimal_pid() {
    assert_eq!(proc_path(1, "uid_map"), "/proc/1/uid_map");
    assert_eq!(proc_path(4711, "setgroups"), "/proc/4711/setgroups");
    assert_eq!(name_container("t1"), "litewrap-t1");
    assert_eq!(name_container(""), "litewrap-");
}

#[test]
fn capability_names_resolve_in_order_or_not_at_all() {
    let bits = Capabilities::names_as_bits(&vec![
        "CAP_SYS_ADMIN".to_string(),
        "CAP_CHOWN".to_string(),
        "CAP_BPF".to_string(),
    ])
    .unwrap();
    let numbers: Vec<u8> = bits.iter().map(|bit| bit.to_cap_number()).collect();
    assert_eq!(numbers, vec![21, 0, 39]);
    assert!(Capabilities::names_as_bits(&vec![]).unwrap().is_empty());
    assert_eq!(
        Capabilities::names_as_bits(&vec!["CAP_CHOWN".to_string(), "CAP_CHOWM".to_string()])
            .unwrap_err(),
        Error::UnknownCapability
    );
}

#[test]
fn capabilities_are_checked_list_by_list() {
    assert!(check_capabilities(&Capabilities::default()));
    assert!(check_capabilities(&Capabilities {
        raise: names(&["CAP_NET_RAW"]),
        raise_ambient: names(&["CAP_NET_RAW"]),
        drop: names(&["CAP_SYS_ADMIN", "CAP_SYS_BOOT"]),
    }));
    assert!(!check_capabilities(&Capabilities {
        raise: names(&["net_raw"]),
        ..Capabilities::default()
    }));
    assert!(!check_capabilities(&Capabilities {
        raise_ambient: names(&[""]),
        ..Capabilities::default()
    }));
    assert!(!check_capabilities(&Capabilities { drop: names(&["ALL"]), ..Capabilities::default() }));
}

#[test]
fn without_capabilities_nothing_is_applied() {
    let current = CapResult { effective: 7, permitted: 7, inheritable: 0 };
    assert_eq!(apply_capabilities(None, current), Ok(vec![]));
}

#[test]
fn dropping_sys_admin_clears_bit_21_everywhere_and_lowers_it_in_the_ambient_set() {
    let caps = Capabilities { raise: names(&[]), raise_ambient: None, drop: names(&["CAP_SYS_ADMIN"]) };
    let current = CapResult {
        effective: 0x1ff_ffff_ffff,
        permitted: 0x1ff_ffff_ffff,
        inheritable: 0,
    };
    let steps = apply_capabilities(Some(&caps), current).unwrap();
    assert_eq!(steps.len(), 2);
    match &steps[0].operation {
        Operation::SetCapabilities { raw } => {
            let written = get_caps(raw);
            let expected = 0x1ff_ffff_ffff & !(1u64 << 21);
            assert_eq!(written.effective, expected);
            assert_eq!(written.permitted, expected);
            assert_eq!(written.inheritable, expected);
            assert_eq!(raw.header.pid, -1);
            assert_eq!(raw.header.version, 0x20080522);
            assert_eq!(raw.first.effective, 0x1ff);
            assert_eq!(raw.second.effective, 0xffdf_ffff);
        }
        other => panic!("unexpected first step {:?}", other),
    }
    assert_eq!(
        steps[1],
        step(Operation::LowerAmbient { capability: 21 }, Stage::Capabilities, OnFailure::Abort)
    );
    assert!(steps.iter().all(|s| s.stage == Stage::Capabilities && s.on_failure == OnFailure::Abort));
}

#[test]
fn what_is_raised_wins_over_what_is_dropped() {
    let caps = Capabilities {
        raise: names(&["CAP_NET_ADMIN", "CAP_CHOWN"]),
        raise_ambient: names(&["CAP_NET_ADMIN"]),
        drop: names(&["CAP_CHOWN", "CAP_KILL"]),
    };
    let current = CapResult { effective: 0b10_0001, permitted: 0, inheritable: u64::MAX };
    let steps = apply_capabilities(Some(&caps), current).unwrap();
    let operations: Vec<Operation> = steps.into_iter().map(|step| step.operation).collect();
    assert_eq!(operations.len(), 4);
    match &operations[0] {
        Operation::SetCapabilities { raw } => {
            let written = get_caps(raw);
            assert_eq!(written.effective, 1 | (1 << 12));
            assert_eq!(written.permitted, written.effective);
            assert_eq!(written.inheritable, written.effective);
        }
        other => panic!("unexpected first step {:?}", other),
    }
    assert_eq!(
        operations[1..],
        [
            Operation::LowerAmbient { capability: 0 },
            Operation::LowerAmbient { capability: 5 },
            Operation::RaiseAmbient { capability: 12 },
        ]
    );
}

#[test]
fn an_unknown_capability_stops_the_planning() {
    let current = CapResult { effective: 0, permitted: 0, inheritable: 0 };
    for caps in [
        Capabilities { raise: names(&["CAP_X"]), raise_ambient: None, drop: None },
        Capabilities { raise: None, raise_ambient: names(&["CAP_X"]), drop: None },
        Capabilities { raise: None, raise_ambient: None, drop: names(&["CAP_KILL", "CAP_X"]) },
    ] {
        assert_eq!(apply_capabilities(Some(&caps), current), Err(Error::UnknownCapability));
    }
}

#[test]
fn the_cgroup_walker_joins_paths_by_one_slash() {
    let (root, probe) = CGroup::open("/sys/fs/cgroup/");
    assert_eq!(root.path(), "/sys/fs/cgroup/");
    assert_eq!(probe, Operation::CheckAccess { path: "/sys/fs/cgroup/".to_string() });
    let (child, check) = root.clone().open_child("user.slice");
    assert_eq!(child.path(), "/sys/fs/cgroup/user.slice");
    assert_eq!(check, Operation::CheckAccess { path: "/sys/fs/cgroup/user.slice".to_string() });
    let (made, calls) = root.clone().create_child("/litewrap-7");
    assert_eq!(made.path(), "/sys/fs/cgroup/litewrap-7");
    assert_eq!(
        calls,
        vec![
            Operation::CreateDirAll { path: "/sys/fs/cgroup/litewrap-7".to_string() },
            Operation::CheckAccess { path: "/sys/fs/cgroup/litewrap-7".to_string() },
        ]
    );
    assert_eq!(
        made.set_child_value("memory.max", "100M"),
        Operation::WriteFile {
            path: "/sys/fs/cgroup/litewrap-7/memory.max".to_string(),
            contents: "100M".to_string(),
        }
    );
}

#[test]
fn entering_a_cgroup_without_limits_only_moves_the_supervisor() {
    let steps = enter_cgroup(&None, "4711", None, 4711);
    let operations: Vec<Operation> = steps.iter().map(|s| s.operation.clone()).collect();
    assert_eq!(
        operations,
        vec![
            Operation::CheckAccess { path: "/sys/fs/cgroup".to_string() },
            Operation::CreateDirAll { path: "/sys/fs/cgroup/litewrap-4711".to_string() },
            Operation::CheckAccess { path: "/sys/fs/cgroup/litewrap-4711".to_string() },
            Operation::WriteFile {
                path: "/sys/fs/cgroup/litewrap-4711/cgroup.procs".to_string(),
                contents: "4711".to_string(),
            },
        ]
    );
    assert!(steps.iter().all(|s| s.stage == Stage::Cgroup && s.on_failure == OnFailure::SkipStage));
}

fn attach(pid: i32) -> AttachRequest {
    AttachRequest {
        workload: ExecutableSpec {
            executable: Some("/bin/sh".to_string()),
            arguments: Some(vec!["-i".to_string()]),
            ..ExecutableSpec::default()
        },
        pid,
        ..AttachRequest::default()
    }
}

#[test]
fn an_attachment_joins_the_first_child_of_the_supervisor() {
    let mut request = attach(900);
    request.workload_id = Some("t1".to_string());
    request.namespaces = Some(vec![Namespace::Mount, Namespace::User, Namespace::Pid]);
    request.capabilities = Some(Capabilities { drop: names(&["CAP_SYS_BOOT"]), ..Capabilities::default() });
    let plan = request.wrap(55, "901 902 ").unwrap();
    let operations: Vec<Operation> = plan.supervisor.iter().map(|s| s.operation.clone()).collect();
    assert_eq!(
        operations,
        vec![
            Operation::CheckAccess { path: "/sys/fs/cgroup".to_string() },
            Operation::CreateDirAll { path: "/sys/fs/cgroup/litewrap-t1".to_string() },
            Operation::CheckAccess { path: "/sys/fs/cgroup/litewrap-t1".to_string() },
            Operation::WriteFile {
                path: "/sys/fs/cgroup/litewrap-t1/cgroup.procs".to_string(),
                contents: "55".to_string(),
            },
            Operation::EnterNamespace { path: "/proc/901/ns/user".to_string(), flag: 0x1000_0000 },
            Operation::EnterNamespace { path: "/proc/901/ns/mnt".to_string(), flag: 0x0002_0000 },
            Operation::EnterNamespace { path: "/proc/901/ns/pid".to_string(), flag: 0x2000_0000 },
            Operation::ApplyCapabilities,
        ]
    );
    assert_eq!(plan.supervisor[4].on_failure, OnFailure::Abort);
    assert_eq!(plan.supervisor[4].stage, Stage::Namespaces);
    assert_eq!(plan.parent, vec![step(Operation::WaitChild, Stage::Wait, OnFailure::Abort)]);
    assert!(plan.supervisor.iter().all(|s| s.operation != Operation::OpenChannels));
    assert_eq!(
        plan.child,
        vec![step(
            Operation::Execute {
                program: "/bin/sh".to_string(),
                arguments: vec!["/bin/sh".to_string(), "-i".to_string()],
                environment: vec![],
            },
            Stage::Launch,
            OnFailure::Abort
        )]
    );
}

#[test]
fn an_attachment_joins_the_default_namespaces_with_the_user_namespace_first() {
    let plan = attach(1).wrap(2, "10").unwrap();
    let paths: Vec<String> = plan
        .supervisor
        .iter()
        .filter_map(|s| match &s.operation {
            Operation::EnterNamespace { path, .. } => Some(path.clone()),
            _ => None,
        })
        .collect();
    assert_eq!(
        paths,
        vec![
            "/proc/10/ns/user",
            "/proc/10/ns/mnt",
            "/proc/10/ns/time",
            "/proc/10/ns/uts",
            "/proc/10/ns/pid",
            "/proc/10/ns/ipc",
        ]
    );
    assert_eq!(attach(1).identity(2), "2");
}

#[test]
fn an_attachment_is_refused_for_each_fault_in_turn() {
    assert_eq!(AttachRequest::default().wrap(1, "5"), Err(Error::MissingExecutable));
    let mut request = attach(1);
    request.capabilities = Some(Capabilities { raise: names(&["nope"]), ..Capabilities::default() });
    assert_eq!(request.wrap(1, "5"), Err(Error::UnknownCapability));
    assert_eq!(request.validate(), Err(Error::UnknownCapability));
    let mut request = attach(1);
    request.workload.arguments = Some(vec!["\0".to_string()]);
    assert_eq!(request.wrap(1, "5"), Err(Error::InteriorNul));
    assert_eq!(attach(1).wrap(1, ""), Err(Error::NoChildProcess));
    assert_eq!(attach(1).validate(), Ok(()));
}

#[test]
fn a_runner_walks_the_steps_by_their_meaning_of_failure() {
    let steps = vec![
        step(Operation::OffsetBootTime, Stage::Cgroup, OnFailure::SkipStage),
        step(Operation::OffsetBootTime, Stage::Cgroup, OnFailure::Continue),
        step(Operation::OffsetBootTime, Stage::Cgroup, OnFailure::SkipStage),
        step(Operation::OffsetBootTime, Stage::Namespaces, OnFailure::Abort),
        step(Operation::OffsetBootTime, Stage::Hostname, OnFailure::Continue),
        step(Operation::OffsetBootTime, Stage::Limits, OnFailure::SkipStage),
        step(Operation::OffsetBootTime, Stage::Limits, OnFailure::SkipStage),
    ];
    assert_eq!(begin(&steps), Next::Run(0));
    assert_eq!(begin(&vec![]), Next::Finished);
    for at in 0..6 {
        assert_eq!(advance(&steps, at, true), Next::Run(at + 1));
    }
    assert_eq!(advance(&steps, 6, true), Next::Finished);
    assert_eq!(advance(&steps, 0, false), Next::Run(3));
    assert_eq!(advance(&steps, 1, false), Next::Run(2));
    assert_eq!(advance(&steps, 2, false), Next::Run(3));
    assert_eq!(advance(&steps, 3, false), Next::Aborted);
    assert_eq!(advance(&steps, 4, false), Next::Run(5));
    assert_eq!(advance(&steps, 5, false), Next::Finished);
    assert_eq!(advance(&steps, 6, false), Next::Finished);
    assert_eq!(advance(&steps, 7, true), Next::Finished);
    assert_eq!(advance(&steps, usize::MAX, false), Next::Finished);
}
