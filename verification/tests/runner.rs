use styrolite::config::{
    AttachRequest, Capabilities, Config, CreateDirMutation, CreateRequest, IdMapping, MountSpec,
    Mutation, ProcessResourceLimits,
};
use styrolite::error::Error;
use styrolite::namespace::Namespace;
use styrolite::runner::{
    add_to_cap_list, AttachRequestBuilder, CapabilityList, CreateRequestBuilder, Launch, Runner,
    RunnerError,
};

#[test]
fn a_new_builder_builds_the_request_that_names_nothing() {
    assert_eq!(CreateRequestBuilder::new().to_request(), CreateRequest::default());
    assert_eq!(AttachRequestBuilder::new().to_request(), AttachRequest::default());
    assert_eq!(CreateRequestBuilder::default().to_request(), CreateRequest::default());
    let empty = CreateRequest::default();
    assert_eq!(empty.rootfs, None);
    assert_eq!(empty.namespaces, None);
    assert_eq!(empty.workload.executable, None);
    assert!(!empty.workload.no_new_privs);
}

#[test]
fn the_create_builder_sets_what_it_is_told() {
    let limits = ProcessResourceLimits { open_files: Some(10), ..ProcessResourceLimits::default() };
    let request = CreateRequestBuilder::new()
        .set_rootfs("/jail")
        .set_rootfs_readonly(true)
        .set_skip_two_stage_userns(false)
        .set_executable("/bin/sh")
        .set_arguments(vec!["-i", "-l"])
        .set_working_directory("/root")
        .set_workload_id("w1")
        .set_uid(1000)
        .set_gid(100)
        .set_no_new_privs(true)
        .set_hostname("box")
        .set_setgroups_deny(false)
        .set_process_resource_limits(limits)
        .to_request();
    assert_eq!(request.rootfs.as_deref(), Some("/jail"));
    assert_eq!(request.rootfs_readonly, Some(true));
    assert_eq!(request.skip_two_stage_userns, Some(false));
    assert_eq!(request.workload.executable.as_deref(), Some("/bin/sh"));
    assert_eq!(request.workload.arguments, Some(vec!["-i".to_string(), "-l".to_string()]));
    assert_eq!(request.workload.working_directory.as_deref(), Some("/root"));
    assert_eq!(request.workload_id.as_deref(), Some("w1"));
    assert_eq!(request.workload.uid, Some(1000));
    assert_eq!(request.workload.gid, Some(100));
    assert!(request.workload.no_new_privs);
    assert_eq!(request.hostname.as_deref(), Some("box"));
    assert_eq!(request.setgroups_deny, Some(false));
    assert_eq!(request.workload.process_limits, Some(limits));
    assert_eq!(request.mounts, None);
    assert_eq!(request.limits, None);
    assert_eq!(request.capabilities, None);
}

#[test]
fn a_later_setting_replaces_an_earlier_one() {
    let request = CreateRequestBuilder::new()
        .set_executable("/bin/a")
        .set_arguments(vec!["x"])
        .set_executable("/bin/b")
        .set_arguments(vec![])
        .to_request();
    assert_eq!(request.workload.executable.as_deref(), Some("/bin/b"));
    assert_eq!(request.workload.arguments, Some(vec![]));
}

#[test]
fn the_create_builder_collects_what_is_pushed_in_order() {
    let uid = IdMapping { base_nsid: 0, base_hostid: 1000, remap_count: 1 };
    let gid = IdMapping { base_nsid: 0, base_hostid: 100, remap_count: 2 };
    let mount = MountSpec { target: "/data".to_string(), ..MountSpec::default() };
    let other = MountSpec { target: "/more".to_string(), safe: true, ..MountSpec::default() };
    let request = CreateRequestBuilder::new()
        .push_namespace(Namespace::Pid)
        .push_namespace(Namespace::User)
        .push_uid_mapping(uid)
        .push_uid_mapping(gid)
        .push_gid_mapping(gid)
        .push_mount(mount.clone())
        .push_mount(other.clone())
        .push_mutation(Mutation::CreateDir(CreateDirMutation { target: "/run".to_string() }))
        .to_request();
    assert_eq!(request.namespaces, Some(vec![Namespace::Pid, Namespace::User]));
    assert_eq!(request.uid_mappings, Some(vec![uid, gid]));
    assert_eq!(request.gid_mappings, Some(vec![gid]));
    assert_eq!(request.mounts, Some(vec![mount, other]));
    assert_eq!(
        request.mutations,
        Some(vec![Mutation::CreateDir(CreateDirMutation { target: "/run".to_string() })])
    );
}

#[test]
fn limits_and_environment_are_maps_ordered_by_key() {
    let request = CreateRequestBuilder::new()
        .push_resource_limit("memory.max", "1G")
        .push_resource_limit("cpu.max", "max")
        .push_resource_limit("memory.max", "256M")
        .push_environment("container", "styrolite")
        .push_environment("PATH", "/bin")
        .to_request();
    let limits = request.limits.unwrap();
    assert_eq!(limits.len(), 2);
    assert_eq!((limits.key_at(0), limits.value_at(0)), ("cpu.max", "max"));
    assert_eq!((limits.key_at(1), limits.value_at(1)), ("memory.max", "256M"));
    let environment = request.workload.environment.unwrap();
    assert_eq!(environment.len(), 2);
    assert_eq!((environment.key_at(0), environment.value_at(0)), ("PATH", "/bin"));
    assert_eq!((environment.key_at(1), environment.value_at(1)), ("container", "styrolite"));
}

#[test]
fn capabilities_are_collected_list_by_list() {
    let request = CreateRequestBuilder::new()
        .push_raise_capability("CAP_NET_ADMIN")
        .push_drop_capability("CAP_SYS_ADMIN")
        .push_raise_ambient_capability("CAP_NET_ADMIN")
        .push_drop_capability("CAP_SYS_BOOT")
        .to_request();
    assert_eq!(
        request.capabilities,
        Some(Capabilities {
            raise: Some(vec!["CAP_NET_ADMIN".to_string()]),
            raise_ambient: Some(vec!["CAP_NET_ADMIN".to_string()]),
            drop: Some(vec!["CAP_SYS_ADMIN".to_string(), "CAP_SYS_BOOT".to_string()]),
        })
    );
    let attach = AttachRequestBuilder::new().push_raise_capability("CAP_KILL").to_request();
    assert_eq!(
        attach.capabilities,
        Some(Capabilities {
            raise: Some(vec!["CAP_KILL".to_string()]),
            raise_ambient: None,
            drop: None
        })
    );
}

#[test]
fn a_name_is_added_to_the_list_it_is_meant_for() {
    let mut caps = None;
    add_to_cap_list("CAP_KILL".to_string(), &mut caps, CapabilityList::Drop);
    assert_eq!(
        caps,
        Some(Capabilities { raise: None, raise_ambient: None, drop: Some(vec!["CAP_KILL".to_string()]) })
    );
    add_to_cap_list("CAP_CHOWN".to_string(), &mut caps, CapabilityList::Raise);
    add_to_cap_list("CAP_BPF".to_string(), &mut caps, CapabilityList::RaiseAmbient);
    add_to_cap_list("CAP_MKNOD".to_string(), &mut caps, CapabilityList::Drop);
    assert_eq!(
        caps,
        Some(Capabilities {
            raise: Some(vec!["CAP_CHOWN".to_string()]),
            raise_ambient: Some(vec!["CAP_BPF".to_string()]),
            drop: Some(vec!["CAP_KILL".to_string(), "CAP_MKNOD".to_string()]),
        })
    );
}

#[test]
fn the_attach_builder_sets_what_it_is_told() {
    let request = AttachRequestBuilder::new()
        .set_pid(4711)
        .set_executable("/bin/sh")
        .set_arguments(vec!["-i"])
        .set_working_directory("/")
        .set_workload_id("w")
        .set_uid(0)
        .set_gid(0)
        .set_no_new_privs(true)
        .push_environment("container", "edera")
        .push_environment("PATH", "/bin:/sbin")
        .push_namespace(Namespace::Mount)
        .push_raise_ambient_capability("CAP_NET_RAW")
        .push_drop_capability("CAP_SYS_ADMIN")
        .to_request();
    assert_eq!(request.pid, 4711);
    assert_eq!(request.workload.executable.as_deref(), Some("/bin/sh"));
    assert_eq!(request.workload.arguments, Some(vec!["-i".to_string()]));
    assert_eq!(request.workload.working_directory.as_deref(), Some("/"));
    assert_eq!(request.workload_id.as_deref(), Some("w"));
    assert_eq!(request.workload.uid, Some(0));
    assert_eq!(request.workload.gid, Some(0));
    assert!(request.workload.no_new_privs);
    let environment = request.workload.environment.unwrap();
    assert_eq!(environment.get("container"), Some("edera"));
    assert_eq!(environment.get("PATH"), Some("/bin:/sbin"));
    assert_eq!(environment.key_at(0), "PATH");
    assert_eq!(request.namespaces, Some(vec![Namespace::Mount]));
    assert_eq!(
        request.capabilities,
        Some(Capabilities {
            raise: None,
            raise_ambient: Some(vec!["CAP_NET_RAW".to_string()]),
            drop: Some(vec!["CAP_SYS_ADMIN".to_string()]),
        })
    );
    assert_eq!(request.cgroupfs, None);
}

#[test]
fn the_supervisor_is_started_on_the_configuration_file() {
    let runner = Runner::new("styrolite");
    assert_eq!(
        runner.create_command("/tmp/styrolite-cfg-abc123.json"),
        Launch {
            program: "styrolite".to_string(),
            arguments: vec!["/tmp/styrolite-cfg-abc123.json".to_string()],
        }
    );
}

#[test]
fn a_valid_request_is_wrapped_for_the_supervisor() {
    let runner = Runner::new("/usr/bin/styrolite");
    let request =
        CreateRequestBuilder::new().set_rootfs("/").set_executable("/bin/true").to_request();
    let (config, command) = runner.run(request.clone(), "/tmp/c.json").unwrap();
    assert_eq!(config, Config::Create(request.clone()));
    assert_eq!(command.program, "/usr/bin/styrolite");
    assert_eq!(command.arguments, vec!["/tmp/c.json".to_string()]);
    assert_eq!(runner.write_config(request.clone()), Ok(Config::Create(request.clone())));
    let (config, command) = runner.exec(request.clone(), "/tmp/d.json").unwrap();
    assert_eq!(config, Config::Create(request));
    assert_eq!(command.arguments, vec!["/tmp/d.json".to_string()]);
    let attach = AttachRequestBuilder::new().set_pid(3).set_executable("/bin/sh").to_request();
    assert_eq!(runner.write_config(attach.clone()), Ok(Config::Attach(attach)));
}

#[test]
fn a_request_that_fails_validation_is_not_handed_on() {
    let runner = Runner::new("styrolite");
    let no_root = CreateRequestBuilder::new().set_executable("/bin/true").to_request();
    assert_eq!(runner.run(no_root.clone(), "/tmp/c.json"), Err(Error::MissingRootfs));
    assert_eq!(runner.exec(no_root, "/tmp/c.json"), Err(Error::MissingRootfs));
    let no_program = AttachRequestBuilder::new().set_pid(1).to_request();
    assert_eq!(runner.write_config(no_program), Err(Error::MissingExecutable));
    let bad_cap = CreateRequestBuilder::new()
        .set_rootfs("/")
        .set_executable("/bin/true")
        .push_drop_capability("CAP_EVERYTHING")
        .to_request();
    assert_eq!(runner.write_config(bad_cap), Err(Error::UnknownCapability));
}

#[test]
fn the_configuration_file_is_named_after_the_supervisor() {
    assert_eq!(Runner::config_file_name(), ("styrolite-cfg-", ".json"));
}

#[test]
fn the_exit_code_of_the_supervisor_is_passed_on() {
    assert_eq!(Runner::exit_code(Some(0)), Ok(0));
    assert_eq!(Runner::exit_code(Some(137)), Ok(137));
    assert_eq!(Runner::exit_code(None), Err(RunnerError::NoExitCode));
    assert_eq!(RunnerError::NoExitCode.message(), "failed to launch/monitor child process");
}

#[test]
fn every_fault_has_its_diagnostic() {
    assert_eq!(Error::MissingExecutable.message(), "expected executable to be configured");
    assert_eq!(Error::MissingRootfs.message(), "expected rootfs to be configured");
    assert_eq!(Error::UnknownCapability.message(), "unknown capability name");
    assert_eq!(Error::EmptyMountTarget.message(), "mount target cannot be empty");
    assert_eq!(Error::BindWithoutSource.message(), "bind mount requires a source");
    assert_eq!(Error::InteriorNul.message(), "nul byte found in provided data");
    assert_eq!(Error::NoChildProcess.message(), "failed to find child PID");
}
