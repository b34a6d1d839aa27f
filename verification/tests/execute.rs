use styrolite::config::{ExecutableSpec, ProcessResourceLimits};
use styrolite::error::Error;
use styrolite::execute::{fork_and_wait, set_process_limit, switches_id, wait_for_pid, ForkSide};
use styrolite::plan::{OnFailure, Operation, Resource, Stage, Step};
use styrolite::string_map::StringMap;

fn program(path: &str) -> ExecutableSpec {
    ExecutableSpec { executable: Some(path.to_string()), ..ExecutableSpec::default() }
}

fn launch(operation: Operation, on_failure: OnFailure) -> Step {
    Step { operation, stage: Stage::Launch, on_failure }
}

#[test]
fn the_exit_status_is_the_second_byte_of_the_wait_status() {
    assert_eq!(wait_for_pid(0), 0);
    assert_eq!(wait_for_pid(0x0100), 1);
    assert_eq!(wait_for_pid(0x0300), 3);
    assert_eq!(wait_for_pid(0xff00), 255);
    assert_eq!(wait_for_pid(0x7f00), 127);
    assert_eq!(wait_for_pid(0x2a7f), 0x2a);
    assert_eq!(wait_for_pid(15), 0);
    assert_eq!(wait_for_pid(-1), 255);
    assert_eq!(wait_for_pid(i32::MIN), 0);
}

#[test]
fn the_exit_status_agrees_with_the_c_library() {
    for status in [0, 1, 9, 15, 0x80, 0x100, 0x1ff, 0x7f00, 0xff00, 0x1_0000, -1, i32::MAX] {
        assert_eq!(wait_for_pid(status), libc::WEXITSTATUS(status));
    }
}

#[test]
fn a_pid_above_zero_is_seen_by_the_supervisor() {
    assert_eq!(fork_and_wait(1), ForkSide::Supervisor(1));
    assert_eq!(fork_and_wait(4711), ForkSide::Supervisor(4711));
    assert_eq!(fork_and_wait(0), ForkSide::Child);
    assert_eq!(fork_and_wait(-1), ForkSide::Child);
}

#[test]
fn an_absent_limit_stays_absent_for_the_runner_to_lift() {
    assert_eq!(
        set_process_limit(Resource::OpenFiles, None),
        Operation::SetLimit { resource: Resource::OpenFiles, limit: None }
    );
    assert_eq!(
        set_process_limit(Resource::Stack, Some(8 << 20)),
        Operation::SetLimit { resource: Resource::Stack, limit: Some(8 << 20) }
    );
    assert_eq!(
        set_process_limit(Resource::Core, Some(0)),
        Operation::SetLimit { resource: Resource::Core, limit: Some(0) }
    );
    assert_eq!(
        set_process_limit(Resource::Cpu, Some(u64::MAX)),
        Operation::SetLimit { resource: Resource::Cpu, limit: Some(u64::MAX) }
    );
}

#[test]
fn an_id_is_switched_only_where_it_differs() {
    assert!(switches_id(0, 1000));
    assert!(switches_id(1000, 0));
    assert!(switches_id(0, u32::MAX));
    assert!(!switches_id(0, 0));
    assert!(!switches_id(1000, 1000));
    assert!(!switches_id(u32::MAX, u32::MAX));
}

#[test]
fn without_limits_nothing_is_planned() {
    assert_eq!(program("/bin/true").set_process_limits(), vec![]);
}

#[test]
fn limits_are_set_for_every_resource_in_order() {
    let mut spec = program("/bin/true");
    spec.process_limits = Some(ProcessResourceLimits {
        open_files: Some(1024),
        core_size: Some(0),
        ..ProcessResourceLimits::default()
    });
    let steps = spec.set_process_limits();
    let expected = [
        (Resource::AddressSpace, None),
        (Resource::Core, Some(0)),
        (Resource::Cpu, None),
        (Resource::Data, None),
        (Resource::FileSize, None),
        (Resource::LockedMemory, None),
        (Resource::MessageQueue, None),
        (Resource::Nice, None),
        (Resource::OpenFiles, Some(1024)),
        (Resource::Processes, None),
        (Resource::ResidentSet, None),
        (Resource::RealTimePriority, None),
        (Resource::RealTimeTime, None),
        (Resource::PendingSignals, None),
        (Resource::Stack, None),
    ];
    assert_eq!(steps.len(), 15);
    for (step, (resource, limit)) in steps.iter().zip(expected) {
        assert_eq!(
            *step,
            Step {
                operation: Operation::SetLimit { resource, limit },
                stage: Stage::Limits,
                on_failure: OnFailure::SkipStage,
            }
        );
    }
}

#[test]
fn a_bare_program_is_executed_with_itself_as_first_argument() {
    assert_eq!(
        program("/bin/true").execute(),
        Ok(vec![launch(
            Operation::Execute {
                program: "/bin/true".to_string(),
                arguments: vec!["/bin/true".to_string()],
                environment: vec![],
            },
            OnFailure::Abort
        )])
    );
}

#[test]
fn identity_directory_arguments_and_environment_are_planned_in_order() {
    let environment = StringMap::new()
        .insert("container".to_string(), "styrolite".to_string())
        .insert("PATH".to_string(), "/bin:/sbin".to_string());
    let spec = ExecutableSpec {
        executable: Some("/bin/sh".to_string()),
        arguments: Some(vec!["-i".to_string(), "-l".to_string()]),
        working_directory: Some("/".to_string()),
        environment: Some(environment),
        uid: Some(1000),
        gid: Some(100),
        no_new_privs: true,
        process_limits: None,
    };
    assert_eq!(
        spec.execute(),
        Ok(vec![
            launch(Operation::SwitchUser { uid: 1000 }, OnFailure::Continue),
            launch(Operation::SwitchGroup { gid: 100 }, OnFailure::Continue),
            launch(Operation::ChangeDir { path: "/".to_string() }, OnFailure::Abort),
            launch(
                Operation::Execute {
                    program: "/bin/sh".to_string(),
                    arguments: vec!["/bin/sh".to_string(), "-i".to_string(), "-l".to_string()],
                    environment: vec![
                        "PATH=/bin:/sbin".to_string(),
                        "container=styrolite".to_string(),
                    ],
                },
                OnFailure::Abort
            ),
        ])
    );
}

#[test]
fn a_workload_without_a_program_cannot_be_launched() {
    assert_eq!(ExecutableSpec::default().execute(), Err(Error::MissingExecutable));
    let mut spec = ExecutableSpec::default();
    spec.arguments = Some(vec!["a\0".to_string()]);
    assert_eq!(spec.execute(), Err(Error::MissingExecutable));
}

#[test]
fn a_nul_in_program_argument_or_environment_is_refused() {
    assert_eq!(program("/bin/\0true").execute(), Err(Error::InteriorNul));
    let mut spec = program("/bin/true");
    spec.arguments = Some(vec!["fine".to_string(), "not\0fine".to_string()]);
    assert_eq!(spec.execute(), Err(Error::InteriorNul));
    let mut spec = program("/bin/true");
    spec.environment = Some(StringMap::new().insert("K".to_string(), "v\0".to_string()));
    assert_eq!(spec.execute(), Err(Error::InteriorNul));
    let mut spec = program("/bin/true");
    spec.environment = Some(StringMap::new().insert("K\0".to_string(), "v".to_string()));
    assert_eq!(spec.execute(), Err(Error::InteriorNul));
}

#[test]
fn a_nul_in_the_working_directory_is_left_to_the_kernel() {
    let mut spec = program("/bin/true");
    spec.working_directory = Some("/tmp\0".to_string());
    assert!(spec.execute().is_ok());
}
