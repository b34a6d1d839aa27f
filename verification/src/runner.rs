//! Describing a container step by step, and handing the description to the
//! supervisor.

use vstd::prelude::*;

use crate::attach::attach_validation_error;
use crate::config::{
    AttachRequest, AttachRequestView, Capabilities, CapabilitiesView, Config, ConfigView,
    CreateRequest, CreateRequestView, ExecutableSpecView, IdMapping, MountSpec, Mutation,
    ProcessResourceLimits, Text,
};
use crate::create::validation_error;
use crate::error::Error;
use crate::namespace::Namespace;
use crate::string_map::{inserted, Entries, StringMap};
use crate::text::owned;

verus! {

/// One of the three lists of a request's capabilities.
#[derive(Clone, Copy, Debug, PartialEq, Eq, Structural)]
pub enum CapabilityList {
    Raise,
    RaiseAmbient,
    Drop,
}

/// The items of a list that may be absent.
pub open spec fn listed_items<T>(list: Option<Seq<T>>) -> Seq<T> {
    match list {
        Some(items) => items,
        None => Seq::empty(),
    }
}

/// A list that may be absent, with one more item at its end.
pub open spec fn pushed<T>(list: Option<Seq<T>>, item: T) -> Option<Seq<T>> {
    Some(listed_items(list).push(item))
}

/// The entries of a map that may be absent.
pub open spec fn entries_of(map: Option<Entries>) -> Entries {
    match map {
        Some(entries) => entries,
        None => Seq::empty(),
    }
}

/// The capabilities of a request after `name` has been added to one of
/// their lists.
pub open spec fn capability_added(
    capabilities: Option<CapabilitiesView>,
    list: CapabilityList,
    name: Text,
) -> CapabilitiesView {
    let current = match capabilities {
        Some(capabilities) => capabilities,
        None => CapabilitiesView { raise: None, raise_ambient: None, drop: None },
    };
    match list {
        CapabilityList::Raise => CapabilitiesView {
            raise: pushed(current.raise, name),
            ..current
        },
        CapabilityList::RaiseAmbient => CapabilitiesView {
            raise_ambient: pushed(current.raise_ambient, name),
            ..current
        },
        CapabilityList::Drop => CapabilitiesView { drop: pushed(current.drop, name), ..current },
    }
}

fn push_name(names: Option<Vec<String>>, value: String) -> (out: Option<Vec<String>>)
    ensures
        out.deep_view() == pushed(names.deep_view(), value@),
{
    let mut list = match names {
        Some(list) => list,
        None => Vec::new(),
    };
    let ghost before = list.deep_view();
    list.push(value);
    assert(list.deep_view() =~= before.push(value@));
    Some(list)
}

/// Adds `value` to one of the capability lists, making the capabilities
/// and the list where the request had none.
pub fn add_to_cap_list(value: String, caps: &mut Option<Capabilities>, list: CapabilityList)
    ensures
        final(caps).deep_view() == Some(capability_added(old(caps).deep_view(), list, value@)),
{
    let current = match caps.take() {
        Some(current) => current,
        None => Capabilities::default(),
    };
    let Capabilities { raise, raise_ambient, drop } = current;
    let updated = match list {
        CapabilityList::Raise => Capabilities { raise: push_name(raise, value), raise_ambient, drop },
        CapabilityList::RaiseAmbient => Capabilities {
            raise,
            raise_ambient: push_name(raise_ambient, value),
            drop,
        },
        CapabilityList::Drop => Capabilities { raise, raise_ambient, drop: push_name(drop, value) },
    };
    *caps = Some(updated);
}

/// Builds a request to attach, one property at a time.
#[derive(Debug)]
pub struct AttachRequestBuilder {
    config: AttachRequest,
}

impl View for AttachRequestBuilder {
    type V = AttachRequestView;

    closed spec fn view(&self) -> AttachRequestView {
        self.config@
    }
}

impl Default for AttachRequestBuilder {
    fn default() -> (builder: AttachRequestBuilder)
        ensures
            builder@ == AttachRequestView::empty(),
    {
        AttachRequestBuilder { config: AttachRequest::default() }
    }
}

impl AttachRequestBuilder {
    /// A builder of the request that names nothing.
    pub fn new() -> (builder: AttachRequestBuilder)
        ensures
            builder@ == AttachRequestView::empty(),
    {
        AttachRequestBuilder { config: AttachRequest::default() }
    }

    /// Names the supervisor of the container to join, by its pid.
    pub fn set_pid(self, pid: i32) -> (out: AttachRequestBuilder)
        ensures
            out@ == (AttachRequestView { pid, ..self@ }),
    {
        let mut this = self;
        this.config.pid = pid;
        this
    }

    /// Names the program to run.
    pub fn set_executable(self, executable: &str) -> (out: AttachRequestBuilder)
        ensures
            out@ == (AttachRequestView { workload: ExecutableSpecView { executable: Some(executable@), ..self@.workload }, ..self@ }),
    {
        let mut this = self;
        this.config.workload.executable = Some(owned(executable));
        this
    }

    /// Gives the program its arguments, replacing those it had.
    pub fn set_arguments(self, args: Vec<&str>) -> (out: AttachRequestBuilder)
        ensures
            out@ == (AttachRequestView { workload: ExecutableSpecView { arguments: Some(args.deep_view()), ..self@.workload }, ..self@ }),
    {
        let mut this = self;
        let mut converted_args: Vec<String> = Vec::new();
        let mut i: usize = 0;
        while i < args.len()
            invariant
                i <= args.len(),
                converted_args.deep_view() == args.deep_view().take(i as int),
            decreases args.len() - i,
        {
            let ghost before = converted_args.deep_view();
            let arg = owned(args[i]);
            converted_args.push(arg);
            assert(converted_args.deep_view() =~= before.push(arg@));
            assert(converted_args.deep_view() =~= args.deep_view().take(i + 1));
            i += 1;
        }
        assert(args.deep_view().take(args.len() as int) =~= args.deep_view());
        this.config.workload.arguments = Some(converted_args);
        this
    }

    /// Names the directory the program runs in.
    pub fn set_working_directory(self, wd: &str) -> (out: AttachRequestBuilder)
        ensures
            out@ == (AttachRequestView { workload: ExecutableSpecView { working_directory: Some(wd@), ..self@.workload }, ..self@ }),
    {
        let mut this = self;
        this.config.workload.working_directory = Some(owned(wd));
        this
    }

    /// Names the container.
    pub fn set_workload_id(self, workload_id: &str) -> (out: AttachRequestBuilder)
        ensures
            out@ == (AttachRequestView { workload_id: Some(workload_id@), ..self@ }),
    {
        let mut this = self;
        this.config.workload_id = Some(owned(workload_id));
        this
    }

    /// Sets the user id the program runs as.
    pub fn set_uid(self, uid: u32) -> (out: AttachRequestBuilder)
        ensures
            out@ == (AttachRequestView { workload: ExecutableSpecView { uid: Some(uid), ..self@.workload }, ..self@ }),
    {
        let mut this = self;
        this.config.workload.uid = Some(uid);
        this
    }

    /// Sets the group id the program runs as.
    pub fn set_gid(self, gid: u32) -> (out: AttachRequestBuilder)
        ensures
            out@ == (AttachRequestView { workload: ExecutableSpecView { gid: Some(gid), ..self@.workload }, ..self@ }),
    {
        let mut this = self;
        this.config.workload.gid = Some(gid);
        this
    }

    /// Says whether the program may gain privileges through `execve`.
    pub fn set_no_new_privs(self, no_new_privs: bool) -> (out: AttachRequestBuilder)
        ensures
            out@ == (AttachRequestView { workload: ExecutableSpecView { no_new_privs: no_new_privs, ..self@.workload }, ..self@ }),
    {
        let mut this = self;
        this.config.workload.no_new_privs = no_new_privs;
        this
    }

    /// Gives the variable `key` of the program's environment the value
    /// `value`.
    pub fn push_environment(self, key: &str, value: &str) -> (out: AttachRequestBuilder)
        ensures
            out@ == (AttachRequestView { workload: ExecutableSpecView { environment: Some(inserted(entries_of(self@.workload.environment), key@, value@)), ..self@.workload }, ..self@ }),
    {
        let mut this = self;
        let map = match this.config.workload.environment.take() {
            Some(map) => map,
            None => StringMap::new(),
        };
        this.config.workload.environment = Some(map.insert(owned(key), owned(value)));
        this
    }

    /// Adds a namespace to those of the request; the first one added
    /// replaces the default set.
    pub fn push_namespace(self, ns: Namespace) -> (out: AttachRequestBuilder)
        ensures
            out@ == (AttachRequestView { namespaces: pushed(self@.namespaces, ns), ..self@ }),
    {
        let mut this = self;
        let mut nsset = match this.config.namespaces.take() {
            Some(nsset) => nsset,
            None => Vec::new(),
        };
        nsset.push(ns);
        this.config.namespaces = Some(nsset);
        this
    }

    /// Adds a capability to raise.
    pub fn push_raise_capability(self, cap: &str) -> (out: AttachRequestBuilder)
        ensures
            out@ == (AttachRequestView { capabilities: Some(capability_added(self@.capabilities, CapabilityList::Raise, cap@)), ..self@ }),
    {
        let mut this = self;
        add_to_cap_list(owned(cap), &mut this.config.capabilities, CapabilityList::Raise);
        this
    }

    /// Adds a capability to raise in the ambient set.
    pub fn push_raise_ambient_capability(self, cap: &str) -> (out: AttachRequestBuilder)
        ensures
            out@ == (AttachRequestView { capabilities: Some(capability_added(self@.capabilities, CapabilityList::RaiseAmbient, cap@)), ..self@ }),
    {
        let mut this = self;
        add_to_cap_list(owned(cap), &mut this.config.capabilities, CapabilityList::RaiseAmbient);
        this
    }

    /// Adds a capability to drop.
    pub fn push_drop_capability(self, cap: &str) -> (out: AttachRequestBuilder)
        ensures
            out@ == (AttachRequestView { capabilities: Some(capability_added(self@.capabilities, CapabilityList::Drop, cap@)), ..self@ }),
    {
        let mut this = self;
        add_to_cap_list(owned(cap), &mut this.config.capabilities, CapabilityList::Drop);
        this
    }

    /// The request as built so far.
    pub fn to_request(self) -> (request: AttachRequest)
        ensures
            request@ == self@,
    {
        self.config
    }
}

/// Builds a request to create, one property at a time.
#[derive(Debug)]
pub struct CreateRequestBuilder {
    /// The configuration object being constructed.
    config: CreateRequest,
}

impl View for CreateRequestBuilder {
    type V = CreateRequestView;

    closed spec fn view(&self) -> CreateRequestView {
        self.config@
    }
}

impl Default for CreateRequestBuilder {
    fn default() -> (builder: CreateRequestBuilder)
        ensures
            builder@ == CreateRequestView::empty(),
    {
        CreateRequestBuilder { config: CreateRequest::default() }
    }
}

impl CreateRequestBuilder {
    /// A builder of the request that names nothing.
    pub fn new() -> (builder: CreateRequestBuilder)
        ensures
            builder@ == CreateRequestView::empty(),
    {
        CreateRequestBuilder { config: CreateRequest::default() }
    }

    /// Names the directory that becomes the container's root.
    pub fn set_rootfs(self, rootfs: &str) -> (out: CreateRequestBuilder)
        ensures
            out@ == (CreateRequestView { rootfs: Some(rootfs@), ..self@ }),
    {
        let mut this = self;
        this.config.rootfs = Some(owned(rootfs));
        this
    }

    /// Says whether the container's root is read-only.
    pub fn set_rootfs_readonly(self, rootfs_readonly: bool) -> (out: CreateRequestBuilder)
        ensures
            out@ == (CreateRequestView { rootfs_readonly: Some(rootfs_readonly), ..self@ }),
    {
        let mut this = self;
        this.config.rootfs_readonly = Some(rootfs_readonly);
        this
    }

    /// Says whether the user namespace is entered together with the others.
    pub fn set_skip_two_stage_userns(self, skip_two_stage_userns: bool) -> (out: CreateRequestBuilder)
        ensures
            out@ == (CreateRequestView { skip_two_stage_userns: Some(skip_two_stage_userns), ..self@ }),
    {
        let mut this = self;
        this.config.skip_two_stage_userns = Some(skip_two_stage_userns);
        this
    }

    /// Names the program to run.
    pub fn set_executable(self, executable: &str) -> (out: CreateRequestBuilder)
        ensures
            out@ == (CreateRequestView { workload: ExecutableSpecView { executable: Some(executable@), ..self@.workload }, ..self@ }),
    {
        let mut this = self;
        this.config.workload.executable = Some(owned(executable));
        this
    }

    /// Gives the program its arguments, replacing those it had.
    pub fn set_arguments(self, args: Vec<&str>) -> (out: CreateRequestBuilder)
        ensures
            out@ == (CreateRequestView { workload: ExecutableSpecView { arguments: Some(args.deep_view()), ..self@.workload }, ..self@ }),
    {
        let mut this = self;
        let mut converted_args: Vec<String> = Vec::new();
        let mut i: usize = 0;
        while i < args.len()
            invariant
                i <= args.len(),
                converted_args.deep_view() == args.deep_view().take(i as int),
            decreases args.len() - i,
        {
            let ghost before = converted_args.deep_view();
            let arg = owned(args[i]);
            converted_args.push(arg);
            assert(converted_args.deep_view() =~= before.push(arg@));
            assert(converted_args.deep_view() =~= args.deep_view().take(i + 1));
            i += 1;
        }
        assert(args.deep_view().take(args.len() as int) =~= args.deep_view());
        this.config.workload.arguments = Some(converted_args);
        this
    }

    /// Names the directory the program runs in.
    pub fn set_working_directory(self, wd: &str) -> (out: CreateRequestBuilder)
        ensures
            out@ == (CreateRequestView { workload: ExecutableSpecView { working_directory: Some(wd@), ..self@.workload }, ..self@ }),
    {
        let mut this = self;
        this.config.workload.working_directory = Some(owned(wd));
        this
    }

    /// Names the container.
    pub fn set_workload_id(self, workload_id: &str) -> (out: CreateRequestBuilder)
        ensures
            out@ == (CreateRequestView { workload_id: Some(workload_id@), ..self@ }),
    {
        let mut this = self;
        this.config.workload_id = Some(owned(workload_id));
        this
    }

    /// Sets the user id the program runs as.
    pub fn set_uid(self, uid: u32) -> (out: CreateRequestBuilder)
        ensures
            out@ == (CreateRequestView { workload: ExecutableSpecView { uid: Some(uid), ..self@.workload }, ..self@ }),
    {
        let mut this = self;
        this.config.workload.uid = Some(uid);
        this
    }

    /// Sets the group id the program runs as.
    pub fn set_gid(self, gid: u32) -> (out: CreateRequestBuilder)
        ensures
            out@ == (CreateRequestView { workload: ExecutableSpecView { gid: Some(gid), ..self@.workload }, ..self@ }),
    {
        let mut this = self;
        this.config.workload.gid = Some(gid);
        this
    }

    /// Says whether the program may gain privileges through `execve`.
    pub fn set_no_new_privs(self, no_new_privs: bool) -> (out: CreateRequestBuilder)
        ensures
            out@ == (CreateRequestView { workload: ExecutableSpecView { no_new_privs: no_new_privs, ..self@.workload }, ..self@ }),
    {
        let mut this = self;
        this.config.workload.no_new_privs = no_new_privs;
        this
    }

    /// Gives the variable `key` of the program's environment the value
    /// `value`.
    pub fn push_environment(self, key: &str, value: &str) -> (out: CreateRequestBuilder)
        ensures
            out@ == (CreateRequestView { workload: ExecutableSpecView { environment: Some(inserted(entries_of(self@.workload.environment), key@, value@)), ..self@.workload }, ..self@ }),
    {
        let mut this = self;
        let map = match this.config.workload.environment.take() {
            Some(map) => map,
            None => StringMap::new(),
        };
        this.config.workload.environment = Some(map.insert(owned(key), owned(value)));
        this
    }

    /// Adds a namespace to those of the request; the first one added
    /// replaces the default set.
    pub fn push_namespace(self, ns: Namespace) -> (out: CreateRequestBuilder)
        ensures
            out@ == (CreateRequestView { namespaces: pushed(self@.namespaces, ns), ..self@ }),
    {
        let mut this = self;
        let mut nsset = match this.config.namespaces.take() {
            Some(nsset) => nsset,
            None => Vec::new(),
        };
        nsset.push(ns);
        this.config.namespaces = Some(nsset);
        this
    }

    /// Adds a capability to raise.
    pub fn push_raise_capability(self, cap: &str) -> (out: CreateRequestBuilder)
        ensures
            out@ == (CreateRequestView { capabilities: Some(capability_added(self@.capabilities, CapabilityList::Raise, cap@)), ..self@ }),
    {
        let mut this = self;
        add_to_cap_list(owned(cap), &mut this.config.capabilities, CapabilityList::Raise);
        this
    }

    /// Adds a capability to raise in the ambient set.
    pub fn push_raise_ambient_capability(self, cap: &str) -> (out: CreateRequestBuilder)
        ensures
            out@ == (CreateRequestView { capabilities: Some(capability_added(self@.capabilities, CapabilityList::RaiseAmbient, cap@)), ..self@ }),
    {
        let mut this = self;
        add_to_cap_list(owned(cap), &mut this.config.capabilities, CapabilityList::RaiseAmbient);
        this
    }

    /// Adds a capability to drop.
    pub fn push_drop_capability(self, cap: &str) -> (out: CreateRequestBuilder)
        ensures
            out@ == (CreateRequestView { capabilities: Some(capability_added(self@.capabilities, CapabilityList::Drop, cap@)), ..self@ }),
    {
        let mut this = self;
        add_to_cap_list(owned(cap), &mut this.config.capabilities, CapabilityList::Drop);
        this
    }

    /// Names the host of the container.
    pub fn set_hostname(self, hostname: &str) -> (out: CreateRequestBuilder)
        ensures
            out@ == (CreateRequestView { hostname: Some(hostname@), ..self@ }),
    {
        let mut this = self;
        this.config.hostname = Some(owned(hostname));
        this
    }

    /// Says whether `setgroups` is denied in the user namespace.
    pub fn set_setgroups_deny(self, setgroups_deny: bool) -> (out: CreateRequestBuilder)
        ensures
            out@ == (CreateRequestView { setgroups_deny: Some(setgroups_deny), ..self@ }),
    {
        let mut this = self;
        this.config.setgroups_deny = Some(setgroups_deny);
        this
    }

    /// Bounds the POSIX resources of the program.
    pub fn set_process_resource_limits(self, prlimits: ProcessResourceLimits) -> (out: CreateRequestBuilder)
        ensures
            out@ == (CreateRequestView { workload: ExecutableSpecView { process_limits: Some(prlimits), ..self@.workload }, ..self@ }),
    {
        let mut this = self;
        this.config.workload.process_limits = Some(prlimits);
        this
    }

    /// Gives the cgroup control file `key` the value `value`.
    pub fn push_resource_limit(self, key: &str, value: &str) -> (out: CreateRequestBuilder)
        ensures
            out@ == (CreateRequestView {
                limits: Some(inserted(entries_of(self@.limits), key@, value@)),
                ..self@
            }),
    {
        let mut this = self;
        let map = match this.config.limits.take() {
            Some(map) => map,
            None => StringMap::new(),
        };
        this.config.limits = Some(map.insert(owned(key), owned(value)));
        this
    }

    /// Adds a run of user ids to the uid map.
    pub fn push_uid_mapping(self, mapping: IdMapping) -> (out: CreateRequestBuilder)
        ensures
            out@ == (CreateRequestView {
                uid_mappings: pushed(self@.uid_mappings, mapping),
                ..self@
            }),
    {
        let mut this = self;
        let mut map = match this.config.uid_mappings.take() {
            Some(map) => map,
            None => Vec::new(),
        };
        map.push(mapping);
        this.config.uid_mappings = Some(map);
        this
    }

    /// Adds a run of group ids to the gid map.
    pub fn push_gid_mapping(self, mapping: IdMapping) -> (out: CreateRequestBuilder)
        ensures
            out@ == (CreateRequestView {
                gid_mappings: pushed(self@.gid_mappings, mapping),
                ..self@
            }),
    {
        let mut this = self;
        let mut map = match this.config.gid_mappings.take() {
            Some(map) => map,
            None => Vec::new(),
        };
        map.push(mapping);
        this.config.gid_mappings = Some(map);
        this
    }

    /// Adds a mount below the container's root.
    pub fn push_mount(self, spec: MountSpec) -> (out: CreateRequestBuilder)
        ensures
            out@ == (CreateRequestView { mounts: pushed(self@.mounts, spec.deep_view()), ..self@ }),
    {
        let mut this = self;
        let ghost before = this.config.mounts.deep_view();
        let mut list = match this.config.mounts.take() {
            Some(list) => list,
            None => Vec::new(),
        };
        let ghost items = list.deep_view();
        let ghost added = spec.deep_view();
        list.push(spec);
        assert(list.deep_view() =~= items.push(added));
        assert(items =~= listed_items(before));
        this.config.mounts = Some(list);
        this
    }

    /// Adds a change to the container's tree.
    pub fn push_mutation(self, spec: Mutation) -> (out: CreateRequestBuilder)
        ensures
            out@ == (CreateRequestView { mutations: pushed(self@.mutations, spec.deep_view()), ..self@ }),
    {
        let mut this = self;
        let ghost before = this.config.mutations.deep_view();
        let mut list = match this.config.mutations.take() {
            Some(list) => list,
            None => Vec::new(),
        };
        let ghost items = list.deep_view();
        let ghost added = spec.deep_view();
        list.push(spec);
        assert(list.deep_view() =~= items.push(added));
        assert(items =~= listed_items(before));
        this.config.mutations = Some(list);
        this
    }

    /// The request as built so far.
    pub fn to_request(self) -> (request: CreateRequest)
        ensures
            request@ == self@,
    {
        self.config
    }
}

/// A request that can be checked and handed to the supervisor.
pub trait Configurable: Sized {
    /// What validation finds wrong with the request, if anything.
    spec fn fault(&self) -> Option<Error>;

    /// The request as the supervisor reads it.
    spec fn encapsulated(&self) -> ConfigView;

    /// Checks the request.
    fn validate(&self) -> (checked: Result<(), Error>)
        ensures
            match checked {
                Ok(_) => self.fault() is None,
                Err(error) => self.fault() == Some(error),
            },
    ;

    /// Wraps the request for the supervisor, which takes requests of
    /// either kind.
    fn encapsulate(self) -> (config: Config)
        ensures
            config@ == self.encapsulated(),
    ;
}

impl Configurable for CreateRequest {
    open spec fn fault(&self) -> Option<Error> {
        validation_error(self@)
    }

    open spec fn encapsulated(&self) -> ConfigView {
        ConfigView::Create(self@)
    }

    fn validate(&self) -> (checked: Result<(), Error>) {
        CreateRequest::validate(self)
    }

    fn encapsulate(self) -> (config: Config) {
        Config::Create(self)
    }
}

impl Configurable for AttachRequest {
    open spec fn fault(&self) -> Option<Error> {
        attach_validation_error(self@)
    }

    open spec fn encapsulated(&self) -> ConfigView {
        ConfigView::Attach(self@)
    }

    fn validate(&self) -> (checked: Result<(), Error>) {
        AttachRequest::validate(self)
    }

    fn encapsulate(self) -> (config: Config) {
        Config::Attach(self)
    }
}

/// How the supervisor is started: the program and its arguments.
#[derive(Clone, Debug, PartialEq, Eq)]
pub struct Launch {
    pub program: String,
    pub arguments: Vec<String>,
}

/// A [`Launch`] as plain values.
pub struct LaunchView {
    pub program: Text,
    pub arguments: Seq<Text>,
}

impl View for Launch {
    type V = LaunchView;

    open spec fn view(&self) -> LaunchView {
        LaunchView { program: self.program@, arguments: self.arguments.deep_view() }
    }
}

/// Why the front end has no exit code to pass on.
#[derive(Clone, Copy, Debug, PartialEq, Eq, Structural)]
pub enum RunnerError {
    /// The supervisor ended without an exit code.
    NoExitCode,
}

impl RunnerError {
    /// The diagnostic for this fault.
    pub fn message(&self) -> (message: &'static str)
        ensures
            message@ == "failed to launch/monitor child process"@,
    {
        "failed to launch/monitor child process"
    }
}

/// Hands requests to a supervisor program.
#[derive(Debug)]
pub struct Runner {
    executable: String,
}

impl Runner {
    /// The supervisor program.
    pub closed spec fn executable(&self) -> Text {
        self.executable@
    }

    /// A runner that starts the supervisor program `executable`.
    pub fn new(executable: &str) -> (runner: Runner)
        ensures
            runner.executable() == executable@,
    {
        Runner { executable: owned(executable) }
    }

    /// Checks a request and wraps it for the supervisor; what comes back is
    /// what is to be written to the configuration file.
    pub fn write_config<T: Configurable>(&self, config: T) -> (written: Result<Config, Error>)
        ensures
            match written {
                Ok(wrapped) => config.fault() is None && wrapped@ == config.encapsulated(),
                Err(error) => config.fault() == Some(error),
            },
    {
        config.validate()?;
        Ok(config.encapsulate())
    }

    /// The command that starts the supervisor on the configuration file at
    /// `config_path`: the supervisor program with the path as its one
    /// argument.
    pub fn create_command(&self, config_path: &str) -> (command: Launch)
        ensures
            command@ == (LaunchView {
                program: self.executable(),
                arguments: seq![config_path@],
            }),
    {
        let mut arguments: Vec<String> = Vec::new();
        let path = owned(config_path);
        arguments.push(path);
        assert(arguments.deep_view() =~= seq![config_path@]);
        Launch { program: self.executable.clone(), arguments }
    }

    /// Prepares the run of a container as a child process: what to write
    /// to the configuration file at `config_path`, and the command to
    /// start.
    ///
    /// Fails if and only if the request does not pass validation.
    pub fn run<T: Configurable>(&self, config: T, config_path: &str) -> (prepared: Result<
        (Config, Launch),
        Error,
    >)
        ensures
            match prepared {
                Ok((wrapped, command)) => config.fault() is None && wrapped@
                    == config.encapsulated() && command@ == (LaunchView {
                    program: self.executable(),
                    arguments: seq![config_path@],
                }),
                Err(error) => config.fault() == Some(error),
            },
    {
        let wrapped = self.write_config(config)?;
        Ok((wrapped, self.create_command(config_path)))
    }

    /// Prepares the replacement of the calling process by the supervisor:
    /// what to write to the configuration file at `config_path`, and the
    /// command to execute. The configuration file outlives the front end,
    /// since nothing of the front end is left to remove it.
    ///
    /// Fails if and only if the request does not pass validation.
    pub fn exec<T: Configurable>(&self, config: T, config_path: &str) -> (prepared: Result<
        (Config, Launch),
        Error,
    >)
        ensures
            match prepared {
                Ok((wrapped, command)) => config.fault() is None && wrapped@
                    == config.encapsulated() && command@ == (LaunchView {
                    program: self.executable(),
                    arguments: seq![config_path@],
                }),
                Err(error) => config.fault() == Some(error),
            },
    {
        self.run(config, config_path)
    }

    /// How the configuration file is named: what its name begins with and
    /// what it ends in, with something of the front end's choosing between.
    pub fn config_file_name() -> (affixes: (&'static str, &'static str))
        ensures
            affixes.0@ == "styrolite-cfg-"@,
            affixes.1@ == ".json"@,
    {
        ("styrolite-cfg-", ".json")
    }

    /// The exit code that a run passes on, given the code the supervisor
    /// ended with, if it ended with one.
    pub fn exit_code(code: Option<i32>) -> (passed: Result<i32, RunnerError>)
        ensures
            passed == (match code {
                Some(code) => Ok::<i32, RunnerError>(code),
                None => Err::<i32, RunnerError>(RunnerError::NoExitCode),
            }),
    {
        match code {
            Some(code) => Ok(code),
            None => Err(RunnerError::NoExitCode),
        }
    }
}

} // verus!
