//! The jail front end: what its command line means.

use vstd::prelude::*;

use crate::config::{
    CreateRequest, CreateRequestView, ExecutableSpecView, MountSpec, MountSpecView, Text,
};
use crate::namespace::Namespace;
use crate::runner::{entries_of, CreateRequestBuilder};
use crate::string_map::{inserted, Entries};
use crate::text::{
    lemma_split_nonempty, length_until, owned, same_text, split, split_text, until,
};

verus! {

/// A fault in an argument of the command line.
#[derive(Clone, Copy, Debug, PartialEq, Eq, Structural)]
pub enum ParseError {
    /// A mount is not of two or three parts, or names an empty path.
    MountShape,
    /// The third part of a mount is not `rw`.
    MountModifier,
    /// A limit has no `=`.
    LimitShape,
    /// A limit has nothing before its `=`.
    LimitKey,
}

impl ParseError {
    /// The text of the diagnostic for this fault.
    pub open spec fn text(self) -> Seq<char> {
        match self {
            ParseError::MountShape => "mount must look like /hostpath:/jailpath[:rw]"@,
            ParseError::MountModifier => "only ':rw' is supported as a mount modifier"@,
            ParseError::LimitShape => "limit must look like key=value"@,
            ParseError::LimitKey => "limit key cannot be empty"@,
        }
    }

    /// The diagnostic for this fault.
    pub fn message(&self) -> (message: &'static str)
        ensures
            message@ == self.text(),
    {
        match self {
            ParseError::MountShape => "mount must look like /hostpath:/jailpath[:rw]",
            ParseError::MountModifier => "only ':rw' is supported as a mount modifier",
            ParseError::LimitShape => "limit must look like key=value",
            ParseError::LimitKey => "limit key cannot be empty",
        }
    }
}

/// A cgroup control file and the value to write to it.
#[derive(Clone, Debug, PartialEq, Eq)]
pub struct ResourceLimit {
    pub key: String,
    pub value: String,
}

/// A [`ResourceLimit`] as plain values.
pub struct ResourceLimitView {
    pub key: Text,
    pub value: Text,
}

impl View for ResourceLimit {
    type V = ResourceLimitView;

    open spec fn view(&self) -> ResourceLimitView {
        ResourceLimitView { key: self.key@, value: self.value@ }
    }
}

impl DeepView for ResourceLimit {
    type V = ResourceLimitView;

    open spec fn deep_view(&self) -> ResourceLimitView {
        self@
    }
}

/// A directory of the host to show inside the jail.
#[derive(Clone, Debug, PartialEq, Eq)]
pub struct CliMountSpec {
    pub hostpath: String,
    pub jailpath: String,
    pub read_write: bool,
}

/// A [`CliMountSpec`] as plain values.
pub struct CliMountSpecView {
    pub hostpath: Text,
    pub jailpath: Text,
    pub read_write: bool,
}

impl View for CliMountSpec {
    type V = CliMountSpecView;

    open spec fn view(&self) -> CliMountSpecView {
        CliMountSpecView {
            hostpath: self.hostpath@,
            jailpath: self.jailpath@,
            read_write: self.read_write,
        }
    }
}

impl DeepView for CliMountSpec {
    type V = CliMountSpecView;

    open spec fn deep_view(&self) -> CliMountSpecView {
        self@
    }
}

impl CliMountSpec {
    /// A copy of the mount.
    pub fn duplicate(&self) -> (copy: CliMountSpec)
        ensures
            copy@ == self@,
    {
        CliMountSpec {
            hostpath: self.hostpath.clone(),
            jailpath: self.jailpath.clone(),
            read_write: self.read_write,
        }
    }
}

/// What a `HOST:JAIL[:rw]` argument means. It has two or three parts
/// between colons, the first two not empty; without a third part the mount
/// is read-only, and the only third part there is, is `rw`.
pub open spec fn parsed_mount(s: Text) -> Result<CliMountSpecView, ParseError> {
    let parts = split(s, ':');
    if parts.len() < 2 || parts.len() > 3 || parts[0].len() == 0 || parts[1].len() == 0 {
        Err(ParseError::MountShape)
    } else if parts.len() == 3 && parts[2] != "rw"@ {
        Err(ParseError::MountModifier)
    } else {
        Ok(CliMountSpecView { hostpath: parts[0], jailpath: parts[1], read_write: parts.len() == 3 })
    }
}

/// What a `KEY=VALUE` argument means. The key is what stands before the
/// first `=` and is not empty; the value is all that follows, as it stands.
pub open spec fn parsed_limit(s: Text) -> Result<ResourceLimitView, ParseError> {
    let key = until(s, '=');
    if key.len() == s.len() {
        Err(ParseError::LimitShape)
    } else if key.len() == 0 {
        Err(ParseError::LimitKey)
    } else {
        Ok(ResourceLimitView { key, value: s.skip(key.len() as int + 1) })
    }
}

/// The mount of the container that shows a host directory in the jail: a
/// bind mount without set-user-id programs, devices or execution, on a
/// mount point made for it, read-only unless asked otherwise.
pub open spec fn jail_mount(mount: CliMountSpecView) -> MountSpecView {
    MountSpecView {
        source: Some(mount.hostpath),
        target: mount.jailpath,
        fstype: None,
        bind: true,
        recurse: false,
        unshare: false,
        safe: true,
        read_only: !mount.read_write,
        create_mountpoint: true,
    }
}

/// The mounts of a jail: the working directory at its own path and
/// writable, unless default mounts are turned off, then the mounts asked
/// for.
pub open spec fn jail_mounts(
    no_default_mounts: bool,
    cwd: Text,
    mounts: Seq<CliMountSpecView>,
) -> Seq<CliMountSpecView> {
    (if no_default_mounts {
        Seq::empty()
    } else {
        seq![CliMountSpecView { hostpath: cwd, jailpath: cwd, read_write: true }]
    }) + mounts
}

/// Reads a `HOST:JAIL[:rw]` argument.
pub fn parse_mount(s: &str) -> (parsed: Result<CliMountSpec, ParseError>)
    ensures
        match parsed {
            Ok(mount) => parsed_mount(s@) == Ok::<CliMountSpecView, ParseError>(mount@),
            Err(error) => parsed_mount(s@) == Err::<CliMountSpecView, ParseError>(error),
        },
{
    let parts = split_text(s, ':');
    proof {
        lemma_split_nonempty(s@, ':');
    }
    if parts.len() < 2 {
        return Err(ParseError::MountShape);
    }
    if parts.len() > 3 {
        return Err(ParseError::MountShape);
    }
    let hostpath = parts[0].as_str();
    let jailpath = parts[1].as_str();
    assert(hostpath@ == split(s@, ':')[0]);
    assert(jailpath@ == split(s@, ':')[1]);
    if hostpath.unicode_len() == 0 || jailpath.unicode_len() == 0 {
        return Err(ParseError::MountShape);
    }
    let read_write = if parts.len() == 3 {
        assert(parts[2]@ == split(s@, ':')[2]);
        if same_text(parts[2].as_str(), "rw") {
            true
        } else {
            return Err(ParseError::MountModifier);
        }
    } else {
        false
    };
    Ok(CliMountSpec { hostpath: owned(hostpath), jailpath: owned(jailpath), read_write })
}

/// Reads a `KEY=VALUE` argument.
pub fn parse_resource_limit(s: &str) -> (parsed: Result<ResourceLimit, ParseError>)
    ensures
        match parsed {
            Ok(limit) => parsed_limit(s@) == Ok::<ResourceLimitView, ParseError>(limit@),
            Err(error) => parsed_limit(s@) == Err::<ResourceLimitView, ParseError>(error),
        },
{
    let end = length_until(s, '=');
    let total = s.unicode_len();
    if end == total {
        return Err(ParseError::LimitShape);
    }
    if end == 0 {
        return Err(ParseError::LimitKey);
    }
    let key = owned(s.substring_char(0, end));
    let value = owned(s.substring_char(end + 1, total));
    proof {
        assert(s@.subrange(0, end as int) =~= s@.take(end as int));
        assert(s@.subrange(end + 1, total as int) =~= s@.skip(end + 1));
    }
    Ok(ResourceLimit { key, value })
}

/// Describes the mount of the container that a mount of the jail stands
/// for.
pub fn to_styrolite_mount(m: &CliMountSpec) -> (spec: MountSpec)
    ensures
        spec@ == jail_mount(m@),
{
    MountSpec {
        source: Some(m.hostpath.clone()),
        target: m.jailpath.clone(),
        fstype: None,
        bind: true,
        recurse: false,
        unshare: false,
        safe: true,
        create_mountpoint: true,
        read_only: !m.read_write,
    }
}

/// Lists the mounts of a jail whose front end runs in the directory `cwd`.
pub fn build_mounts(no_default_mounts: bool, cwd: &str, mounts: &Vec<CliMountSpec>) -> (all: Vec<
    CliMountSpec,
>)
    ensures
        all.deep_view() == jail_mounts(no_default_mounts, cwd@, mounts.deep_view()),
{
    let mut all: Vec<CliMountSpec> = Vec::new();
    if !no_default_mounts {
        all.push(CliMountSpec { hostpath: owned(cwd), jailpath: owned(cwd), read_write: true });
    }
    let ghost head = all.deep_view();
    let ghost asked = mounts.deep_view();
    let mut i: usize = 0;
    assert(all.deep_view() =~= head + asked.take(0));
    while i < mounts.len()
        invariant
            i <= mounts.len(),
            asked == mounts.deep_view(),
            all.deep_view() == head + asked.take(i as int),
        decreases mounts.len() - i,
    {
        let ghost before = all.deep_view();
        let copy = mounts[i].duplicate();
        all.push(copy);
        proof {
            assert(all.deep_view() =~= before.push(asked[i as int]));
            assert(asked.take(i + 1) =~= asked.take(i as int).push(asked[i as int]));
        }
        i += 1;
    }
    assert(asked.take(mounts.len() as int) =~= asked);
    assert(all.deep_view() =~= jail_mounts(no_default_mounts, cwd@, asked));
    all
}

/// The namespaces of a jail, in the order in which the front end asks for
/// them.
pub open spec fn jail_namespaces() -> Seq<Namespace> {
    seq![
        Namespace::Uts,
        Namespace::Time,
        Namespace::Pid,
        Namespace::User,
        Namespace::Ipc,
        Namespace::Mount,
    ]
}

/// The mounts of the container that stand for the mounts of a jail; absent
/// where the jail has none.
pub open spec fn jail_mount_list(mounts: Seq<CliMountSpecView>) -> Option<Seq<MountSpecView>> {
    if mounts.len() == 0 {
        None
    } else {
        Some(mounts.map_values(|mount: CliMountSpecView| jail_mount(mount)))
    }
}

/// The cgroup limits of a jail; where a key is given twice, its last value
/// stands. Absent where the jail has none.
pub open spec fn jail_limits(limits: Seq<ResourceLimitView>) -> Option<Entries>
    decreases limits.len(),
{
    if limits.len() == 0 {
        None
    } else {
        Some(
            inserted(
                entries_of(jail_limits(limits.drop_last())),
                limits.last().key,
                limits.last().value,
            ),
        )
    }
}

/// The request that a command line of the jail front end stands for: the
/// host's own root, read-only; the user namespace entered at once; the six
/// namespaces of a jail; the program with its arguments; the mounts and the
/// limits.
pub open spec fn jail_request_of(
    program: Text,
    args: Seq<Text>,
    mounts: Seq<CliMountSpecView>,
    limits: Seq<ResourceLimitView>,
) -> CreateRequestView {
    CreateRequestView {
        workload: ExecutableSpecView {
            executable: Some(program),
            arguments: Some(args),
            ..ExecutableSpecView::empty()
        },
        rootfs: Some("/"@),
        rootfs_readonly: Some(true),
        skip_two_stage_userns: Some(true),
        namespaces: Some(jail_namespaces()),
        mounts: jail_mount_list(mounts),
        limits: jail_limits(limits),
        ..CreateRequestView::empty()
    }
}

/// Builds the request for a jail that runs `program` with `args`.
pub fn jail_request(
    program: &str,
    args: Vec<&str>,
    mounts: &Vec<CliMountSpec>,
    limits: &Vec<ResourceLimit>,
) -> (request: CreateRequest)
    ensures
        request@ == jail_request_of(
            program@,
            args.deep_view(),
            mounts.deep_view(),
            limits.deep_view(),
        ),
{
    let ghost arguments = args.deep_view();
    let mut builder = CreateRequestBuilder::new().set_rootfs("/").set_rootfs_readonly(
        true,
    ).set_skip_two_stage_userns(true).set_executable(program).push_namespace(
        Namespace::Uts,
    ).push_namespace(Namespace::Time).push_namespace(Namespace::Pid).push_namespace(
        Namespace::User,
    ).push_namespace(Namespace::Ipc).push_namespace(Namespace::Mount);
    assert(builder@.namespaces->0 =~= jail_namespaces());
    builder = builder.set_arguments(args);
    let ghost base = builder@;
    assert(base == jail_request_of(program@, arguments, Seq::empty(), Seq::empty()));

    let ghost asked = mounts.deep_view();
    let mut i: usize = 0;
    assert(asked.take(0) =~= Seq::<CliMountSpecView>::empty());
    while i < mounts.len()
        invariant
            i <= mounts.len(),
            asked == mounts.deep_view(),
            builder@ == (CreateRequestView { mounts: jail_mount_list(asked.take(i as int)), ..base }),
        decreases mounts.len() - i,
    {
        let ghost before = builder@.mounts;
        builder = builder.push_mount(to_styrolite_mount(&mounts[i]));
        proof {
            let taken = asked.take(i as int);
            let next = asked.take(i + 1);
            assert(next =~= taken.push(asked[i as int]));
            assert(builder@.mounts->0 =~= next.map_values(
                |mount: CliMountSpecView| jail_mount(mount),
            ));
        }
        i += 1;
    }
    assert(asked.take(mounts.len() as int) =~= asked);
    let ghost mounted = builder@;

    let ghost wanted = limits.deep_view();
    let mut j: usize = 0;
    assert(wanted.take(0) =~= Seq::<ResourceLimitView>::empty());
    while j < limits.len()
        invariant
            j <= limits.len(),
            wanted == limits.deep_view(),
            builder@ == (CreateRequestView { limits: jail_limits(wanted.take(j as int)), ..mounted }),
        decreases limits.len() - j,
    {
        let lim = &limits[j];
        builder = builder.push_resource_limit(lim.key.as_str(), lim.value.as_str());
        proof {
            assert(wanted.take(j + 1).drop_last() =~= wanted.take(j as int));
        }
        j += 1;
    }
    assert(wanted.take(limits.len() as int) =~= wanted);
    builder.to_request()
}

} // verus!
