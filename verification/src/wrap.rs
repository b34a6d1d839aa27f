//! The supervisor: how a request becomes the ordered steps that build a
//! container around a workload, or that join a container which runs.

use vstd::prelude::*;

use crate::capability::{
    clear_mask, find_name, has_bit, known_name, laid_out, lemma_clear_mask_bits, lemma_find_name,
    lemma_set_mask_bits, numbers_of, set_caps, set_mask, CapResult, CapabilityBit, CAP_LAST_CAP,
};
use crate::cgroup::CGroup;
use crate::config::{Capabilities, CapabilitiesView, IdMapping, Text};
use crate::string_map::{Entries, StringMap};
use crate::error::Error;
use crate::plan::{
    append_calls, keep_policy, lemma_policy_joined, lemma_policy_of_stage, push_steps, steps_of,
    OnFailure, Operation, OperationView, Stage, Step, Steps,
};
use crate::text::{
    decimal, decimal_string, first_word, first_word_bounds, glued, join_path,
    lemma_decimal_digits, owned, parse_i32, parsed_i32, signed_decimal, signed_decimal_string,
};

verus! {

/// The name by which a container goes: its workload id, or the decimal pid
/// of its supervisor where it has none.
pub open spec fn identity_of(workload_id: Option<Text>, supervisor: u32) -> Text {
    match workload_id {
        Some(id) => id,
        None => decimal(supervisor as nat),
    }
}

/// The name of a container's cgroup, and its host name unless the request
/// gives one.
pub open spec fn container_name(identity: Text) -> Text {
    "litewrap-"@ + identity
}

/// One line of an id map.
pub open spec fn mapping_line(mapping: IdMapping) -> Text {
    decimal(mapping.base_nsid as nat) + seq![' '] + decimal(mapping.base_hostid as nat) + seq![' ']
        + decimal(mapping.remap_count as nat)
}

/// An id map as the kernel reads it: one line for each mapping, a newline
/// between two lines and none at the end.
pub open spec fn rendered_mappings(mappings: Seq<IdMapping>) -> Text
    decreases mappings.len(),
{
    if mappings.len() == 0 {
        Seq::empty()
    } else if mappings.len() == 1 {
        mapping_line(mappings[0])
    } else {
        rendered_mappings(mappings.drop_last()) + seq!['\n'] + mapping_line(mappings.last())
    }
}

/// What is written to `/proc/self/timens_offsets` when the boot clock reads
/// `seconds`: the offset that makes the clock start over, one second short
/// of the reading and never positive.
pub open spec fn timens_offsets(seconds: int) -> Text {
    "boottime "@ + (if seconds - 1 <= 0 {
        "0"@
    } else {
        signed_decimal(-(seconds - 1))
    }) + " 0\n"@
}

/// The first token of a list whose tokens are parted by white space.
pub open spec fn first_token(line: Text) -> Text {
    first_word(line)
}

/// The pid of the first child among the children of a process, as the kernel
/// lists them: what the first token denotes, if it is the numeral of a pid.
/// A list that is empty, or that holds nothing but white space, has none.
pub open spec fn first_child(children: Text) -> Option<i32> {
    parsed_i32(first_token(children))
}

/// Whether every name is a capability's.
pub open spec fn all_known(names: Seq<Text>) -> bool {
    forall|i: int| 0 <= i < names.len() ==> known_name(#[trigger] names[i])
}

/// The capability numbers that stand behind a list of names.
pub open spec fn resolved(names: Seq<Text>) -> Seq<nat> {
    names.map_values(|name: Text| find_name(name, 0)->0)
}

/// A list that may be absent, as a list.
pub open spec fn listed(names: Option<Seq<Text>>) -> Seq<Text> {
    match names {
        Some(names) => names,
        None => Seq::empty(),
    }
}

/// Whether every name in the three lists is a capability's.
pub open spec fn capabilities_known(capabilities: CapabilitiesView) -> bool {
    all_known(listed(capabilities.drop)) && all_known(listed(capabilities.raise)) && all_known(
        listed(capabilities.raise_ambient),
    )
}

/// The sets of a thread after the changes: what was effective, less what is
/// dropped, plus what is raised; permitted and inheritable are made the
/// same.
pub open spec fn adjusted(current: CapResult, capabilities: CapabilitiesView) -> CapResult {
    let effective = set_mask(
        clear_mask(current.effective, resolved(listed(capabilities.drop))),
        resolved(listed(capabilities.raise)),
    );
    CapResult { effective, permitted: effective, inheritable: effective }
}

/// The calls that apply the changes to a thread whose sets are `current`:
/// the three sets are written, every dropped capability is lowered in the
/// ambient set, every capability to raise there is raised.
pub open spec fn capability_calls(
    capabilities: CapabilitiesView,
    current: CapResult,
) -> Seq<OperationView> {
    seq![OperationView::SetCapabilities { raw: laid_out(adjusted(current, capabilities)) }]
        + resolved(listed(capabilities.drop)).map_values(
        |number: nat| OperationView::LowerAmbient { capability: number as u8 },
    ) + resolved(listed(capabilities.raise_ambient)).map_values(
        |number: nat| OperationView::RaiseAmbient { capability: number as u8 },
    )
}

/// The steps that apply capability changes; the failure of any of them
/// stops the pipeline.
pub open spec fn capability_steps(
    capabilities: Option<CapabilitiesView>,
    current: CapResult,
) -> Steps {
    match capabilities {
        Some(capabilities) => steps_of(
            capability_calls(capabilities, current),
            Stage::Capabilities,
            OnFailure::Abort,
        ),
        None => Seq::empty(),
    }
}

/// Renders an id map for the kernel.
pub fn render_uidgid_mappings(mappings: &Vec<IdMapping>) -> (rendered: String)
    ensures
        rendered@ == rendered_mappings(mappings@),
{
    let mut rendered = String::new();
    let mut i: usize = 0;
    assert(mappings@.take(0) =~= Seq::<IdMapping>::empty());
    while i < mappings.len()
        invariant
            i <= mappings.len(),
            rendered@ == rendered_mappings(mappings@.take(i as int)),
        decreases mappings.len() - i,
    {
        proof {
            reveal_strlit(" ");
            reveal_strlit("\n");
            assert(mappings@.take(i + 1).drop_last() =~= mappings@.take(i as int));
        }
        let ghost before = rendered@;
        if i > 0 {
            rendered.append("\n");
        }
        let mapping = mappings[i];
        rendered.append(decimal_string(mapping.base_nsid as u64).as_str());
        rendered.append(" ");
        rendered.append(decimal_string(mapping.base_hostid as u64).as_str());
        rendered.append(" ");
        rendered.append(decimal_string(mapping.remap_count as u64).as_str());
        proof {
            let line = mapping_line(mapping);
            if i == 0 {
                assert(rendered@ =~= line);
            } else {
                assert(rendered@ =~= before + seq!['\n'] + line);
            }
        }
        i += 1;
    }
    assert(mappings@.take(mappings.len() as int) =~= mappings@);
    rendered
}

/// Finds the pid of the first child in the kernel's list of the children of
/// a process. The list parts its pids by white space; white space before the
/// first pid and after the last is passed over.
///
/// Fails if and only if the first token is not the numeral of a pid, as it
/// is not where the list is empty or holds nothing but white space.
pub fn first_child_pid_of(children: &str) -> (pid: Result<i32, Error>)
    ensures
        match pid {
            Ok(pid) => first_child(children@) == Some(pid),
            Err(error) => first_child(children@) is None && error == Error::NoChildProcess,
        },
{
    let (start, end) = first_word_bounds(children);
    let token = children.substring_char(start, end);
    match parse_i32(token) {
        Some(pid) => Ok(pid),
        None => Err(Error::NoChildProcess),
    }
}

impl Capabilities {
    /// Resolves capability names to their bits, in order.
    ///
    /// Fails if and only if a name is no capability's.
    pub fn names_as_bits(names: &Vec<String>) -> (bits: Result<Vec<CapabilityBit>, Error>)
        ensures
            match bits {
                Ok(bits) => all_known(names.deep_view()) && numbers_of(bits@) == resolved(
                    names.deep_view(),
                ),
                Err(error) => !all_known(names.deep_view()) && error == Error::UnknownCapability,
            },
    {
        let mut bits: Vec<CapabilityBit> = Vec::new();
        let mut i: usize = 0;
        while i < names.len()
            invariant
                i <= names.len(),
                all_known(names.deep_view().take(i as int)),
                numbers_of(bits@) == resolved(names.deep_view().take(i as int)),
            decreases names.len() - i,
        {
            match CapabilityBit::from_name(names[i].as_str()) {
                Some(bit) => {
                    let ghost before = bits@;
                    bits.push(bit);
                    proof {
                        let all = names.deep_view();
                        assert(all.take(i + 1) =~= all.take(i as int).push(all[i as int]));
                        assert(numbers_of(bits@) =~= numbers_of(before).push(bit.number()));
                        assert(numbers_of(bits@) =~= resolved(all.take(i + 1)));
                    }
                },
                None => {
                    assert(!known_name(names.deep_view()[i as int]));
                    return Err(Error::UnknownCapability);
                },
            }
            i += 1;
        }
        assert(names.deep_view().take(names.len() as int) =~= names.deep_view());
        Ok(bits)
    }
}

fn bits_of(names: &Option<Vec<String>>) -> (bits: Result<Vec<CapabilityBit>, Error>)
    ensures
        match bits {
            Ok(bits) => all_known(listed(names.deep_view())) && numbers_of(bits@) == resolved(
                listed(names.deep_view()),
            ),
            Err(error) => !all_known(listed(names.deep_view())) && error
                == Error::UnknownCapability,
        },
{
    match names {
        Some(names) => Capabilities::names_as_bits(names),
        None => {
            let bits: Vec<CapabilityBit> = Vec::new();
            assert(numbers_of(bits@) =~= resolved(Seq::<Text>::empty()));
            Ok(bits)
        },
    }
}

/// Whether the three lists hold nothing but capability names.
pub fn check_capabilities(capabilities: &Capabilities) -> (known: bool)
    ensures
        known == capabilities_known(capabilities@),
{
    bits_of(&capabilities.drop).is_ok() && bits_of(&capabilities.raise).is_ok() && bits_of(
        &capabilities.raise_ambient,
    ).is_ok()
}

/// Plans the capability changes of a request for a thread whose sets are
/// `current`.
///
/// Fails, with nothing planned, if and only if a list holds a name that is
/// no capability's. Without changes to make, nothing is planned.
pub fn apply_capabilities(capabilities: Option<&Capabilities>, current: CapResult) -> (planned:
    Result<Vec<Step>, Error>)
    ensures
        match planned {
            Ok(steps) => (capabilities is Some ==> capabilities_known(capabilities->0@))
                && steps.deep_view() == capability_steps(capabilities.deep_view(), current),
            Err(error) => capabilities is Some && !capabilities_known(capabilities->0@) && error
                == Error::UnknownCapability,
        },
{
    let mut steps: Vec<Step> = Vec::new();
    assert(steps.deep_view() =~= Steps::empty());
    let Some(caps) = capabilities else {
        return Ok(steps);
    };
    let drops = bits_of(&caps.drop)?;
    let raises = bits_of(&caps.raise)?;
    let raises_ambient = bits_of(&caps.raise_ambient)?;
    let mut current_capabilities = current;
    current_capabilities.effective = CapabilityBit::clear_bits(
        current_capabilities.effective,
        &drops,
    );
    current_capabilities.effective = CapabilityBit::set_bits(
        current_capabilities.effective,
        &raises,
    );
    current_capabilities.permitted = current_capabilities.effective;
    current_capabilities.inheritable = current_capabilities.effective;
    assert(current_capabilities == adjusted(current, caps@));
    let mut calls: Vec<Operation> = Vec::new();
    calls.push(Operation::SetCapabilities { raw: set_caps(current_capabilities) });
    let ghost head = calls.deep_view();
    let ghost lowered = numbers_of(drops@);
    let mut i: usize = 0;
    while i < drops.len()
        invariant
            i <= drops.len(),
            lowered == numbers_of(drops@),
            calls.deep_view() == head + lowered.take(i as int).map_values(
                |number: nat| OperationView::LowerAmbient { capability: number as u8 },
            ),
        decreases drops.len() - i,
    {
        let ghost before = calls.deep_view();
        let capability = drops[i].to_cap_number();
        calls.push(Operation::LowerAmbient { capability });
        proof {
            assert(calls.deep_view() =~= before.push(OperationView::LowerAmbient { capability }));
            assert(lowered[i as int] == capability);
            assert(lowered.take(i + 1) =~= lowered.take(i as int).push(lowered[i as int]));
            assert(calls.deep_view() =~= head + lowered.take(i + 1).map_values(
                |number: nat| OperationView::LowerAmbient { capability: number as u8 },
            ));
        }
        i += 1;
    }
    assert(lowered.take(drops.len() as int) =~= lowered);
    let ghost middle = calls.deep_view();
    let ghost raised = numbers_of(raises_ambient@);
    let mut j: usize = 0;
    while j < raises_ambient.len()
        invariant
            j <= raises_ambient.len(),
            raised == numbers_of(raises_ambient@),
            calls.deep_view() == middle + raised.take(j as int).map_values(
                |number: nat| OperationView::RaiseAmbient { capability: number as u8 },
            ),
        decreases raises_ambient.len() - j,
    {
        let ghost before = calls.deep_view();
        let capability = raises_ambient[j].to_cap_number();
        calls.push(Operation::RaiseAmbient { capability });
        proof {
            assert(calls.deep_view() =~= before.push(OperationView::RaiseAmbient { capability }));
            assert(raised[j as int] == capability);
            assert(raised.take(j + 1) =~= raised.take(j as int).push(raised[j as int]));
            assert(calls.deep_view() =~= middle + raised.take(j + 1).map_values(
                |number: nat| OperationView::RaiseAmbient { capability: number as u8 },
            ));
        }
        j += 1;
    }
    assert(raised.take(raises_ambient.len() as int) =~= raised);
    assert(calls.deep_view() =~= capability_calls(caps@, current));
    push_steps(&mut steps, calls, Stage::Capabilities, OnFailure::Abort);
    assert(steps.deep_view() =~= capability_steps(capabilities.deep_view(), current));
    Ok(steps)
}

/// The root of the cgroup tree that a request works in.
pub open spec fn cgroup_base(cgroupfs: Option<Text>) -> Text {
    match cgroupfs {
        Some(path) => path,
        None => "/sys/fs/cgroup"@,
    }
}

/// The cgroup of the container that goes by `identity`.
pub open spec fn subtree_path(cgroupfs: Option<Text>, identity: Text) -> Text {
    join_path(cgroup_base(cgroupfs), container_name(identity))
}

/// The call that writes one resource limit to its control file.
pub open spec fn limit_write(subtree: Text, entry: (Text, Text)) -> OperationView {
    OperationView::WriteFile { path: join_path(subtree, entry.0), contents: entry.1 }
}

/// The call that moves the supervisor into the cgroup.
pub open spec fn supervisor_bind(subtree: Text, supervisor: u32) -> OperationView {
    OperationView::WriteFile {
        path: join_path(subtree, "cgroup.procs"@),
        contents: decimal(supervisor as nat),
    }
}

/// The steps that place the supervisor in the container's cgroup. The tree
/// is checked, the cgroup is made and checked; each limit is written, and a
/// limit that cannot be written is passed over; the supervisor is moved in.
/// All of it is best effort: what fails ends the stage and nothing more.
pub open spec fn cgroup_entry_steps(
    cgroupfs: Option<Text>,
    identity: Text,
    limits: Entries,
    supervisor: u32,
) -> Steps {
    let subtree = subtree_path(cgroupfs, identity);
    steps_of(
        seq![
            OperationView::CheckAccess { path: cgroup_base(cgroupfs) },
            OperationView::CreateDirAll { path: subtree },
            OperationView::CheckAccess { path: subtree },
        ],
        Stage::Cgroup,
        OnFailure::SkipStage,
    ) + steps_of(
        limits.map_values(|entry: (Text, Text)| limit_write(subtree, entry)),
        Stage::Cgroup,
        OnFailure::Continue,
    ) + steps_of(seq![supervisor_bind(subtree, supervisor)], Stage::Cgroup, OnFailure::SkipStage)
}

/// A file of process `pid` under `/proc`.
pub open spec fn proc_file(pid: int, name: Text) -> Text {
    "/proc/"@ + signed_decimal(pid) + seq!['/'] + name
}

/// The path of a file of process `pid` under `/proc`.
pub fn proc_path(pid: i32, name: &str) -> (path: String)
    ensures
        path@ == proc_file(pid as int, name@),
{
    proof {
        reveal_strlit("/");
    }
    let mut path = owned("/proc/");
    path.append(signed_decimal_string(pid as i64).as_str());
    path.append("/");
    path.append(name);
    assert(path@ =~= proc_file(pid as int, name@));
    path
}

/// The name of the container that goes by `identity`.
pub fn name_container(identity: &str) -> (name: String)
    ensures
        name@ == container_name(identity@),
{
    glued("litewrap-", identity)
}

/// Plans the entry of the supervisor into the cgroup of its container.
pub fn enter_cgroup(
    cgroupfs: &Option<String>,
    identity: &str,
    limits: Option<&StringMap>,
    supervisor: u32,
) -> (steps: Vec<Step>)
    ensures
        steps.deep_view() == cgroup_entry_steps(
            cgroupfs.deep_view(),
            identity@,
            match limits {
                Some(limits) => limits@,
                None => Seq::empty(),
            },
            supervisor,
        ),
{
    let ghost entries: Entries = match limits {
        Some(limits) => limits@,
        None => Seq::empty(),
    };
    let ghost subtree_text = subtree_path(cgroupfs.deep_view(), identity@);
    let cgbase = match cgroupfs {
        Some(path) => path.clone(),
        None => owned("/sys/fs/cgroup"),
    };
    let (cgroot, probe) = CGroup::open(cgbase.as_str());
    let (subtree, create) = cgroot.create_child(name_container(identity).as_str());
    let mut setup: Vec<Operation> = Vec::new();
    setup.push(probe);
    let ghost first = setup.deep_view();
    append_calls(&mut setup, create);
    assert(setup.deep_view() =~= seq![
        OperationView::CheckAccess { path: cgroup_base(cgroupfs.deep_view()) },
        OperationView::CreateDirAll { path: subtree_text },
        OperationView::CheckAccess { path: subtree_text },
    ]);
    let mut steps: Vec<Step> = Vec::new();
    assert(steps.deep_view() =~= Steps::empty());
    push_steps(&mut steps, setup, Stage::Cgroup, OnFailure::SkipStage);
    let mut writes: Vec<Operation> = Vec::new();
    match limits {
        Some(limits) => {
            let mut i: usize = 0;
            assert(writes.deep_view() =~= entries.take(0).map_values(
                |entry: (Text, Text)| limit_write(subtree_text, entry),
            ));
            while i < limits.len()
                invariant
                    i <= entries.len(),
                    entries == limits@,
                    subtree.root() == subtree_text,
                    writes.deep_view() == entries.take(i as int).map_values(
                        |entry: (Text, Text)| limit_write(subtree_text, entry),
                    ),
                decreases entries.len() - i,
            {
                let ghost before = writes.deep_view();
                let write = subtree.clone().set_child_value(limits.key_at(i), limits.value_at(i));
                writes.push(write);
                proof {
                    assert(writes.deep_view() =~= before.push(
                        limit_write(subtree_text, entries[i as int]),
                    ));
                    assert(entries.take(i + 1) =~= entries.take(i as int).push(entries[i as int]));
                    assert(writes.deep_view() =~= entries.take(i + 1).map_values(
                        |entry: (Text, Text)| limit_write(subtree_text, entry),
                    ));
                }
                i += 1;
            }
            assert(entries.take(entries.len() as int) =~= entries);
        },
        None => {
            assert(writes.deep_view() =~= entries.map_values(
                |entry: (Text, Text)| limit_write(subtree_text, entry),
            ));
        },
    }
    push_steps(&mut steps, writes, Stage::Cgroup, OnFailure::Continue);
    let mut bind: Vec<Operation> = Vec::new();
    bind.push(
        subtree.set_child_value("cgroup.procs", decimal_string(supervisor as u64).as_str()),
    );
    assert(bind.deep_view() =~= seq![supervisor_bind(subtree_text, supervisor)]);
    push_steps(&mut steps, bind, Stage::Cgroup, OnFailure::SkipStage);
    steps
}

/// The number behind a capability's name is the position of a bit in a
/// 64-bit set.
proof fn lemma_resolved_in_range(names: Seq<Text>)
    requires
        all_known(names),
    ensures
        forall|i: int| 0 <= i < resolved(names).len() ==> (#[trigger] resolved(names)[i]) < 64,
{
    assert forall|i: int| 0 <= i < resolved(names).len() implies (#[trigger] resolved(names)[i])
        < 64 by {
        let number = choose|number: nat|
            number <= CAP_LAST_CAP && #[trigger] crate::capability::capability_name(number)
                == names[i];
        lemma_find_name(names[i], 0, number);
    }
}

/// After the changes a capability is effective, permitted and inheritable
/// exactly when it is raised, or was effective before and is not dropped.
pub proof fn lemma_adjusted_bits(current: CapResult, capabilities: CapabilitiesView, bit: nat)
    requires
        capabilities_known(capabilities),
        bit < 64,
    ensures
        has_bit(adjusted(current, capabilities).effective, bit) <==> (resolved(
            listed(capabilities.raise),
        ).contains(bit) || (has_bit(current.effective, bit) && !resolved(
            listed(capabilities.drop),
        ).contains(bit))),
        adjusted(current, capabilities).permitted == adjusted(current, capabilities).effective,
        adjusted(current, capabilities).inheritable == adjusted(current, capabilities).effective,
{
    let drops = resolved(listed(capabilities.drop));
    let raises = resolved(listed(capabilities.raise));
    lemma_resolved_in_range(listed(capabilities.drop));
    lemma_resolved_in_range(listed(capabilities.raise));
    lemma_clear_mask_bits(current.effective, drops, bit);
    lemma_set_mask_bits(clear_mask(current.effective, drops), raises, bit);
}

/// Entering the cgroup is best effort from its first step to its last.
pub proof fn lemma_cgroup_policy(
    cgroupfs: Option<Text>,
    identity: Text,
    limits: Entries,
    supervisor: u32,
)
    ensures
        keep_policy(cgroup_entry_steps(cgroupfs, identity, limits, supervisor)),
{
    let subtree = subtree_path(cgroupfs, identity);
    let setup = seq![
        OperationView::CheckAccess { path: cgroup_base(cgroupfs) },
        OperationView::CreateDirAll { path: subtree },
        OperationView::CheckAccess { path: subtree },
    ];
    let writes = limits.map_values(|entry: (Text, Text)| limit_write(subtree, entry));
    let bind = seq![supervisor_bind(subtree, supervisor)];
    lemma_policy_of_stage(setup, Stage::Cgroup, OnFailure::SkipStage);
    lemma_policy_of_stage(writes, Stage::Cgroup, OnFailure::Continue);
    lemma_policy_of_stage(bind, Stage::Cgroup, OnFailure::SkipStage);
    lemma_policy_joined(
        steps_of(setup, Stage::Cgroup, OnFailure::SkipStage),
        steps_of(writes, Stage::Cgroup, OnFailure::Continue),
    );
    lemma_policy_joined(
        steps_of(setup, Stage::Cgroup, OnFailure::SkipStage) + steps_of(
            writes,
            Stage::Cgroup,
            OnFailure::Continue,
        ),
        steps_of(bind, Stage::Cgroup, OnFailure::SkipStage),
    );
}

/// Applying capabilities is best effort at no step: any failure stops the
/// pipeline.
pub proof fn lemma_capability_policy(capabilities: Option<CapabilitiesView>, current: CapResult)
    ensures
        keep_policy(capability_steps(capabilities, current)),
{
    if capabilities is Some {
        lemma_policy_of_stage(
            capability_calls(capabilities->0, current),
            Stage::Capabilities,
            OnFailure::Abort,
        );
    }
}

/// A line of an id map is made of digits and spaces: it holds no newline,
/// and it ends in a digit.
pub proof fn lemma_mapping_line_shape(mapping: IdMapping)
    ensures
        !mapping_line(mapping).contains('\n'),
        mapping_line(mapping).len() > 0,
        '0' <= mapping_line(mapping).last() <= '9',
{
    lemma_decimal_digits(mapping.base_nsid as nat);
    lemma_decimal_digits(mapping.base_hostid as nat);
    lemma_decimal_digits(mapping.remap_count as nat);
    let a = decimal(mapping.base_nsid as nat);
    let b = decimal(mapping.base_hostid as nat);
    let c = decimal(mapping.remap_count as nat);
    let line = mapping_line(mapping);
    assert(line == a + seq![' '] + b + seq![' '] + c);
    assert(line.last() == c.last());
    assert forall|i: int| 0 <= i < line.len() implies line[i] != '\n' by {
        if i < a.len() {
            assert(line[i] == a[i]);
        } else if i == a.len() {
        } else if i < a.len() + 1 + b.len() {
            assert(line[i] == b[i - a.len() - 1]);
        } else if i == a.len() + 1 + b.len() {
        } else {
            assert(line[i] == c[i - a.len() - b.len() - 2]);
        }
    }
}

/// A rendered id map never ends in a newline: it is empty, or it ends in
/// the last digit of its last line.
pub proof fn lemma_rendered_mappings_end(mappings: Seq<IdMapping>)
    ensures
        mappings.len() == 0 ==> rendered_mappings(mappings).len() == 0,
        mappings.len() > 0 ==> rendered_mappings(mappings).len() > 0 && '0' <= rendered_mappings(
            mappings,
        ).last() <= '9',
{
    if mappings.len() > 0 {
        lemma_mapping_line_shape(mappings.last());
        if mappings.len() == 1 {
            assert(mappings[0] == mappings.last());
        } else {
            let rendered = rendered_mappings(mappings);
            let line = mapping_line(mappings.last());
            assert(rendered.last() == line.last());
        }
    }
}

} // verus!
