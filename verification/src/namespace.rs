//! Namespace kinds and the clone flag the kernel knows each by.

use vstd::prelude::*;

verus! {

/// Flag of the time namespace: clocks seen by the children of the caller.
pub const CLONE_NEWTIME: i32 = 0x00000080;

/// Flag of the mount namespace: the caller gets a private copy of its mount tree.
pub const CLONE_NEWNS: i32 = 0x00020000;

/// Flag of the cgroup namespace.
pub const CLONE_NEWCGROUP: i32 = 0x02000000;

/// Flag of the UTS namespace: host and domain name.
pub const CLONE_NEWUTS: i32 = 0x04000000;

/// Flag of the IPC namespace.
pub const CLONE_NEWIPC: i32 = 0x08000000;

/// Flag of the user namespace: the caller gets a full capability set in a new
/// namespace. The kernel refuses it to a process with more than one thread.
pub const CLONE_NEWUSER: i32 = 0x10000000;

/// Flag of the PID namespace: the first child of the caller becomes PID 1 of a
/// new namespace. The caller itself does not move.
pub const CLONE_NEWPID: i32 = 0x20000000;

/// Flag of the network namespace.
pub const CLONE_NEWNET: i32 = 0x40000000;

/// A kind of kernel namespace.
#[derive(PartialEq, Eq, Hash, Clone, Copy, Debug, Structural)]
pub enum Namespace {
    /// See [`CLONE_NEWNS`].
    Mount,
    /// See [`CLONE_NEWUTS`].
    Uts,
    /// See [`CLONE_NEWIPC`].
    Ipc,
    /// See [`CLONE_NEWUSER`].
    User,
    /// See [`CLONE_NEWPID`].
    Pid,
    /// See [`CLONE_NEWNET`].
    Net,
    /// See [`CLONE_NEWCGROUP`].
    Cgroup,
    /// See [`CLONE_NEWTIME`].
    Time,
}

/// The clone flag of a namespace kind.
pub open spec fn clone_flag(ns: Namespace) -> i32 {
    match ns {
        Namespace::Mount => CLONE_NEWNS,
        Namespace::Uts => CLONE_NEWUTS,
        Namespace::Ipc => CLONE_NEWIPC,
        Namespace::User => CLONE_NEWUSER,
        Namespace::Pid => CLONE_NEWPID,
        Namespace::Net => CLONE_NEWNET,
        Namespace::Cgroup => CLONE_NEWCGROUP,
        Namespace::Time => CLONE_NEWTIME,
    }
}

/// The name of a namespace kind's entry under `/proc/<pid>/ns/`.
pub open spec fn proc_name(ns: Namespace) -> Seq<char> {
    match ns {
        Namespace::Mount => "mnt"@,
        Namespace::Uts => "uts"@,
        Namespace::Ipc => "ipc"@,
        Namespace::User => "user"@,
        Namespace::Pid => "pid"@,
        Namespace::Net => "net"@,
        Namespace::Cgroup => "cgroup"@,
        Namespace::Time => "time"@,
    }
}

pub fn to_clone_flags(ns: Namespace) -> (flag: i32)
    ensures
        flag == clone_flag(ns),
{
    match ns {
        Namespace::Mount => CLONE_NEWNS,
        Namespace::Uts => CLONE_NEWUTS,
        Namespace::Ipc => CLONE_NEWIPC,
        Namespace::User => CLONE_NEWUSER,
        Namespace::Pid => CLONE_NEWPID,
        Namespace::Net => CLONE_NEWNET,
        Namespace::Cgroup => CLONE_NEWCGROUP,
        Namespace::Time => CLONE_NEWTIME,
    }
}

/// The entry of `ns` under `/proc/<pid>/ns/`.
pub fn to_proc_name(ns: Namespace) -> (name: &'static str)
    ensures
        name@ == proc_name(ns),
{
    match ns {
        Namespace::Mount => "mnt",
        Namespace::Uts => "uts",
        Namespace::Ipc => "ipc",
        Namespace::User => "user",
        Namespace::Pid => "pid",
        Namespace::Net => "net",
        Namespace::Cgroup => "cgroup",
        Namespace::Time => "time",
    }
}

/// The namespaces a request gets when it names none, in the order they are
/// set up.
pub open spec fn default_namespaces() -> Seq<Namespace> {
    seq![
        Namespace::Mount,
        Namespace::Time,
        Namespace::Uts,
        Namespace::Pid,
        Namespace::Ipc,
        Namespace::User,
    ]
}

/// The flag word of a list of namespace kinds: the bitwise OR of their flags.
pub open spec fn clone_flags_of(kinds: Seq<Namespace>) -> i32
    decreases kinds.len(),
{
    if kinds.len() == 0 {
        0i32
    } else {
        clone_flags_of(kinds.drop_last()) | clone_flag(kinds.last())
    }
}

/// `kinds` without every occurrence of `ns`, the rest in their order.
pub open spec fn without(kinds: Seq<Namespace>, ns: Namespace) -> Seq<Namespace> {
    kinds.filter(|k: Namespace| k != ns)
}

/// Each kind has one bit of its own, so OR-ing a flag in sets that kind's bit
/// and leaves every other kind's bit as it was.
proof fn lemma_flag_step(acc: i32, a: Namespace, b: Namespace)
    ensures
        ((acc | clone_flag(a)) & clone_flag(b) != 0) <==> (a == b || acc & clone_flag(b) != 0),
        0i32 & clone_flag(b) == 0,
{
    let fa = clone_flag(a);
    let fb = clone_flag(b);
    assert(0i32 & fb == 0) by (bit_vector);
    if a == b {
        assert((acc | fa) & fa != 0) by (bit_vector)
            requires
                fa != 0,
        ;
    } else {
        assert(fa & fb == 0) by (bit_vector)
            requires
                fa != fb,
                fa == 0x80i32 || fa == 0x20000i32 || fa == 0x2000000i32 || fa == 0x4000000i32 || fa
                    == 0x8000000i32 || fa == 0x10000000i32 || fa == 0x20000000i32 || fa
                    == 0x40000000i32,
                fb == 0x80i32 || fb == 0x20000i32 || fb == 0x2000000i32 || fb == 0x4000000i32 || fb
                    == 0x8000000i32 || fb == 0x10000000i32 || fb == 0x20000000i32 || fb
                    == 0x40000000i32,
        ;
        assert(((acc | fa) & fb != 0) <==> (acc & fb != 0)) by (bit_vector)
            requires
                fa & fb == 0,
        ;
    }
}

/// The flag word of a list holds the bit of a kind exactly when the list holds
/// that kind: it depends on which kinds occur, not on their order or number.
pub proof fn lemma_flags_membership(kinds: Seq<Namespace>, ns: Namespace)
    ensures
        (clone_flags_of(kinds) & clone_flag(ns) != 0) <==> kinds.contains(ns),
    decreases kinds.len(),
{
    if kinds.len() == 0 {
        lemma_flag_step(0, ns, ns);
    } else {
        let init = kinds.drop_last();
        lemma_flags_membership(init, ns);
        lemma_flag_step(clone_flags_of(init), kinds.last(), ns);
        if kinds.contains(ns) {
            let i = choose|i: int| 0 <= i < kinds.len() && kinds[i] == ns;
            if i < kinds.len() - 1 {
                assert(init[i] == ns);
            }
        }
        if init.contains(ns) {
            let i = choose|i: int| 0 <= i < init.len() && init[i] == ns;
            assert(kinds[i] == ns);
        }
    }
}

/// Whether `kinds` holds `ns`.
pub fn has_namespace(kinds: &Vec<Namespace>, ns: Namespace) -> (found: bool)
    ensures
        found == kinds@.contains(ns),
{
    let mut i: usize = 0;
    while i < kinds.len()
        invariant
            i <= kinds.len(),
            forall|j: int| 0 <= j < i ==> kinds@[j] != ns,
        decreases kinds.len() - i,
    {
        if kinds[i] == ns {
            return true;
        }
        i += 1;
    }
    false
}

/// OR-s together the clone flags of `kinds`.
pub fn flags_of(kinds: &Vec<Namespace>) -> (flags: i32)
    ensures
        flags == clone_flags_of(kinds@),
{
    let mut flags: i32 = 0;
    let mut i: usize = 0;
    while i < kinds.len()
        invariant
            i <= kinds.len(),
            flags == clone_flags_of(kinds@.take(i as int)),
        decreases kinds.len() - i,
    {
        assert(kinds@.take(i + 1).drop_last() =~= kinds@.take(i as int));
        flags = flags | to_clone_flags(kinds[i]);
        i += 1;
    }
    assert(kinds@.take(kinds.len() as int) =~= kinds@);
    flags
}

/// Copies `kinds` without every occurrence of `ns`, keeping the order.
pub fn remove_namespace(kinds: &Vec<Namespace>, ns: Namespace) -> (rest: Vec<Namespace>)
    ensures
        rest@ == without(kinds@, ns),
{
    let mut rest: Vec<Namespace> = Vec::new();
    let mut i: usize = 0;
    proof {
        reveal(Seq::filter);
        assert(kinds@.take(0) =~= Seq::<Namespace>::empty());
    }
    while i < kinds.len()
        invariant
            i <= kinds.len(),
            rest@ == without(kinds@.take(i as int), ns),
        decreases kinds.len() - i,
    {
        proof {
            reveal(Seq::filter);
            assert(kinds@.take(i + 1).drop_last() =~= kinds@.take(i as int));
        }
        if kinds[i] != ns {
            rest.push(kinds[i]);
        }
        i += 1;
    }
    assert(kinds@.take(kinds.len() as int) =~= kinds@);
    rest
}

/// What is left of a list without a kind holds every other kind the list
/// held, and not that kind.
pub proof fn lemma_without_membership(kinds: Seq<Namespace>, removed: Namespace, ns: Namespace)
    ensures
        without(kinds, removed).contains(ns) <==> (kinds.contains(ns) && ns != removed),
    decreases kinds.len(),
{
    reveal(Seq::filter);
    if kinds.len() > 0 {
        let init = kinds.drop_last();
        let last = kinds.last();
        lemma_without_membership(init, removed, ns);
        let kept = without(init, removed);
        let out = without(kinds, removed);
        if kinds.contains(ns) {
            let i = choose|i: int| 0 <= i < kinds.len() && kinds[i] == ns;
            if i < kinds.len() - 1 {
                assert(init[i] == ns);
            }
        }
        if init.contains(ns) {
            let i = choose|i: int| 0 <= i < init.len() && init[i] == ns;
            assert(kinds[i] == ns);
        }
        if last != removed {
            assert(out == kept.push(last));
            assert(out[out.len() - 1] == last);
            if kept.contains(ns) {
                let i = choose|i: int| 0 <= i < kept.len() && kept[i] == ns;
                assert(out[i] == ns);
            }
            if out.contains(ns) {
                let i = choose|i: int| 0 <= i < out.len() && out[i] == ns;
                if i < out.len() - 1 {
                    assert(kept[i] == ns);
                }
            }
        } else {
            assert(out == kept);
        }
        assert(kinds[kinds.len() - 1] == last);
    }
}

/// The namespaces a request works with: those it names, or the default.
pub open spec fn namespaces_or_default(named: Option<Seq<Namespace>>) -> Seq<Namespace> {
    match named {
        Some(kinds) => kinds,
        None => default_namespaces(),
    }
}

/// Lists the namespaces a request works with.
pub fn requested_namespaces(named: &Option<Vec<Namespace>>) -> (kinds: Vec<Namespace>)
    ensures
        kinds@ == namespaces_or_default(
            match named {
                Some(list) => Some(list@),
                None => None,
            },
        ),
{
    let mut kinds: Vec<Namespace> = Vec::new();
    match named {
        Some(list) => {
            let mut i: usize = 0;
            while i < list.len()
                invariant
                    i <= list.len(),
                    kinds@ == list@.take(i as int),
                decreases list.len() - i,
            {
                kinds.push(list[i]);
                assert(kinds@ =~= list@.take(i + 1));
                i += 1;
            }
            assert(list@.take(list.len() as int) =~= list@);
        },
        None => {
            kinds.push(Namespace::Mount);
            kinds.push(Namespace::Time);
            kinds.push(Namespace::Uts);
            kinds.push(Namespace::Pid);
            kinds.push(Namespace::Ipc);
            kinds.push(Namespace::User);
            assert(kinds@ =~= default_namespaces());
        },
    }
    kinds
}

} // verus!
