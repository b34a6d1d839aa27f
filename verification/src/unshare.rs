//! Leaving the namespaces a process was born in, and entering those of
//! another process.

use vstd::prelude::*;

use crate::config::Text;
use crate::namespace::{
    clone_flag, clone_flags_of, flags_of, has_namespace, proc_name, remove_namespace,
    to_clone_flags, to_proc_name, without, Namespace,
};
use crate::plan::{Operation, OperationView};
use crate::text::{owned, signed_decimal, signed_decimal_string};

verus! {

/// The call that leaves the namespaces of the listed kinds at once.
pub open spec fn unshare_call(kinds: Seq<Namespace>) -> OperationView {
    OperationView::Unshare { flags: clone_flags_of(kinds) }
}

/// The file that stands for the namespace of kind `ns` of process `pid`.
pub open spec fn namespace_path(pid: int, ns: Namespace) -> Text {
    "/proc/"@ + signed_decimal(pid) + "/ns/"@ + proc_name(ns)
}

/// The order in which namespaces are entered: the user namespace first
/// where it is asked for, since entering it is what gives the right to enter
/// the others, then the other kinds as listed.
pub open spec fn entry_order(kinds: Seq<Namespace>) -> Seq<Namespace> {
    (if kinds.contains(Namespace::User) {
        seq![Namespace::User]
    } else {
        Seq::empty()
    }) + without(kinds, Namespace::User)
}

/// The call that enters the namespace of kind `ns` of process `pid`.
pub open spec fn enter_call(pid: int, ns: Namespace) -> OperationView {
    OperationView::EnterNamespace { path: namespace_path(pid, ns), flag: clone_flag(ns) }
}

/// The calls that enter the namespaces of the listed kinds of process `pid`.
pub open spec fn setns_calls(pid: int, kinds: Seq<Namespace>) -> Seq<OperationView> {
    entry_order(kinds).map_values(|ns: Namespace| enter_call(pid, ns))
}

/// The call that gives the calling process fresh namespaces of the listed
/// kinds.
pub fn unshare(kinds: &Vec<Namespace>) -> (call: Operation)
    ensures
        call@ == unshare_call(kinds@),
{
    Operation::Unshare { flags: flags_of(kinds) }
}

fn enter(pid: i32, ns: Namespace) -> (call: Operation)
    ensures
        call@ == enter_call(pid as int, ns),
{
    let mut path = owned("/proc/");
    path.append(signed_decimal_string(pid as i64).as_str());
    path.append("/ns/");
    path.append(to_proc_name(ns));
    Operation::EnterNamespace { path, flag: to_clone_flags(ns) }
}

/// The calls that move the calling process into namespaces of process
/// `pid`, one call for each listed kind.
pub fn setns(pid: i32, kinds: &Vec<Namespace>) -> (calls: Vec<Operation>)
    ensures
        calls.deep_view() == setns_calls(pid as int, kinds@),
{
    let mut calls: Vec<Operation> = Vec::new();
    let ghost mut order: Seq<Namespace> = Seq::empty();
    if has_namespace(kinds, Namespace::User) {
        calls.push(enter(pid, Namespace::User));
        proof {
            order = seq![Namespace::User];
        }
    }
    let rest = remove_namespace(kinds, Namespace::User);
    let ghost head = order;
    assert(calls.deep_view() =~= head.map_values(|ns: Namespace| enter_call(pid as int, ns)));
    let mut i: usize = 0;
    while i < rest.len()
        invariant
            i <= rest.len(),
            rest@ == without(kinds@, Namespace::User),
            head + rest@ == entry_order(kinds@),
            calls.deep_view() == (head + rest@.take(i as int)).map_values(
                |ns: Namespace| enter_call(pid as int, ns),
            ),
        decreases rest.len() - i,
    {
        let ghost before = calls.deep_view();
        let call = enter(pid, rest[i]);
        calls.push(call);
        proof {
            assert(calls.deep_view() =~= before.push(call@));
            assert(head + rest@.take(i + 1) =~= (head + rest@.take(i as int)).push(rest@[i as int]));
            assert(calls.deep_view() =~= (head + rest@.take(i + 1)).map_values(
                |ns: Namespace| enter_call(pid as int, ns),
            ));
        }
        i += 1;
    }
    assert(rest@.take(rest.len() as int) =~= rest@);
    calls
}

} // verus!
