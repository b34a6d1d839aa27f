//! Walking a cgroup v2 tree.
//!
//! Resource limits are enforced by writing values to the control files of a
//! cgroup; version 1 is not supported. A delegated subtree works as well as
//! the root of the tree, once the root user has made it, handed it to the
//! delegated user and enabled the controllers that user may use.
//!
//! The supervisor is moved into the cgroup, not the workload: whatever the
//! supervisor starts afterwards is born inside it, so that no process can run
//! outside the cgroup for even a moment.

use vstd::prelude::*;

use crate::config::Text;
use crate::plan::{Operation, OperationView};
use crate::text::{join_path, joined_path, owned};

verus! {

/// A place in a cgroup v2 tree.
#[derive(Debug)]
pub struct CGroup {
    /// The root (or delegated root) of the tree, or a node below it.
    root: String,
}

impl Clone for CGroup {
    fn clone(&self) -> (copy: CGroup)
        ensures
            copy.root() == self.root(),
    {
        CGroup { root: self.root.clone() }
    }
}

impl CGroup {
    /// The path of the node.
    pub closed spec fn root(&self) -> Text {
        self.root@
    }

    /// The path of the node.
    pub fn path(&self) -> (path: &str)
        ensures
            path@ == self.root(),
    {
        self.root.as_str()
    }

    /// A walker at `root`, and the check that `root` exists and may be
    /// entered, which is to succeed before the walker is used.
    pub fn open(root: &str) -> (opened: (CGroup, Operation))
        ensures
            opened.0.root() == root@,
            opened.1@ == (OperationView::CheckAccess { path: root@ }),
    {
        (CGroup { root: owned(root) }, Operation::CheckAccess { path: owned(root) })
    }

    /// A walker at the child node `child`, and the check that it exists.
    pub fn open_child(self, child: &str) -> (opened: (CGroup, Operation))
        ensures
            opened.0.root() == join_path(self.root(), child@),
            opened.1@ == (OperationView::CheckAccess { path: join_path(self.root(), child@) }),
    {
        let path = joined_path(self.root.as_str(), child);
        CGroup::open(path.as_str())
    }

    /// A walker at the child node `child`, and the calls that create the node
    /// with every node above it and check that it can be entered.
    pub fn create_child(self, child: &str) -> (created: (CGroup, Vec<Operation>))
        ensures
            created.0.root() == join_path(self.root(), child@),
            created.1.deep_view() == seq![
                OperationView::CreateDirAll { path: join_path(self.root(), child@) },
                OperationView::CheckAccess { path: join_path(self.root(), child@) },
            ],
    {
        let path = joined_path(self.root.as_str(), child);
        let (node, check) = CGroup::open(path.as_str());
        let mut calls: Vec<Operation> = Vec::new();
        calls.push(Operation::CreateDirAll { path });
        calls.push(check);
        assert(calls.deep_view() =~= seq![
            OperationView::CreateDirAll { path: join_path(self.root(), child@) },
            OperationView::CheckAccess { path: join_path(self.root(), child@) },
        ]);
        (node, calls)
    }

    /// The call that writes `value`, as it stands, to the control file
    /// `child` of the node.
    pub fn set_child_value(self, child: &str, value: &str) -> (write: Operation)
        ensures
            write@ == (OperationView::WriteFile {
                path: join_path(self.root(), child@),
                contents: value@,
            }),
    {
        Operation::WriteFile {
            path: joined_path(self.root.as_str(), child),
            contents: owned(value),
        }
    }
}

} // verus!
