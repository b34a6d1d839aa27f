//! Turning a mount description into the calls that realise it.

use vstd::prelude::*;

use crate::config::{MountSpec, MountSpecView, Text};
use crate::plan::{Operation, OperationView};
use crate::text::{clone_text, contains_nul};

verus! {

/// Mount read-only.
pub const MS_RDONLY: u64 = 0x01;

/// Ignore set-user-id and set-group-id bits.
pub const MS_NOSUID: u64 = 0x02;

/// Refuse access to device nodes.
pub const MS_NODEV: u64 = 0x04;

/// Refuse to execute programs.
pub const MS_NOEXEC: u64 = 0x08;

/// Change the flags of a mount that exists.
pub const MS_REMOUNT: u64 = 0x20;

/// Make a directory tree visible at a second place.
pub const MS_BIND: u64 = 0x1000;

/// Apply to the whole subtree.
pub const MS_REC: u64 = 0x4000;

/// Keep the kernel log quiet.
pub const MS_SILENT: u64 = 0x8000;

/// Let no mount event pass from or to this mount.
pub const MS_PRIVATE: u64 = 0x040000;

/// Detach the mount now and clean up when it is no longer busy.
pub const MNT_DETACH: i32 = 0x2;

/// Something a mount description can ask for beyond source and target.
#[derive(Clone, Copy, Debug, PartialEq, Eq, Structural)]
pub enum MountOption {
    Bind,
    Recurse,
    Unshare,
    Safe,
    ReadOnly,
}

/// The flag bits that stand for an option.
pub open spec fn option_flags(option: MountOption) -> u64 {
    match option {
        MountOption::Bind => MS_BIND,
        MountOption::Recurse => MS_REC,
        MountOption::Unshare => MS_PRIVATE,
        MountOption::Safe => MS_NOSUID | MS_NODEV | MS_NOEXEC,
        MountOption::ReadOnly => MS_RDONLY,
    }
}

/// Whether a mount description asks for an option.
pub open spec fn asks_for(spec: MountSpecView, option: MountOption) -> bool {
    match option {
        MountOption::Bind => spec.bind,
        MountOption::Recurse => spec.recurse,
        MountOption::Unshare => spec.unshare,
        MountOption::Safe => spec.safe,
        MountOption::ReadOnly => spec.read_only,
    }
}

/// The flag bits of an option where it is asked for, none where it is not.
pub open spec fn flags_if(asked: bool, option: MountOption) -> u64 {
    if asked {
        option_flags(option)
    } else {
        0
    }
}

/// The flag word of a mount: `MS_SILENT` and the bits of every option that
/// the description asks for.
pub open spec fn flag_word(spec: MountSpecView) -> u64 {
    MS_SILENT | flags_if(spec.bind, MountOption::Bind) | flags_if(
        spec.unshare,
        MountOption::Unshare,
    ) | flags_if(spec.recurse, MountOption::Recurse) | flags_if(spec.safe, MountOption::Safe)
        | flags_if(spec.read_only, MountOption::ReadOnly)
}

/// The flag word of the second call that a read-only bind mount needs: the
/// kernel ignores `MS_RDONLY` on the call that binds, so the mount is made
/// read-only by remounting it, with the restrictions of `safe` named again
/// lest the remount lift them.
pub open spec fn remount_word(spec: MountSpecView) -> u64 {
    MS_SILENT | MS_REMOUNT | MS_BIND | MS_RDONLY | flags_if(spec.safe, MountOption::Safe)
}

/// The bitwise OR of the flag bits of a list of options.
pub open spec fn or_of(options: Seq<MountOption>) -> u64
    decreases options.len(),
{
    if options.len() == 0 {
        0
    } else {
        or_of(options.drop_last()) | option_flags(options.last())
    }
}

/// What the kernel is handed for a source or a filesystem type: nothing where
/// the description has none, the empty text where the text cannot be a C
/// string, else the text.
pub open spec fn unpacked(text: Option<Text>) -> Option<Text> {
    match text {
        Some(t) => if t.contains('\0') {
            Some(Seq::empty())
        } else {
            Some(t)
        },
        None => None,
    }
}

/// The call that mounts what `spec` describes.
pub open spec fn mount_call(spec: MountSpecView) -> OperationView {
    OperationView::Mount {
        source: unpacked(spec.source),
        target: spec.target,
        fstype: unpacked(spec.fstype),
        flags: flag_word(spec),
    }
}

/// The call that makes a bind mount read-only.
pub open spec fn remount_call(spec: MountSpecView) -> OperationView {
    OperationView::Mount {
        source: None,
        target: spec.target,
        fstype: None,
        flags: remount_word(spec),
    }
}

/// The calls that realise `spec`, in order: the mount point is created where
/// asked for, the filesystem is mounted, and a read-only bind mount is
/// remounted read-only.
pub open spec fn mount_calls(spec: MountSpecView) -> Seq<OperationView> {
    (if spec.create_mountpoint {
        seq![OperationView::CreateDirAll { path: spec.target }]
    } else {
        Seq::empty()
    }) + seq![mount_call(spec)] + (if spec.bind && spec.read_only {
        seq![remount_call(spec)]
    } else {
        Seq::empty()
    })
}

/// The calls that make `target` the root of the calling process: enter it,
/// pivot the root onto itself, detach the old root that now lies under the
/// same path, and enter the new root.
pub open spec fn pivot_calls(target: Text) -> Seq<OperationView> {
    seq![
        OperationView::ChangeDir { path: target },
        OperationView::PivotRoot { new_root: "."@, put_old: "."@ },
        OperationView::Unmount { target: "."@, flags: MNT_DETACH },
        OperationView::ChangeDir { path: "/"@ },
    ]
}

fn unpack(text: &Option<String>) -> (out: Option<String>)
    ensures
        out.deep_view() == unpacked(text.deep_view()),
{
    match text {
        Some(t) => {
            if contains_nul(t.as_str()) {
                let empty = String::new();
                Some(empty)
            } else {
                Some(t.clone())
            }
        },
        None => None,
    }
}

impl MountSpec {
    /// A copy of the description.
    pub fn duplicate(&self) -> (copy: MountSpec)
        ensures
            copy@ == self@,
    {
        MountSpec {
            source: clone_text(&self.source),
            target: self.target.clone(),
            fstype: clone_text(&self.fstype),
            bind: self.bind,
            recurse: self.recurse,
            unshare: self.unshare,
            safe: self.safe,
            read_only: self.read_only,
            create_mountpoint: self.create_mountpoint,
        }
    }

    /// Computes the flag word of the mount.
    pub fn flags(&self) -> (word: u64)
        ensures
            word == flag_word(self@),
    {
        let mut word: u64 = MS_SILENT;
        if self.bind {
            word = word | MS_BIND;
        }
        if self.unshare {
            word = word | MS_PRIVATE;
        }
        if self.recurse {
            word = word | MS_REC;
        }
        if self.safe {
            word = word | MS_NOSUID | MS_NODEV | MS_NOEXEC;
        }
        if self.read_only {
            word = word | MS_RDONLY;
        }
        proof {
            let b = flags_if(self.bind, MountOption::Bind);
            let u = flags_if(self.unshare, MountOption::Unshare);
            let r = flags_if(self.recurse, MountOption::Recurse);
            let s = flags_if(self.safe, MountOption::Safe);
            let o = flags_if(self.read_only, MountOption::ReadOnly);
            let w0 = 0x8000u64;
            let w1: u64 = if self.bind { w0 | 0x1000u64 } else { w0 };
            let w2: u64 = if self.unshare { w1 | 0x40000u64 } else { w1 };
            let w3: u64 = if self.recurse { w2 | 0x4000u64 } else { w2 };
            let w4: u64 = if self.safe { w3 | 0x02u64 | 0x04u64 | 0x08u64 } else { w3 };
            assert(w1 == w0 | b) by (bit_vector)
                requires
                    w1 == w0 | 0x1000u64 && b == 0x1000u64 || w1 == w0 && b == 0u64,
            ;
            assert(w2 == w1 | u) by (bit_vector)
                requires
                    w2 == w1 | 0x40000u64 && u == 0x40000u64 || w2 == w1 && u == 0u64,
            ;
            assert(w3 == w2 | r) by (bit_vector)
                requires
                    w3 == w2 | 0x4000u64 && r == 0x4000u64 || w3 == w2 && r == 0u64,
            ;
            assert(w4 == w3 | s) by (bit_vector)
                requires
                    w4 == w3 | 0x02u64 | 0x04u64 | 0x08u64 && s == 0x02u64 | 0x04u64 | 0x08u64
                        || w4 == w3 && s == 0u64,
            ;
            assert(word == w4 | o) by (bit_vector)
                requires
                    word == w4 | 0x01u64 && o == 0x01u64 || word == w4 && o == 0u64,
            ;
        }
        word
    }

    fn remount_flags(&self) -> (word: u64)
        ensures
            word == remount_word(self@),
    {
        let base: u64 = MS_SILENT | MS_REMOUNT | MS_BIND | MS_RDONLY;
        if self.safe {
            base | (MS_NOSUID | MS_NODEV | MS_NOEXEC)
        } else {
            assert(base | 0u64 == base) by (bit_vector);
            base
        }
    }

    /// Lists the calls that realise the mount.
    pub fn mount(&self) -> (calls: Vec<Operation>)
        ensures
            calls.deep_view() == mount_calls(self@),
    {
        let mut calls: Vec<Operation> = Vec::new();
        if self.create_mountpoint {
            calls.push(Operation::CreateDirAll { path: self.target.clone() });
        }
        calls.push(
            Operation::Mount {
                source: unpack(&self.source),
                target: self.target.clone(),
                fstype: unpack(&self.fstype),
                flags: self.flags(),
            },
        );
        if self.bind && self.read_only {
            calls.push(
                Operation::Mount {
                    source: None,
                    target: self.target.clone(),
                    fstype: None,
                    flags: self.remount_flags(),
                },
            );
        }
        assert(calls.deep_view() =~= mount_calls(self@));
        calls
    }

    /// Lists the calls that make the mount's target the root of the calling
    /// process.
    pub fn pivot(&self) -> (calls: Vec<Operation>)
        ensures
            calls.deep_view() == pivot_calls(self@.target),
    {
        let mut calls: Vec<Operation> = Vec::new();
        calls.push(Operation::ChangeDir { path: self.target.clone() });
        calls.push(
            Operation::PivotRoot { new_root: String::from_str("."), put_old: String::from_str(".") },
        );
        calls.push(Operation::Unmount { target: String::from_str("."), flags: MNT_DETACH });
        calls.push(Operation::ChangeDir { path: String::from_str("/") });
        assert(calls.deep_view() =~= pivot_calls(self@.target));
        calls
    }
}

/// The bits of the options that occur in a list, each option's bits once.
spec fn canonical(options: Seq<MountOption>) -> u64 {
    flags_if(options.contains(MountOption::Bind), MountOption::Bind) | flags_if(
        options.contains(MountOption::Unshare),
        MountOption::Unshare,
    ) | flags_if(options.contains(MountOption::Recurse), MountOption::Recurse) | flags_if(
        options.contains(MountOption::Safe),
        MountOption::Safe,
    ) | flags_if(options.contains(MountOption::ReadOnly), MountOption::ReadOnly)
}

proof fn lemma_or_of_canonical(options: Seq<MountOption>)
    ensures
        or_of(options) == canonical(options),
    decreases options.len(),
{
    if options.len() == 0 {
        assert(0u64 | 0u64 | 0u64 | 0u64 | 0u64 == 0u64) by (bit_vector);
    } else {
        let init = options.drop_last();
        let last = options.last();
        lemma_or_of_canonical(init);
        assert forall|o: MountOption| options.contains(o) <==> (init.contains(o) || o == last) by {
            if options.contains(o) {
                let i = choose|i: int| 0 <= i < options.len() && options[i] == o;
                if i < options.len() - 1 {
                    assert(init[i] == o);
                }
            }
            if init.contains(o) {
                let i = choose|i: int| 0 <= i < init.len() && init[i] == o;
                assert(options[i] == o);
            }
            assert(options[options.len() - 1] == last);
        }
        let b0 = flags_if(init.contains(MountOption::Bind), MountOption::Bind);
        let u0 = flags_if(init.contains(MountOption::Unshare), MountOption::Unshare);
        let r0 = flags_if(init.contains(MountOption::Recurse), MountOption::Recurse);
        let s0 = flags_if(init.contains(MountOption::Safe), MountOption::Safe);
        let o0 = flags_if(init.contains(MountOption::ReadOnly), MountOption::ReadOnly);
        let b1 = flags_if(options.contains(MountOption::Bind), MountOption::Bind);
        let u1 = flags_if(options.contains(MountOption::Unshare), MountOption::Unshare);
        let r1 = flags_if(options.contains(MountOption::Recurse), MountOption::Recurse);
        let s1 = flags_if(options.contains(MountOption::Safe), MountOption::Safe);
        let o1 = flags_if(options.contains(MountOption::ReadOnly), MountOption::ReadOnly);
        let f = option_flags(last);
        assert(0x02u64 | 0x04u64 | 0x08u64 == 0x0eu64) by (bit_vector);
        assert((b0 | u0 | r0 | s0 | o0) | f == b1 | u1 | r1 | s1 | o1) by (bit_vector)
            requires
                b0 == 0 || b0 == 0x1000u64,
                u0 == 0 || u0 == 0x40000u64,
                r0 == 0 || r0 == 0x4000u64,
                s0 == 0 || s0 == 0x0eu64,
                o0 == 0 || o0 == 0x01u64,
                (f == 0x1000u64 && b1 == f && u1 == u0 && r1 == r0 && s1 == s0 && o1 == o0) || (f
                    == 0x40000u64 && b1 == b0 && u1 == f && r1 == r0 && s1 == s0 && o1 == o0) || (f
                    == 0x4000u64 && b1 == b0 && u1 == u0 && r1 == f && s1 == s0 && o1 == o0) || (f
                    == 0x0eu64 && b1 == b0 && u1 == u0 && r1 == r0 && s1 == f && o1 == o0) || (f
                    == 0x01u64 && b1 == b0 && u1 == u0 && r1 == r0 && s1 == s0 && o1 == f),
        ;
    }
}

/// The flag word of a mount is `MS_SILENT` OR-ed with the bits of the options
/// it asks for, in whatever order and however often the options are listed.
pub proof fn lemma_flag_word_composition(spec: MountSpecView, options: Seq<MountOption>)
    requires
        forall|option: MountOption| options.contains(option) <==> asks_for(spec, option),
    ensures
        flag_word(spec) == MS_SILENT | or_of(options),
{
    lemma_or_of_canonical(options);
    assert(options.contains(MountOption::Bind) == asks_for(spec, MountOption::Bind));
    assert(options.contains(MountOption::Unshare) == asks_for(spec, MountOption::Unshare));
    assert(options.contains(MountOption::Recurse) == asks_for(spec, MountOption::Recurse));
    assert(options.contains(MountOption::Safe) == asks_for(spec, MountOption::Safe));
    assert(options.contains(MountOption::ReadOnly) == asks_for(spec, MountOption::ReadOnly));
    let b = flags_if(spec.bind, MountOption::Bind);
    let u = flags_if(spec.unshare, MountOption::Unshare);
    let r = flags_if(spec.recurse, MountOption::Recurse);
    let s = flags_if(spec.safe, MountOption::Safe);
    let o = flags_if(spec.read_only, MountOption::ReadOnly);
    assert(0x8000u64 | b | u | r | s | o == 0x8000u64 | (b | u | r | s | o)) by (bit_vector);
}

/// An option's bits are all set in the flag word of a mount that asks for
/// it, and none of them in the flag word of a mount that does not.
pub proof fn lemma_flag_word_bits(spec: MountSpecView, option: MountOption)
    ensures
        asks_for(spec, option) ==> flag_word(spec) & option_flags(option) == option_flags(option),
        !asks_for(spec, option) ==> flag_word(spec) & option_flags(option) == 0,
        flag_word(spec) & MS_SILENT == MS_SILENT,
{
    let b = flags_if(spec.bind, MountOption::Bind);
    let u = flags_if(spec.unshare, MountOption::Unshare);
    let r = flags_if(spec.recurse, MountOption::Recurse);
    let s = flags_if(spec.safe, MountOption::Safe);
    let o = flags_if(spec.read_only, MountOption::ReadOnly);
    let f = option_flags(option);
    let w = flag_word(spec);
    assert(0x02u64 | 0x04u64 | 0x08u64 == 0x0eu64) by (bit_vector);
    assert(w & 0x8000u64 == 0x8000u64 && ((f == b || f == u || f == r || f == s || f == o) ==> w
        & f == f) && ((b == 0 && f == 0x1000u64 || u == 0 && f == 0x40000u64 || r == 0 && f
        == 0x4000u64 || s == 0 && f == 0x0eu64 || o == 0 && f == 0x01u64) ==> w & f == 0))
        by (bit_vector)
        requires
            w == 0x8000u64 | b | u | r | s | o,
            b == 0 || b == 0x1000u64,
            u == 0 || u == 0x40000u64,
            r == 0 || r == 0x4000u64,
            s == 0 || s == 0x0eu64,
            o == 0 || o == 0x01u64,
    ;
}

} // verus!
