//! Read-only sysfs access.

use vstd::prelude::*;

use crate::names;
use crate::path::NodePath;

verus! {

/// Read-only sysfs operations, over one reading of the tree: a value answers each question the
/// same way for as long as it lives. Missing attributes and dangling links are `None`, because
/// hotplug can remove a device during the walk.
///
/// Paths are absolute within the tree.
pub trait Sysfs {
    /// The text of each attribute.
    closed spec fn attr(&self, dir: crate::path::PathView, name: Seq<char>) -> Option<Seq<char>> {
        arbitrary()
    }

    /// Where each link leads.
    closed spec fn link(&self, path: crate::path::PathView) -> Option<crate::path::Spelled> {
        arbitrary()
    }

    /// The entries of each directory, in the order of their names.
    closed spec fn entries(&self, dir: crate::path::PathView) -> Seq<crate::path::Spelled> {
        arbitrary()
    }

    /// Which paths exist.
    closed spec fn present(&self, path: crate::path::PathView) -> bool {
        arbitrary()
    }

    /// Whether attributes, links and paths may be looked up now. What must not touch the tree is
    /// not given this leave.
    closed spec fn may_read(&self) -> bool {
        arbitrary()
    }

    /// Which directories may be listed now.
    closed spec fn may_list(&self, dir: crate::path::PathView) -> bool {
        arbitrary()
    }

    /// One attribute file, without the white space around its text. `None` if it does not exist
    /// or cannot be read.
    fn read_attr(&self, dir: &NodePath, name: &str) -> (r: Option<String>)
        requires
            self.may_read(),
        ensures
            match r {
                Some(s) => self.attr(dir@, name@) == Some(s@),
                None => self.attr(dir@, name@) is None,
            },
    ;

    /// `path`, which is normally a link, fully resolved. `None` if it does not exist or leads out
    /// of the tree.
    fn read_link(&self, path: &NodePath) -> (r: Option<NodePath>)
        requires
            self.may_read(),
        ensures
            match r {
                Some(p) => self.link(path@) == Some(p.spelled()),
                None => self.link(path@) is None,
            },
    ;

    /// The entries of `dir`, sorted by name, which is what makes listings the same from run to
    /// run. Empty if `dir` is missing or unreadable.
    fn list_dir(&self, dir: &NodePath) -> (r: Vec<NodePath>)
        requires
            self.may_list(dir@),
        ensures
            crate::path::spellings(r@) == self.entries(dir@),
    ;

    /// Whether `path` exists, following links.
    fn exists_at(&self, path: &NodePath) -> (r: bool)
        requires
            self.may_read(),
        ensures
            r == self.present(path@),
    ;
}

/// A tree below a directory of this machine, such as `/sys`: which file of the machine a path of
/// the tree is, and the other way round.
#[derive(Debug)]
pub struct RealSysfs {
    root: NodePath,
}

impl RealSysfs {
    /// The directory, as it was given.
    pub closed spec fn given(&self) -> crate::path::Spelled {
        self.root.spelled()
    }

    /// The directory.
    pub open spec fn base(&self) -> crate::path::PathView {
        self.given().path
    }

    /// The tree below `root`, which has no links left in it.
    pub fn new(root: NodePath) -> (r: RealSysfs)
        ensures
            r.given() == root.spelled(),
    {
        RealSysfs { root }
    }

    /// The directory.
    pub fn root(&self) -> (r: &NodePath)
        ensures
            r.spelled() == self.given(),
    {
        &self.root
    }

    /// From a path of the tree to a path of the machine.
    pub fn host(&self, path: &NodePath) -> (p: NodePath)
        ensures
            p@ == host_path(self.base(), path@),
            p.words() == p@.text(),
    {
        self.root.under(path)
    }

    /// From a path of the machine to a path of the tree, or `None` where it left the tree. A link
    /// out of a recorded part of the tree is a device that vanished.
    pub fn sysfs_path(&self, host: &NodePath) -> (r: Option<NodePath>)
        ensures
            match r {
                Some(p) => tree_path(self.base(), host@) == Some(p@) && p.words() == p@.text(),
                None => tree_path(self.base(), host@) is None,
            },
    {
        host.below(&self.root)
    }
}

/// The paths of these names in a directory.
pub open spec fn children(dir: crate::path::PathView, names: Seq<Seq<char>>) -> Seq<
    crate::path::PathView,
> {
    Seq::new(names.len(), |i: int| dir.child(names[i]))
}

/// The entries of a directory, from their names as they were read. Names are read in an order
/// that changes from boot to boot; the entries are in the order of their names.
pub fn listed(dir: &NodePath, names: Vec<String>) -> (r: Vec<NodePath>)
    ensures
        exists|sorted: Seq<Seq<char>>|
            names::sorts(names::texts(names@), sorted) && crate::path::views(r@) == children(
                dir@,
                sorted,
            ),
        forall|i: int| 0 <= i < r@.len() ==> (#[trigger] r@[i]).words() == r@[i]@.text(),
{
    let sorted = names::sorted(names);
    let mut r: Vec<NodePath> = Vec::new();
    let mut i: usize = 0;
    while i < sorted.len()
        invariant
            i <= sorted@.len(),
            r@.len() == i,
            forall|k: int| 0 <= k < i ==> (#[trigger] r@[k])@ == dir@.child(sorted@[k]@),
            forall|k: int| 0 <= k < i ==> (#[trigger] r@[k]).words() == r@[k]@.text(),
        decreases sorted@.len() - i,
    {
        r.push(dir.child(sorted[i].as_str()));
        i = i + 1;
    }
    assert(crate::path::views(r@) =~= children(dir@, names::texts(sorted@)));
    r
}

/// From a path of a tree to a path of the machine.
pub open spec fn host_path(root: crate::path::PathView, path: crate::path::PathView) ->
    crate::path::PathView {
    crate::path::PathView {
        rooted: root.rooted,
        parts: root.parts + crate::path::tail_on(root, path),
    }
}

/// From a path of the machine to a path of a tree.
pub open spec fn tree_path(root: crate::path::PathView, host: crate::path::PathView) -> Option<
    crate::path::PathView,
> {
    if host.starts_with(root) {
        Some(
            crate::path::PathView {
                rooted: true,
                parts: host.parts.skip(root.parts.len() as int),
            },
        )
    } else {
        None
    }
}

/// A path of the tree is found again from its path on the machine.
pub proof fn a_host_path_leads_back(root: crate::path::PathView, path: crate::path::PathView)
    requires
        path.rooted,
    ensures
        tree_path(root, host_path(root, path)) == Some(path),
{
    let host = host_path(root, path);
    assert(host.parts.take(root.parts.len() as int) =~= root.parts);
    assert(host.parts.skip(root.parts.len() as int) =~= path.parts);
}

/// A path of the machine is in the tree exactly if it lies below the tree's directory, and it is
/// found again from its path in the tree.
pub proof fn only_what_lies_below_the_root_is_in_the_tree(
    root: crate::path::PathView,
    host: crate::path::PathView,
)
    requires
        root.rooted,
    ensures
        tree_path(root, host) is Some <==> host.starts_with(root),
        tree_path(root, host) matches Some(p) ==> p.rooted && host_path(root, p) == host
            && host.parts == root.parts + p.parts,
{
    if let Some(p) = tree_path(root, host) {
        assert(root.parts + p.parts =~= host.parts) by {
            assert(host.parts.take(root.parts.len() as int) == root.parts);
        }
    }
}

} // verus!
