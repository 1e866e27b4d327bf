//! The data model of the file-storage collaborator: the tree of files shown
//! to the user and the small persisted settings record.
//!
//! Walking directories and reading or writing the settings file is I/O and
//! stays outside the engine; these types and constructors cover the part
//! that is pure — assembling nodes and the root wrapper, and the default
//! settings value.
use vstd::prelude::*;
use vstd::string::StringExecFns;

verus! {

/// One node of the listed file tree: its identifier, display label, path,
/// children, and whether it is a directory.
#[derive(Debug)]
pub struct TreeNode {
    pub id: String,
    pub label: String,
    pub path: String,
    pub children: Vec<TreeNode>,
    pub is_dir: bool,
}

impl TreeNode {
    /// A childless node with the given identity.
    pub fn new(id: String, label: String, path: String, is_dir: bool) -> (r: TreeNode)
        ensures
            r.id@ == id@,
            r.label@ == label@,
            r.path@ == path@,
            r.children@ == Seq::<TreeNode>::empty(),
            r.is_dir == is_dir,
    {
        TreeNode { id, label, path, children: Vec::new(), is_dir }
    }

    /// Appends one child, keeping the earlier ones in order.
    pub fn push_child(&mut self, child: TreeNode)
        ensures
            final(self).id == old(self).id,
            final(self).label == old(self).label,
            final(self).path == old(self).path,
            final(self).is_dir == old(self).is_dir,
            final(self).children@ == old(self).children@.push(child),
    {
        self.children.push(child);
    }

    /// The directory node that wraps a listed tree: labelled `root`, carrying
    /// the listed path as both identifier and path, with the tree as its one
    /// child.
    pub fn root_node(path: String, child: TreeNode) -> (r: TreeNode)
        ensures
            r.id@ == path@,
            r.label@ == "root"@,
            r.path@ == path@,
            r.children@ == seq![child],
            r.is_dir,
    {
        let id = path.clone();
        let mut children: Vec<TreeNode> = Vec::new();
        children.push(child);
        proof {
            assert(children@ =~= seq![child]);
        }
        TreeNode { id, label: String::from_str("root"), path, children, is_dir: true }
    }
}

/// The persisted settings record: the root path the user last listed.
#[derive(Debug)]
pub struct Setting {
    pub root_path: String,
}

impl Setting {
    /// A settings record for the given root path.
    pub fn new(root_path: String) -> (r: Setting)
        ensures
            r.root_path@ == root_path@,
    {
        Setting { root_path }
    }
}

impl Default for Setting {
    /// The settings record used before any path was listed: an empty root.
    fn default() -> (r: Setting)
        ensures
            r.root_path@ == Seq::<char>::empty(),
    {
        Setting { root_path: String::new() }
    }
}

} // verus!
