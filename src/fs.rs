//! The filesystem: name resolution, attributes, listings and reads over a repository,
//! and the refusal of every change.
use vstd::prelude::*;
use std::collections::HashMap;
use crate::attr::{
    attr_spec, build_dir_attr, build_file_attr, build_symlink_attr, saturating_i64_spec,
    unix_parts_spec, unix_time, Attr, EpochOffset, UnixTime, DIRECTORY_MODE, EXECUTABLE_MODE,
    FILE_MODE, SYMLINK_MODE,
};
use crate::inode::{
    inode_for, inode_spec, synthetic_inode, synthetic_inode_spec, tag_kind, tag_kind_exec,
    NodeKind, INODE_BRANCHES, INODE_COMMITS, INODE_HEAD, INODE_ROOT, INODE_TAGS, NAMESPACE_BRANCH,
    NAMESPACE_TAG,
};
use crate::node::{
    commit_link, commit_link_spec, entry_names, entry_node_kind, entry_node_kind_exec, find_entry, sized_kind,
    find_ref_by_name, first_named, make_entry, node_attr, node_attr_spec, page, page_spec,
    read_slice, read_slice_spec, records_view, ref_link_for_inode, ref_link_spec, repo_error,
    slots_view, tree_child_entry, tree_child_spec, DirRecord, DirSlot, Entry, FsError, DT_DIR,
    DT_LNK, DT_REG,
};
use crate::collision::InodeTable;
use crate::oid::{bytes_eq, Oid};
use crate::repo::{
    has_hex_prefix, refs_view, sorted_by_name, valid_hex_prefix, ObjectKind, RefEntry,
    Repository, TreeEntry,
};

verus! {

/// `commits`
pub open spec fn commits_name() -> Seq<u8> {
    seq![99u8, 111, 109, 109, 105, 116, 115]
}

/// `branches`
pub open spec fn branches_name() -> Seq<u8> {
    seq![98u8, 114, 97, 110, 99, 104, 101, 115]
}

/// `tags`
pub open spec fn tags_name() -> Seq<u8> {
    seq![116u8, 97, 103, 115]
}

/// `HEAD`
pub open spec fn head_name() -> Seq<u8> {
    seq![72u8, 69, 65, 68]
}

/// The reserved inode that a name in the root stands for.
pub open spec fn root_child_spec(name: Seq<u8>) -> Option<u64> {
    if name == commits_name() {
        Some(INODE_COMMITS)
    } else if name == branches_name() {
        Some(INODE_BRANCHES)
    } else if name == tags_name() {
        Some(INODE_TAGS)
    } else if name == head_name() {
        Some(INODE_HEAD)
    } else {
        None
    }
}

pub fn root_child(name: &[u8]) -> (r: Option<u64>)
    ensures
        r == root_child_spec(name@),
{
    let commits: Vec<u8> = vec![99u8, 111, 109, 109, 105, 116, 115];
    let branches: Vec<u8> = vec![98u8, 114, 97, 110, 99, 104, 101, 115];
    let tags: Vec<u8> = vec![116u8, 97, 103, 115];
    let head: Vec<u8> = vec![72u8, 69, 65, 68];
    assert(commits@ =~= commits_name());
    assert(branches@ =~= branches_name());
    assert(tags@ =~= tags_name());
    assert(head@ =~= head_name());
    if bytes_eq(name, commits.as_slice()) {
        Some(INODE_COMMITS)
    } else if bytes_eq(name, branches.as_slice()) {
        Some(INODE_BRANCHES)
    } else if bytes_eq(name, tags.as_slice()) {
        Some(INODE_TAGS)
    } else if bytes_eq(name, head.as_slice()) {
        Some(INODE_HEAD)
    } else {
        None
    }
}

/// The `.` and `..` records that open a listing; they carry no entry.
pub fn dot_records(ino: u64, parent: u64) -> (r: Vec<DirRecord>)
    ensures
        r@.len() == 2,
        r@[0].name@ == seq![46u8],
        r@[0].ino == ino,
        r@[0].dtype == DT_DIR,
        r@[0].entry is None,
        r@[1].name@ == seq![46u8, 46],
        r@[1].ino == parent,
        r@[1].dtype == DT_DIR,
        r@[1].entry is None,
{
    let dot: Vec<u8> = vec![46u8];
    let dotdot: Vec<u8> = vec![46u8, 46];
    assert(dot@ =~= seq![46u8]);
    assert(dotdot@ =~= seq![46u8, 46]);
    let mut r: Vec<DirRecord> = Vec::new();
    r.push(DirRecord { name: dot, ino, dtype: DT_DIR, entry: None });
    r.push(DirRecord { name: dotdot, ino: parent, dtype: DT_DIR, entry: None });
    r
}

/// `.` naming `ino` and `..` naming `parent` open the listing, with no entry.
pub open spec fn dots_spec(v: Seq<DirRecord>, ino: u64, parent: u64) -> bool {
    &&& v.len() >= 2
    &&& v[0].name@ == seq![46u8] && v[0].ino == ino && v[0].dtype == DT_DIR && v[0].entry is None
    &&& v[1].name@ == seq![46u8, 46] && v[1].ino == parent && v[1].dtype == DT_DIR && v[1].entry is None
}

/// The record of a tree entry: its name, and the entry and type that the child rule
/// gives it with `size` and `time`.
pub open spec fn child_record_spec(r: DirRecord, e: TreeEntry, size: u64, time: UnixTime) -> bool {
    &&& r.name@ == e.name@
    &&& r.entry matches Some(x) && r.ino == x.inode && tree_child_spec(e, size, time, (x, r.dtype))
}

/// The listing of a tree-backed directory: `.`, `..`, then one record per entry, in
/// the tree's order.
pub open spec fn tree_listing_spec(
    v: Seq<DirRecord>,
    ino: u64,
    parent: u64,
    entries: Seq<TreeEntry>,
    sizes: Seq<u64>,
    time: UnixTime,
) -> bool {
    &&& v.len() == entries.len() + 2
    &&& sizes.len() == entries.len()
    &&& dots_spec(v, ino, parent)
    &&& forall|k: int| 0 <= k < entries.len() ==> #[trigger] child_record_spec(v[k + 2], entries[k], sizes[k], time)
}

/// The records of the directory `ino` (with parent `parent`) backed by a tree with
/// `entries`, given the size of each entry and the directory's time.
pub fn tree_records(ino: u64, parent: u64, entries: &Vec<TreeEntry>, sizes: &Vec<u64>, time: UnixTime) -> (r: Vec<DirRecord>)
    requires
        sizes@.len() == entries@.len(),
        forall|k: int| 0 <= k < entries@.len() ==> (#[trigger] entries@[k]).oid.wf(),
    ensures
        tree_listing_spec(r@, ino, parent, entries@, sizes@, time),
{
    let mut out = dot_records(ino, parent);
    let mut i: usize = 0;
    while i < entries.len()
        invariant
            i <= entries@.len(),
            sizes@.len() == entries@.len(),
            out@.len() == i + 2,
            dots_spec(out@, ino, parent),
            forall|k: int| 0 <= k < entries@.len() ==> (#[trigger] entries@[k]).oid.wf(),
            forall|k: int| 0 <= k < i ==> #[trigger] child_record_spec(out@[k + 2], entries@[k], sizes@[k], time),
        decreases entries@.len() - i,
    {
        let (entry, dtype) = tree_child_entry(&entries[i], sizes[i], time);
        let ghost before = out@;
        out.push(DirRecord { name: entries[i].name.clone(), ino: entry.inode, dtype, entry: Some(entry) });
        proof {
            assert forall|k: int| 0 <= k < i + 1 implies #[trigger] child_record_spec(out@[k + 2], entries@[k], sizes@[k], time) by {
                if k < i {
                    assert(out@[k + 2] == before[k + 2]);
                }
            }
        }
        i = i + 1;
    }
    out
}

/// The root's listing: `.` and `..` (both the root), `commits`, `branches`, `tags`
/// and `HEAD`.
pub open spec fn root_listing_spec(v: Seq<DirRecord>) -> bool {
    &&& v.len() == 6
    &&& dots_spec(v, INODE_ROOT, INODE_ROOT)
    &&& v[2].name@ == commits_name() && v[2].ino == INODE_COMMITS && v[2].dtype == DT_DIR
    &&& v[3].name@ == branches_name() && v[3].ino == INODE_BRANCHES && v[3].dtype == DT_DIR
    &&& v[4].name@ == tags_name() && v[4].ino == INODE_TAGS && v[4].dtype == DT_DIR
    &&& v[5].name@ == head_name() && v[5].ino == INODE_HEAD && v[5].dtype == DT_LNK
}

/// The record of a ref: its short name, and the inode, type and entry that the kind
/// of object it peels to gives it.
pub open spec fn ref_record_spec(rec: DirRecord, marker: u8, r: RefEntry, time: UnixTime) -> bool {
    &&& rec.name@ == r.name@
    &&& rec.entry matches Some(e) && exists|kind: ObjectKind, size: u64|
        #[trigger] ref_entry_spec(marker, r.name@, r.target@, kind, size, time, Ok::<(u64, u32, Entry), FsError>((rec.ino, rec.dtype, e)))
}

/// The listing of `branches/` or `tags/`: `.`, `..` (the root), then one record per
/// ref, the refs sorted by name.
pub open spec fn refs_listing_spec(v: Seq<DirRecord>, ino: u64, marker: u8, refs: Seq<RefEntry>, time: UnixTime) -> bool {
    &&& v.len() == refs.len() + 2
    &&& dots_spec(v, ino, INODE_ROOT)
    &&& sorted_by_name(refs_view(refs))
    &&& forall|k: int| 0 <= k < refs.len() ==> #[trigger] ref_record_spec(v[k + 2], marker, refs[k], time)
}

/// What listing the directory `inode` gives, with the mount time and the parent its
/// `..` names.
pub open spec fn listing_spec(inode: u64, v: Seq<DirRecord>, mount_time: UnixTime, parent: u64) -> bool {
    if inode == INODE_ROOT {
        root_listing_spec(v)
    } else if inode == INODE_BRANCHES {
        exists|refs: Seq<RefEntry>| #[trigger] refs_listing_spec(v, inode, NAMESPACE_BRANCH, refs, mount_time)
    } else if inode == INODE_TAGS {
        exists|refs: Seq<RefEntry>| #[trigger] refs_listing_spec(v, inode, NAMESPACE_TAG, refs, mount_time)
    } else {
        exists|entries: Seq<TreeEntry>, sizes: Seq<u64>, t: UnixTime|
            #[trigger] tree_listing_spec(v, inode, parent, entries, sizes, t)
    }
}

/// `t` is the target that the refs `refs` of namespace `marker` give the symlink `inode`.
pub open spec fn ref_target_with(refs: Seq<RefEntry>, marker: u8, inode: u64, t: Seq<u8>) -> bool {
    &&& marker == NAMESPACE_BRANCH || marker == NAMESPACE_TAG
    &&& forall|i: int| 0 <= i < refs.len() ==> (#[trigger] refs[i]).target.wf()
    &&& ref_link_spec(refs_view(refs), marker, inode) == Some(t)
}

/// `t` is the target of the branch or tag symlink `inode`: `../commits/` and the id
/// of the first listed ref whose symlink has that inode.
pub open spec fn ref_target_spec(inode: u64, t: Seq<u8>) -> bool {
    exists|refs: Seq<RefEntry>, marker: u8| #[trigger] ref_target_with(refs, marker, inode, t)
}

/// A symlink to the commit `id`: mode 0777, one link, the target's length as size.
pub open spec fn link_attr_spec(a: Attr, inode: u64, id: Seq<u8>, time: UnixTime) -> bool {
    attr_spec(a, inode, SYMLINK_MODE, 1, commit_link_spec(id).len() as i64, time)
}

/// The attributes an inode has: the reserved directories are 0755 directories and
/// `HEAD` a symlink to a commit, all with the mount time. Any other inode is a branch
/// or tag symlink to a commit (mount time), a submodule directory (its recorded time),
/// a commit's directory (its committer time), or an object by the kind the database
/// gives it (its recorded time).
pub open spec fn attr_result_spec(a: Attr, inode: u64, mount: UnixTime, times: Map<u64, UnixTime>) -> bool {
    if inode == INODE_ROOT || inode == INODE_COMMITS || inode == INODE_BRANCHES || inode == INODE_TAGS {
        attr_spec(a, inode, DIRECTORY_MODE, 2, 0, mount)
    } else if inode == INODE_HEAD {
        exists|id: Seq<u8>| is_oid(id) && #[trigger] link_attr_spec(a, inode, id, mount)
    } else {
        ||| exists|id: Seq<u8>| is_oid(id) && #[trigger] link_attr_spec(a, inode, id, mount)
        ||| (tag_kind(inode) == Some(NodeKind::Gitlink) && attr_spec(a, inode, DIRECTORY_MODE, 2, 0, node_time_spec(times, mount, inode)))
        ||| exists|size: u64, t: UnixTime| #[trigger] object_attr_spec(a, inode, ObjectKind::Commit, size, t)
        ||| exists|kind: ObjectKind, size: u64|
            #[trigger] object_attr_spec(a, inode, kind, size, node_time_spec(times, mount, inode))
    }
}

/// `e` is the entry of the ref named `name` in namespace `marker`: the first ref of
/// that name in a name-sorted listing, with the entry the kind of its target gives.
pub open spec fn ref_lookup_spec(e: Entry, marker: u8, name: Seq<u8>, time: UnixTime) -> bool {
    exists|refs: Seq<RefEntry>, i: int, kind: ObjectKind, size: u64, ino: u64, d: u32|
        #![trigger ref_entry_spec(marker, name, refs[i].target@, kind, size, time, Ok::<(u64, u32, Entry), FsError>((ino, d, e)))]
        0 <= i < refs.len() && sorted_by_name(refs_view(refs)) && refs[i].name@ == name && (forall|j: int|
            0 <= j < i ==> refs[j].name@ != name) && refs[i].target.wf() && ref_entry_spec(
            marker,
            name,
            refs[i].target@,
            kind,
            size,
            time,
            Ok::<(u64, u32, Entry), FsError>((ino, d, e)),
        )
}

/// The entry of a branch or tag by the kind of object it peels to: a commit is a
/// symlink into the commit namespace; a tree or blob appears as itself; a tag is
/// not supported.
pub open spec fn ref_entry_spec(
    marker: u8,
    name: Seq<u8>,
    target: Seq<u8>,
    kind: ObjectKind,
    size: u64,
    time: UnixTime,
    r: Result<(u64, u32, Entry), FsError>,
) -> bool {
    match kind {
        ObjectKind::Commit => r matches Ok((ino, dtype, e)) && ino == synthetic_inode_spec(marker, name)
            && dtype == DT_LNK && e.inode == ino && attr_spec(
            e.attr,
            ino,
            SYMLINK_MODE,
            1,
            commit_link_spec(target).len() as i64,
            time,
        ),
        ObjectKind::Tree => r matches Ok((ino, dtype, e)) && ino == inode_spec(target, NodeKind::Tree)
            && dtype == DT_DIR && e.inode == ino && attr_spec(e.attr, ino, DIRECTORY_MODE, 2, 0, time),
        ObjectKind::Blob => r matches Ok((ino, dtype, e)) && ino == inode_spec(target, NodeKind::Blob)
            && dtype == DT_REG && e.inode == ino && attr_spec(
            e.attr,
            ino,
            FILE_MODE,
            1,
            saturating_i64_spec(size),
            time,
        ),
        ObjectKind::Tag => r == Err::<(u64, u32, Entry), FsError>(FsError::Unsupported),
    }
}

pub fn ref_entry(marker: u8, name: &[u8], target: &Oid, kind: ObjectKind, size: u64, time: UnixTime) -> (r: Result<(u64, u32, Entry), FsError>)
    requires
        target.wf(),
    ensures
        ref_entry_spec(marker, name@, target@, kind, size, time, r),
{
    match kind {
        ObjectKind::Commit => {
            let inode = synthetic_inode(marker, name);
            let link = commit_link(target);
            let attr = build_symlink_attr(inode, SYMLINK_MODE, time, link.len() as u64);
            Ok((inode, DT_LNK, make_entry(inode, attr)))
        },
        ObjectKind::Tree => {
            let inode = inode_for(target, NodeKind::Tree);
            Ok((inode, DT_DIR, make_entry(inode, build_dir_attr(inode, DIRECTORY_MODE, time))))
        },
        ObjectKind::Blob => {
            let inode = inode_for(target, NodeKind::Blob);
            let attr = build_file_attr(inode, FILE_MODE, size, time);
            Ok((inode, DT_REG, make_entry(inode, attr)))
        },
        ObjectKind::Tag => Err(FsError::Unsupported),
    }
}

/// The attributes of a decoded inode, by the kind the database gives its object:
/// commits and trees are directories whatever the tag says; a blob is a symlink,
/// an executable or a plain file as the tag says; an annotated tag reads as a file.
pub open spec fn object_attr_spec(a: Attr, ino: u64, kind: ObjectKind, size: u64, time: UnixTime) -> bool {
    match kind {
        ObjectKind::Commit | ObjectKind::Tree => node_attr_spec(a, ino, NodeKind::Tree, size, time),
        ObjectKind::Blob => {
            if tag_kind(ino) == Some(NodeKind::Symlink) {
                node_attr_spec(a, ino, NodeKind::Symlink, size, time)
            } else if tag_kind(ino) == Some(NodeKind::Executable) {
                node_attr_spec(a, ino, NodeKind::Executable, size, time)
            } else {
                node_attr_spec(a, ino, NodeKind::Blob, size, time)
            }
        },
        ObjectKind::Tag => node_attr_spec(a, ino, NodeKind::Blob, size, time),
    }
}

pub fn object_attr(ino: u64, kind: ObjectKind, size: u64, time: UnixTime) -> (r: Attr)
    ensures
        object_attr_spec(r, ino, kind, size, time),
{
    match kind {
        ObjectKind::Commit | ObjectKind::Tree => node_attr(ino, NodeKind::Tree, size, time),
        ObjectKind::Blob => {
            let hint = tag_kind_exec(ino);
            if hint == Some(NodeKind::Symlink) {
                node_attr(ino, NodeKind::Symlink, size, time)
            } else if hint == Some(NodeKind::Executable) {
                node_attr(ino, NodeKind::Executable, size, time)
            } else {
                node_attr(ino, NodeKind::Blob, size, time)
            }
        },
        ObjectKind::Tag => node_attr(ino, NodeKind::Blob, size, time),
    }
}

/// Only a blob's bytes can be read (as a file or as a symlink's target): any other
/// object is `InvalidArgument`.
pub fn blob_only(kind: ObjectKind) -> (r: Result<(), FsError>)
    ensures
        r == (if kind == ObjectKind::Blob {
            Ok::<(), FsError>(())
        } else {
            Err::<(), FsError>(FsError::InvalidArgument)
        }),
{
    if kind == ObjectKind::Blob {
        Ok(())
    } else {
        Err(FsError::InvalidArgument)
    }
}

pub const W_OK: u32 = 2;
pub const O_ACCMODE: u32 = 3;
pub const I32_MAX: u32 = 0x7fff_ffff;

pub open spec fn access_spec(mask: u32) -> Result<(), FsError> {
    if mask > I32_MAX {
        Err(FsError::InvalidArgument)
    } else if mask & W_OK != 0 {
        Err(FsError::ReadOnly)
    } else {
        Ok(())
    }
}

/// An access check: asking for write permission fails as read-only.
pub fn check_access(mask: u32) -> (r: Result<(), FsError>)
    ensures
        r == access_spec(mask),
{
    if mask > I32_MAX {
        Err(FsError::InvalidArgument)
    } else if mask & W_OK != 0 {
        Err(FsError::ReadOnly)
    } else {
        Ok(())
    }
}

/// An open for anything but reading fails as read-only.
pub fn check_open_flags(flags: u32) -> (r: Result<(), FsError>)
    ensures
        r == (if flags & O_ACCMODE != 0 {
            Err::<(), FsError>(FsError::ReadOnly)
        } else {
            Ok(())
        }),
{
    if flags & O_ACCMODE != 0 {
        Err(FsError::ReadOnly)
    } else {
        Ok(())
    }
}

pub open spec fn negotiate_spec(capable: u64, required: u64, optional: u64) -> Result<u64, FsError> {
    let supported = capable & (required | optional);
    if supported & required != required {
        Err(FsError::Unsupported)
    } else {
        Ok(supported)
    }
}

/// The capabilities to enable: those of the wanted ones (required and optional) that
/// the kernel offers, provided it offers every required one.
pub fn negotiate(capable: u64, required: u64, optional: u64) -> (r: Result<u64, FsError>)
    ensures
        r == negotiate_spec(capable, required, optional),
{
    let supported = capable & (required | optional);
    if supported & required != required {
        Err(FsError::Unsupported)
    } else {
        Ok(supported)
    }
}

/// The two flat ref namespaces.
#[derive(Clone, Copy, Debug, PartialEq, Eq, Structural)]
pub enum RefNamespace {
    Branches,
    Tags,
}

impl RefNamespace {
    pub open spec fn marker_spec(self) -> u8 {
        match self {
            RefNamespace::Branches => NAMESPACE_BRANCH,
            RefNamespace::Tags => NAMESPACE_TAG,
        }
    }

    /// The byte that keys the namespace's symlink inodes.
    pub fn marker(self) -> (r: u8)
        ensures
            r == self.marker_spec(),
    {
        match self {
            RefNamespace::Branches => NAMESPACE_BRANCH,
            RefNamespace::Tags => NAMESPACE_TAG,
        }
    }

    /// The namespace's refs, sorted by short name.
    pub fn list(self, repo: &Repository) -> (r: Result<Vec<RefEntry>, FsError>)
        ensures
            r matches Ok(v) ==> sorted_by_name(refs_view(v@)) && forall|i: int|
                0 <= i < v@.len() ==> (#[trigger] v@[i]).target.wf(),
    {
        let listed = match self {
            RefNamespace::Branches => repo.list_branches(),
            RefNamespace::Tags => repo.list_tags(),
        };
        match listed {
            Ok(v) => Ok(v),
            Err(e) => Err(repo_error(e)),
        }
    }
}

/// What backs a directory inode: a tree, or nothing (a submodule).
pub enum DirSource {
    Tree(Oid),
    Empty,
}

/// An id of either Git hash length.
pub open spec fn is_oid(id: Seq<u8>) -> bool {
    id.len() == 20 || id.len() == 32
}

/// The read-only filesystem over one repository.
pub struct GitSnapFs {
    pub repo: Repository,
    /// The time the filesystem was mounted: the time of the synthetic nodes, and of any
    /// node not yet reached from a commit.
    pub mount_time: UnixTime,
    /// The time of each Git-backed node seen so far: the committer time of the commit
    /// it was reached from.
    pub node_times: HashMap<u64, UnixTime>,
    /// The object each inode handed out so far stands for, with any collisions.
    pub inodes: InodeTable,
    /// The parent directory of each Git-backed node seen so far, by inode.
    pub node_parents: HashMap<u64, u64>,
}

/// The time a node carries: the one recorded for it, else the mount time.
pub open spec fn node_time_spec(times: Map<u64, UnixTime>, mount_time: UnixTime, inode: u64) -> UnixTime {
    if times.dom().contains(inode) {
        times[inode]
    } else {
        mount_time
    }
}

impl GitSnapFs {
    /// The parent a directory's `..` names: the recorded one, else the node itself.
    pub open spec fn parent_spec(&self, inode: u64) -> u64 {
        if self.node_parents@.dom().contains(inode) {
            self.node_parents@[inode]
        } else {
            inode
        }
    }

    /// A filesystem over `repo`, mounted at `mount_time`, with no node reached yet.
    pub fn new(repo: Repository, mount_time: EpochOffset) -> (r: GitSnapFs)
        ensures
            (r.mount_time.secs, r.mount_time.nanos) == unix_parts_spec(mount_time),
            r.inodes@.is_empty(),
    {
        GitSnapFs {
            repo,
            mount_time: unix_time(mount_time),
            node_times: HashMap::new(),
            inodes: InodeTable::new(),
            node_parents: HashMap::new(),
        }
    }

    /// The time of a node: the committer time recorded when it was reached, else the
    /// mount time.
    pub fn node_time(&self, inode: u64) -> (r: UnixTime)
        ensures
            r == node_time_spec(self.node_times@, self.mount_time, inode),
    {
        broadcast use vstd::std_specs::hash::group_hash_axioms;

        match self.node_times.get(&inode) {
            Some(t) => *t,
            None => self.mount_time,
        }
    }

    /// The parent of a directory node: the one recorded when it was reached, else the
    /// node itself.
    pub fn parent_of(&self, inode: u64) -> (r: u64)
        ensures
            r == self.parent_spec(inode),
    {
        broadcast use vstd::std_specs::hash::group_hash_axioms;

        match self.node_parents.get(&inode) {
            Some(p) => *p,
            None => inode,
        }
    }

    /// Remember the time and the parent of a node.
    fn record_node(&mut self, inode: u64, time: UnixTime, parent: u64)
        ensures
            final(self).node_times@ == old(self).node_times@.insert(inode, time),
            final(self).node_parents@ == old(self).node_parents@.insert(inode, parent),
            final(self).mount_time == old(self).mount_time,
            final(self).inodes@ == old(self).inodes@,
    {
        broadcast use vstd::std_specs::hash::group_hash_axioms;

        self.node_times.insert(inode, time);
        self.node_parents.insert(inode, parent);
    }

    /// The committer time of a commit.
    pub fn commit_time(&self, id: &Oid) -> (r: Result<UnixTime, FsError>)
        ensures
            r matches Ok(t) ==> t.nanos == 0,
    {
        match self.repo.commit_time(id) {
            Ok(secs) => Ok(UnixTime { secs, nanos: 0 }),
            Err(e) => Err(repo_error(e)),
        }
    }

    /// The root directory's attributes.
    pub fn root_attr(&self) -> (r: Attr)
        ensures
            attr_spec(r, INODE_ROOT, DIRECTORY_MODE, 2, 0, self.mount_time),
    {
        build_dir_attr(INODE_ROOT, DIRECTORY_MODE, self.mount_time)
    }

    /// The entry of one of the reserved directories (`commits/`, `branches/`, `tags/`).
    pub fn synthetic_dir_entry(&self, inode: u64) -> (r: Entry)
        ensures
            r.inode == inode,
            attr_spec(r.attr, inode, DIRECTORY_MODE, 2, 0, self.mount_time),
    {
        make_entry(inode, build_dir_attr(inode, DIRECTORY_MODE, self.mount_time))
    }

    /// The target of `HEAD`: `../commits/` and the full hex id of the commit it names.
    pub fn head_target(&self) -> (r: Result<Vec<u8>, FsError>)
        ensures
            r matches Ok(t) ==> exists|id: Seq<u8>| is_oid(id) && t@ == commit_link_spec(id),
    {
        match self.repo.resolve_head() {
            Ok(id) => Ok(commit_link(&id)),
            Err(e) => Err(repo_error(e)),
        }
    }

    /// The entry of the `HEAD` symlink; its size is the length of its target.
    pub fn head_entry(&self) -> (r: Result<Entry, FsError>)
        ensures
            r matches Ok(e) ==> e.inode == INODE_HEAD && exists|id: Seq<u8>|
                is_oid(id) && attr_spec(
                    e.attr,
                    INODE_HEAD,
                    SYMLINK_MODE,
                    1,
                    commit_link_spec(id).len() as i64,
                    self.mount_time,
                ),
    {
        let target = self.head_target()?;
        Ok(make_entry(INODE_HEAD, build_symlink_attr(INODE_HEAD, SYMLINK_MODE, self.mount_time, target.len() as u64)))
    }

    /// Look a name up in `commits/`: it is a hex prefix of a commit's id. The commit's
    /// directory carries the commit's committer time, which is recorded for it.
    pub fn lookup_commit(&mut self, name: &[u8]) -> (r: Result<Entry, FsError>)
        ensures
            final(self).mount_time == old(self).mount_time,
            !valid_hex_prefix(name@) ==> r == Err::<Entry, FsError>(FsError::NotFound),
            r matches Ok(e) ==> exists|id: Seq<u8>|
                is_oid(id) && has_hex_prefix(id, name@) && e.inode == inode_spec(id, NodeKind::Commit)
                    && attr_spec(e.attr, e.inode, DIRECTORY_MODE, 2, 0, final(self).node_times@[e.inode])
                    && final(self).node_times@.dom().contains(e.inode) && final(self).inodes@.contains_key(
                    e.inode,
                ) && final(self).inodes@[e.inode].0 == (id, NodeKind::Commit),
    {
        match self.repo.resolve_full_commit_id(name) {
            Ok(id) => {
                let time = self.commit_time(&id)?;
                let inode = inode_for(&id, NodeKind::Commit);
                if self.inodes.register(inode, &id, NodeKind::Commit).is_err() {
                    return Err(FsError::Io);
                }
                let e = make_entry(inode, build_dir_attr(inode, DIRECTORY_MODE, time));
                self.record_node(inode, time, INODE_COMMITS);
                assert(self.inodes@.contains_key(inode) && self.inodes@[inode].0 == (id@, NodeKind::Commit));
                assert(is_oid(id@) && has_hex_prefix(id@, name@) && e.inode == inode_spec(id@, NodeKind::Commit)
                    && self.node_times@.dom().contains(e.inode));
                Ok(e)
            },
            Err(e) => Err(repo_error(e)),
        }
    }

    /// The inode, type and entry of a branch or tag whose target is `target`.
    pub fn reference_entry_details(&self, ns: RefNamespace, name: &[u8], target: &Oid) -> (r: Result<(u64, u32, Entry), FsError>)
        requires
            target.wf(),
        ensures
            r is Ok ==> exists|kind: ObjectKind, size: u64|
                ref_entry_spec(ns.marker_spec(), name@, target@, kind, size, self.mount_time, r),
    {
        match self.repo.find_header(target) {
            Ok((kind, size)) => ref_entry(ns.marker(), name, target, kind, size, self.mount_time),
            Err(e) => Err(repo_error(e)),
        }
    }

    /// Look a short name up among a namespace's refs: the entry follows the kind of
    /// object the ref peels to.
    pub fn lookup_reference(&self, name: &[u8], ns: RefNamespace) -> (r: Result<Entry, FsError>)
        ensures
            r matches Ok(e) ==> ref_lookup_spec(e, ns.marker_spec(), name@, self.mount_time),
    {
        let refs = ns.list(&self.repo)?;
        match find_ref_by_name(&refs, name) {
            Some(i) => {
                let x = self.reference_entry_details(ns, name, &refs[i].target)?;
                let (ino, d, entry) = x;
                proof {
                    let target = refs@[i as int].target@;
                    assert(refs@[i as int].target.wf());
                    let (kind, size) = choose|kind: ObjectKind, size: u64|
                        ref_entry_spec(ns.marker_spec(), name@, target, kind, size, self.mount_time, Ok::<(u64, u32, Entry), FsError>(x));
                    assert(ref_entry_spec(
                        ns.marker_spec(),
                        name@,
                        refs@[i as int].target@,
                        kind,
                        size,
                        self.mount_time,
                        Ok::<(u64, u32, Entry), FsError>((ino, d, entry)),
                    ));
                    assert(ref_lookup_spec(entry, ns.marker_spec(), name@, self.mount_time));
                }
                let r: Result<Entry, FsError> = Ok(entry);
                assert(r matches Ok(y) && y == entry);
                r
            },
            None => Err(FsError::NotFound),
        }
    }

    /// What backs a directory inode, and the directory's time. Submodules are empty;
    /// a commit stands for its root tree and carries its committer time; any other
    /// object is no directory.
    pub fn tree_root_id(&self, inode: u64) -> (r: Result<(DirSource, UnixTime), FsError>)
        ensures
            tag_kind(inode) == Some(NodeKind::Gitlink) ==> r matches Ok((DirSource::Empty, _)),
            r matches Ok((DirSource::Tree(t), _)) ==> t.wf(),
    {
        if tag_kind_exec(inode) == Some(NodeKind::Gitlink) {
            return Ok((DirSource::Empty, self.node_time(inode)));
        }
        let id = match self.repo.resolve_inode(inode) {
            Ok(id) => id,
            Err(e) => return Err(repo_error(e)),
        };
        match self.repo.find_header(&id) {
            Ok((ObjectKind::Commit, _)) => {
                let time = self.commit_time(&id)?;
                match self.repo.commit_tree(&id) {
                    Ok(t) => Ok((DirSource::Tree(t), time)),
                    Err(e) => Err(repo_error(e)),
                }
            },
            Ok((ObjectKind::Tree, _)) => Ok((DirSource::Tree(id), self.node_time(inode))),
            Ok(_) => Err(FsError::NotDirectory),
            Err(e) => Err(repo_error(e)),
        }
    }

    /// The entry and type of a tree's child; blobs and symlinks take their size from
    /// the object database.
    pub fn entry_for_tree_child(&self, e: &TreeEntry, time: UnixTime) -> (r: Result<(Entry, u32), FsError>)
        requires
            e.oid.wf(),
        ensures
            r matches Ok(x) ==> exists|size: u64| #[trigger] tree_child_spec(*e, size, time, x),
            !sized_kind(entry_node_kind(e.kind)) ==> (r matches Ok(x) && tree_child_spec(*e, 0, time, x)),
    {
        let k = entry_node_kind_exec(e.kind);
        let size: u64 = if k == NodeKind::Blob || k == NodeKind::Executable || k == NodeKind::Symlink {
            match self.repo.find_header(&e.oid) {
                Ok((_, size)) => size,
                Err(err) => return Err(repo_error(err)),
            }
        } else {
            0
        };
        let x = tree_child_entry(e, size, time);
        assert(exists|sz: u64| #[trigger] tree_child_spec(*e, sz, time, x));
        let r: Result<(Entry, u32), FsError> = Ok(x);
        assert(r matches Ok(y) && y == x);
        r
    }

    /// The root: `.`, `..` (the root itself), `commits`, `branches`, `tags` and `HEAD`.
    /// HEAD's record carries no entry where HEAD cannot be resolved.
    pub fn list_root(&self) -> (r: Vec<DirRecord>)
        ensures
            root_listing_spec(r@),
    {
        let mut r = dot_records(INODE_ROOT, INODE_ROOT);
        let commits: Vec<u8> = vec![99u8, 111, 109, 109, 105, 116, 115];
        let branches: Vec<u8> = vec![98u8, 114, 97, 110, 99, 104, 101, 115];
        let tags: Vec<u8> = vec![116u8, 97, 103, 115];
        let head: Vec<u8> = vec![72u8, 69, 65, 68];
        assert(commits@ =~= commits_name());
        assert(branches@ =~= branches_name());
        assert(tags@ =~= tags_name());
        assert(head@ =~= head_name());
        let head_entry = match self.head_entry() {
            Ok(e) => Some(e),
            Err(_) => None,
        };
        r.push(DirRecord { name: commits, ino: INODE_COMMITS, dtype: DT_DIR, entry: Some(self.synthetic_dir_entry(INODE_COMMITS)) });
        r.push(DirRecord { name: branches, ino: INODE_BRANCHES, dtype: DT_DIR, entry: Some(self.synthetic_dir_entry(INODE_BRANCHES)) });
        r.push(DirRecord { name: tags, ino: INODE_TAGS, dtype: DT_DIR, entry: Some(self.synthetic_dir_entry(INODE_TAGS)) });
        r.push(DirRecord { name: head, ino: INODE_HEAD, dtype: DT_LNK, entry: head_entry });
        r
    }

    /// `branches/` or `tags/`: `.`, `..`, then one record per ref, sorted by name.
    pub fn list_refs_dir(&self, inode: u64, ns: RefNamespace) -> (r: Result<Vec<DirRecord>, FsError>)
        ensures
            r matches Ok(v) ==> exists|refs: Seq<RefEntry>|
                #[trigger] refs_listing_spec(v@, inode, ns.marker_spec(), refs, self.mount_time),
    {
        let refs = ns.list(&self.repo)?;
        let mut out = dot_records(inode, INODE_ROOT);
        let mut i: usize = 0;
        while i < refs.len()
            invariant
                i <= refs@.len(),
                out@.len() == i + 2,
                dots_spec(out@, inode, INODE_ROOT),
                sorted_by_name(refs_view(refs@)),
                forall|k: int| 0 <= k < refs@.len() ==> (#[trigger] refs@[k]).target.wf(),
                forall|k: int| 0 <= k < i ==> #[trigger] ref_record_spec(out@[k + 2], ns.marker_spec(), refs@[k], self.mount_time),
            decreases refs@.len() - i,
        {
            let x = self.reference_entry_details(ns, refs[i].name.as_slice(), &refs[i].target)?;
            let (ino, dtype, entry) = x;
            let ghost before = out@;
            out.push(DirRecord { name: refs[i].name.clone(), ino, dtype, entry: Some(entry) });
            proof {
                let (kind, size) = choose|kind: ObjectKind, size: u64|
                    ref_entry_spec(ns.marker_spec(), refs@[i as int].name@, refs@[i as int].target@, kind, size, self.mount_time, Ok::<(u64, u32, Entry), FsError>(x));
                assert(ref_entry_spec(ns.marker_spec(), refs@[i as int].name@, refs@[i as int].target@, kind, size, self.mount_time, Ok::<(u64, u32, Entry), FsError>((out@[i + 2].ino, out@[i + 2].dtype, entry))));
                assert forall|k: int| 0 <= k < i + 1 implies #[trigger] ref_record_spec(out@[k + 2], ns.marker_spec(), refs@[k], self.mount_time) by {
                    if k < i {
                        assert(out@[k + 2] == before[k + 2]);
                    }
                }
            }
            i = i + 1;
        }
        assert(refs_listing_spec(out@, inode, ns.marker_spec(), refs@, self.mount_time));
        let ghost v = out@;
        let r: Result<Vec<DirRecord>, FsError> = Ok(out);
        assert(r matches Ok(w) && w@ == v);
        r
    }

    /// The size each entry of a tree takes its attributes from: the blob's size for
    /// blobs and symlinks (from the object database), zero for trees and submodules.
    pub fn entry_sizes(&self, entries: &Vec<TreeEntry>) -> (r: Result<Vec<u64>, FsError>)
        requires
            forall|k: int| 0 <= k < entries@.len() ==> (#[trigger] entries@[k]).oid.wf(),
        ensures
            r matches Ok(v) ==> v@.len() == entries@.len() && forall|k: int|
                0 <= k < entries@.len() && !sized_kind(entry_node_kind(#[trigger] entries@[k].kind)) ==> v@[k] == 0,
    {
        let mut sizes: Vec<u64> = Vec::new();
        let mut i: usize = 0;
        while i < entries.len()
            invariant
                i <= entries@.len(),
                sizes@.len() == i,
                forall|k: int|
                    0 <= k < i && !sized_kind(entry_node_kind(#[trigger] entries@[k].kind)) ==> sizes@[k] == 0,
            decreases entries@.len() - i,
        {
            let k = entry_node_kind_exec(entries[i].kind);
            if k == NodeKind::Blob || k == NodeKind::Executable || k == NodeKind::Symlink {
                match self.repo.find_header(&entries[i].oid) {
                    Ok((_, size)) => sizes.push(size),
                    Err(e) => return Err(repo_error(e)),
                }
            } else {
                sizes.push(0);
            }
            i = i + 1;
        }
        Ok(sizes)
    }

    /// A tree-backed directory: `.`, `..` (its recorded parent), then the tree's
    /// entries in the tree's order. Each child takes the directory's time; its time,
    /// parent and object are recorded.
    pub fn list_tree_dir(&mut self, inode: u64) -> (r: Result<Vec<DirRecord>, FsError>)
        ensures
            final(self).mount_time == old(self).mount_time,
            tag_kind(inode) == Some(NodeKind::Gitlink) ==> (r matches Ok(v) && v@.len() == 2
                && dots_spec(v@, inode, old(self).parent_spec(inode))),
            r matches Ok(v) ==> exists|entries: Seq<TreeEntry>, sizes: Seq<u64>, t: UnixTime|
                #[trigger] tree_listing_spec(v@, inode, old(self).parent_spec(inode), entries, sizes, t),
    {
        let parent = self.parent_of(inode);
        let (tree_id, time) = match self.tree_root_id(inode)? {
            (DirSource::Empty, t) => {
                let no_entries: Vec<TreeEntry> = Vec::new();
                let no_sizes: Vec<u64> = Vec::new();
                let out = tree_records(inode, parent, &no_entries, &no_sizes, t);
                assert(tree_listing_spec(out@, inode, parent, no_entries@, no_sizes@, t));
                let ghost v = out@;
                let r: Result<Vec<DirRecord>, FsError> = Ok(out);
                assert(r matches Ok(w) && w@ == v);
                return r;
            },
            (DirSource::Tree(id), t) => (id, t),
        };
        let entries = match self.repo.tree_entries(&tree_id) {
            Ok(v) => v,
            Err(e) => return Err(repo_error(e)),
        };
        let sizes = self.entry_sizes(&entries)?;
        let records = tree_records(inode, parent, &entries, &sizes, time);
        let ghost snapshot = records@;
        let mut j: usize = 2;
        while j < records.len()
            invariant
                2 <= j <= records@.len(),
                records@ == snapshot,
                records@.len() == entries@.len() + 2,
                tree_listing_spec(snapshot, inode, parent, entries@, sizes@, time),
                parent == old(self).parent_spec(inode),
                tag_kind(inode) != Some(NodeKind::Gitlink),
                forall|k: int| 0 <= k < entries@.len() ==> (#[trigger] entries@[k]).oid.wf(),
                self.mount_time == old(self).mount_time,
            decreases records@.len() - j,
        {
            let kind = entry_node_kind_exec(entries[j - 2].kind);
            let child = records[j].ino;
            if self.inodes.register(child, &entries[j - 2].oid, kind).is_err() {
                return Err(FsError::Io);
            }
            self.record_node(child, time, inode);
            j = j + 1;
        }
        assert(tree_listing_spec(records@, inode, old(self).parent_spec(inode), entries@, sizes@, time));
        let r: Result<Vec<DirRecord>, FsError> = Ok(records);
        assert(r matches Ok(v) && v@ == snapshot);
        r
    }

    /// The records of a directory, by inode. `commits/` cannot be listed.
    pub fn list_directory(&mut self, inode: u64) -> (r: Result<Vec<DirRecord>, FsError>)
        ensures
            final(self).mount_time == old(self).mount_time,
            inode == INODE_COMMITS ==> r == Err::<Vec<DirRecord>, FsError>(FsError::Unsupported),
            inode == INODE_HEAD ==> r == Err::<Vec<DirRecord>, FsError>(FsError::NotDirectory),
            inode == INODE_ROOT ==> r is Ok,
            r matches Ok(v) ==> listing_spec(inode, v@, old(self).mount_time, old(self).parent_spec(inode)),
    {
        if inode == INODE_ROOT {
            Ok(self.list_root())
        } else if inode == INODE_COMMITS {
            Err(FsError::Unsupported)
        } else if inode == INODE_BRANCHES {
            self.list_refs_dir(inode, RefNamespace::Branches)
        } else if inode == INODE_TAGS {
            self.list_refs_dir(inode, RefNamespace::Tags)
        } else if inode == INODE_HEAD {
            Err(FsError::NotDirectory)
        } else {
            self.list_tree_dir(inode)
        }
    }

    /// Look a name up in a tree-backed directory, matching names byte for byte. The
    /// child takes the directory's time, which is recorded for it.
    pub fn lookup_child(&mut self, parent: u64, name: &[u8]) -> (r: Result<Entry, FsError>)
        ensures
            final(self).mount_time == old(self).mount_time,
            tag_kind(parent) == Some(NodeKind::Gitlink) ==> r == Err::<Entry, FsError>(FsError::NotFound),
            r matches Ok(e) ==> exists|entries: Seq<TreeEntry>, i: int, size: u64, d: u32|
                #![trigger first_named(entry_names(entries), name@, i), tree_child_spec(entries[i], size, final(self).node_times@[e.inode], (e, d))]
                first_named(entry_names(entries), name@, i) && tree_child_spec(
                    entries[i],
                    size,
                    final(self).node_times@[e.inode],
                    (e, d),
                ),
            r matches Ok(e) ==> final(self).node_times@.dom().contains(e.inode),
    {
        let (tree_id, time) = match self.tree_root_id(parent)? {
            (DirSource::Empty, _) => return Err(FsError::NotFound),
            (DirSource::Tree(t), time) => (t, time),
        };
        let entries = match self.repo.tree_entries(&tree_id) {
            Ok(v) => v,
            Err(e) => return Err(repo_error(e)),
        };
        match find_entry(&entries, name) {
            Some(i) => {
                let (entry, d) = self.entry_for_tree_child(&entries[i], time)?;
                let kind = entry_node_kind_exec(entries[i].kind);
                if self.inodes.register(entry.inode, &entries[i].oid, kind).is_err() {
                    return Err(FsError::Io);
                }
                self.record_node(entry.inode, time, parent);
                proof {
                    let size = choose|size: u64| #[trigger] tree_child_spec(entries@[i as int], size, time, (entry, d));
                    assert(first_named(entry_names(entries@), name@, i as int) && tree_child_spec(
                        entries@[i as int],
                        size,
                        self.node_times@[entry.inode],
                        (entry, d),
                    ));
                }
                let r: Result<Entry, FsError> = Ok(entry);
                assert(r matches Ok(y) && y == entry);
                r
            },
            None => Err(FsError::NotFound),
        }
    }

    /// The target of the branch or tag symlink with inode `inode`, if one has it.
    pub fn reference_target(&self, inode: u64, ns: RefNamespace) -> (r: Result<Vec<u8>, FsError>)
        ensures
            r matches Ok(t) ==> exists|refs: Seq<RefEntry>|
                (forall|i: int| 0 <= i < refs.len() ==> (#[trigger] refs[i]).target.wf()) && ref_link_spec(
                    refs_view(refs),
                    ns.marker_spec(),
                    inode,
                ) == Some(t@),
            r matches Ok(t) ==> exists|id: Seq<u8>| is_oid(id) && t@ == commit_link_spec(id),
    {
        let refs = ns.list(&self.repo)?;
        match ref_link_for_inode(&refs, ns.marker(), inode) {
            Some(t) => {
                proof {
                    let v = refs_view(refs@);
                    assert forall|i: int| 0 <= i < v.len() implies (#[trigger] v[i]).1.len() == 20
                        || v[i].1.len() == 32 by {
                        assert(refs@[i].target.wf());
                    }
                    crate::node::lemma_ref_link_is_commit_link(v, ns.marker_spec(), inode);
                }
                Ok(t)
            },
            None => Err(FsError::NotFound),
        }
    }

    /// The attributes of any inode: the reserved ones from the mount, ref symlinks from
    /// their targets, and object inodes from what the database says of the object.
    pub fn attr_for_inode(&self, inode: u64) -> (r: Result<Attr, FsError>)
        ensures
            inode == INODE_ROOT || inode == INODE_COMMITS || inode == INODE_BRANCHES || inode
                == INODE_TAGS ==> (r matches Ok(a) && attr_spec(a, inode, DIRECTORY_MODE, 2, 0, self.mount_time)),
            r matches Ok(a) ==> a.ino == inode && attr_result_spec(a, inode, self.mount_time, self.node_times@),
    {
        if inode == INODE_ROOT {
            return Ok(self.root_attr());
        }
        if inode == INODE_COMMITS || inode == INODE_BRANCHES || inode == INODE_TAGS {
            return Ok(build_dir_attr(inode, DIRECTORY_MODE, self.mount_time));
        }
        if inode == INODE_HEAD {
            let target = self.head_target()?;
            let a = build_symlink_attr(INODE_HEAD, SYMLINK_MODE, self.mount_time, target.len() as u64);
            proof {
                let id = choose|id: Seq<u8>| is_oid(id) && target@ == commit_link_spec(id);
                assert(is_oid(id) && link_attr_spec(a, inode, id, self.mount_time));
            }
            return Ok(a);
        }
        let t = match self.reference_target(inode, RefNamespace::Branches) {
            Ok(t) => Some(t),
            Err(_) => match self.reference_target(inode, RefNamespace::Tags) {
                Ok(t) => Some(t),
                Err(_) => None,
            },
        };
        if let Some(target) = t {
            let a = build_symlink_attr(inode, SYMLINK_MODE, self.mount_time, target.len() as u64);
            proof {
                let id = choose|id: Seq<u8>| is_oid(id) && target@ == commit_link_spec(id);
                assert(is_oid(id) && link_attr_spec(a, inode, id, self.mount_time));
            }
            return Ok(a);
        }
        if tag_kind_exec(inode) == Some(NodeKind::Gitlink) {
            return Ok(build_dir_attr(inode, DIRECTORY_MODE, self.node_time(inode)));
        }
        let id = match self.repo.resolve_inode(inode) {
            Ok(id) => id,
            Err(e) => return Err(repo_error(e)),
        };
        match self.repo.find_header(&id) {
            Ok((ObjectKind::Commit, size)) => {
                let time = self.commit_time(&id)?;
                let a = object_attr(inode, ObjectKind::Commit, size, time);
                assert(object_attr_spec(a, inode, ObjectKind::Commit, size, time));
                Ok(a)
            },
            Ok((kind, size)) => {
                let a = object_attr(inode, kind, size, self.node_time(inode));
                assert(object_attr_spec(a, inode, kind, size, node_time_spec(self.node_times@, self.mount_time, inode)));
                Ok(a)
            },
            Err(e) => Err(repo_error(e)),
        }
    }

    /// Resolve `name` in the directory `parent`.
    pub fn lookup(&mut self, parent: u64, name: &[u8]) -> (r: Result<Entry, FsError>)
        ensures
            final(self).mount_time == old(self).mount_time,
            parent == INODE_ROOT && root_child_spec(name@) is None ==> r == Err::<Entry, FsError>(
                FsError::NotFound,
            ),
            parent == INODE_ROOT && root_child_spec(name@) is Some && root_child_spec(name@)->Some_0
                != INODE_HEAD ==> (r matches Ok(e) && e.inode == root_child_spec(name@)->Some_0
                && attr_spec(e.attr, e.inode, DIRECTORY_MODE, 2, 0, old(self).mount_time)),
            parent == INODE_ROOT && root_child_spec(name@) == Some(INODE_HEAD) ==> (r matches Ok(e)
                ==> e.inode == INODE_HEAD && exists|id: Seq<u8>|
                is_oid(id) && attr_spec(
                    e.attr,
                    INODE_HEAD,
                    SYMLINK_MODE,
                    1,
                    commit_link_spec(id).len() as i64,
                    old(self).mount_time,
                )),
            parent > INODE_HEAD ==> (r matches Ok(e) ==> exists|entries: Seq<TreeEntry>, i: int, size: u64, d: u32|
                #![trigger first_named(entry_names(entries), name@, i), tree_child_spec(entries[i], size, final(self).node_times@[e.inode], (e, d))]
                first_named(entry_names(entries), name@, i) && tree_child_spec(
                    entries[i],
                    size,
                    final(self).node_times@[e.inode],
                    (e, d),
                )),
            parent > INODE_HEAD && tag_kind(parent) == Some(NodeKind::Gitlink) ==> r == Err::<Entry, FsError>(FsError::NotFound),
            parent == INODE_COMMITS && !valid_hex_prefix(name@) ==> r == Err::<Entry, FsError>(
                FsError::NotFound,
            ),
            parent == INODE_COMMITS ==> (r matches Ok(e) ==> exists|id: Seq<u8>|
                is_oid(id) && has_hex_prefix(id, name@) && e.inode == inode_spec(id, NodeKind::Commit)
                    && attr_spec(e.attr, e.inode, DIRECTORY_MODE, 2, 0, final(self).node_times@[e.inode])),
            parent == INODE_BRANCHES ==> (r matches Ok(e) ==> ref_lookup_spec(e, NAMESPACE_BRANCH, name@, old(self).mount_time)),
            parent == INODE_TAGS ==> (r matches Ok(e) ==> ref_lookup_spec(e, NAMESPACE_TAG, name@, old(self).mount_time)),
            parent == INODE_HEAD ==> r == Err::<Entry, FsError>(FsError::NotDirectory),
    {
        if parent == INODE_ROOT {
            match root_child(name) {
                Some(ino) => {
                    if ino == INODE_HEAD {
                        self.head_entry()
                    } else {
                        Ok(self.synthetic_dir_entry(ino))
                    }
                },
                None => Err(FsError::NotFound),
            }
        } else if parent == INODE_COMMITS {
            self.lookup_commit(name)
        } else if parent == INODE_BRANCHES {
            self.lookup_reference(name, RefNamespace::Branches)
        } else if parent == INODE_TAGS {
            self.lookup_reference(name, RefNamespace::Tags)
        } else if parent == INODE_HEAD {
            Err(FsError::NotDirectory)
        } else {
            self.lookup_child(parent, name)
        }
    }

    /// The attributes of `inode`.
    pub fn getattr(&self, inode: u64) -> (r: Result<Attr, FsError>)
        ensures
            inode == INODE_ROOT || inode == INODE_COMMITS || inode == INODE_BRANCHES || inode
                == INODE_TAGS ==> (r matches Ok(a) && attr_spec(a, inode, DIRECTORY_MODE, 2, 0, self.mount_time)),
            r matches Ok(a) ==> a.ino == inode && attr_result_spec(a, inode, self.mount_time, self.node_times@),
    {
        self.attr_for_inode(inode)
    }

    /// The target of a symbolic link: HEAD and the ref symlinks point at
    /// `../commits/<full hex id>`; a symlink blob's target is its content. Anything
    /// else is no symlink.
    pub fn readlink(&self, inode: u64) -> (r: Result<Vec<u8>, FsError>)
        ensures
            inode == INODE_ROOT || inode == INODE_COMMITS || inode == INODE_BRANCHES || inode
                == INODE_TAGS ==> r == Err::<Vec<u8>, FsError>(FsError::InvalidArgument),
            inode == INODE_HEAD ==> (r matches Ok(t) ==> exists|id: Seq<u8>|
                is_oid(id) && t@ == commit_link_spec(id)),
            tag_kind(inode) != Some(NodeKind::Symlink) ==> (r matches Ok(t) ==> exists|id: Seq<u8>|
                is_oid(id) && t@ == commit_link_spec(id)),
            inode != INODE_HEAD && tag_kind(inode) != Some(NodeKind::Symlink) ==> (r matches Ok(t)
                ==> ref_target_spec(inode, t@)),
    {
        if inode == INODE_HEAD {
            return self.head_target();
        }
        if inode == INODE_ROOT || inode == INODE_COMMITS || inode == INODE_BRANCHES || inode == INODE_TAGS {
            return Err(FsError::InvalidArgument);
        }
        if let Ok(target) = self.reference_target(inode, RefNamespace::Branches) {
            proof {
                let refs = choose|refs: Seq<RefEntry>|
                    (forall|i: int| 0 <= i < refs.len() ==> (#[trigger] refs[i]).target.wf()) && ref_link_spec(
                        refs_view(refs),
                        NAMESPACE_BRANCH,
                        inode,
                    ) == Some(target@);
                assert(ref_target_with(refs, NAMESPACE_BRANCH, inode, target@));
            }
            return Ok(target);
        }
        if let Ok(target) = self.reference_target(inode, RefNamespace::Tags) {
            proof {
                let refs = choose|refs: Seq<RefEntry>|
                    (forall|i: int| 0 <= i < refs.len() ==> (#[trigger] refs[i]).target.wf()) && ref_link_spec(
                        refs_view(refs),
                        NAMESPACE_TAG,
                        inode,
                    ) == Some(target@);
                assert(ref_target_with(refs, NAMESPACE_TAG, inode, target@));
            }
            return Ok(target);
        }
        if tag_kind_exec(inode) != Some(NodeKind::Symlink) {
            return Err(FsError::InvalidArgument);
        }
        let id = match self.repo.resolve_inode(inode) {
            Ok(id) => id,
            Err(e) => return Err(repo_error(e)),
        };
        match self.repo.find_header(&id) {
            Ok((kind, _)) => blob_only(kind)?,
            Err(e) => return Err(repo_error(e)),
        }
        match self.repo.blob_data(&id) {
            Ok(data) => Ok(data),
            Err(e) => Err(repo_error(e)),
        }
    }

    /// The listing of `inode` from position `offset` on, each record with its one-based
    /// position; the kernel resumes by passing back the last position it accepted.
    pub fn readdir(&mut self, inode: u64, offset: u64) -> (r: Result<Vec<DirSlot>, FsError>)
        ensures
            final(self).mount_time == old(self).mount_time,
            inode == INODE_COMMITS ==> r == Err::<Vec<DirSlot>, FsError>(FsError::Unsupported),
            inode == INODE_HEAD ==> r == Err::<Vec<DirSlot>, FsError>(FsError::NotDirectory),
            inode == INODE_ROOT ==> r is Ok,
            r matches Ok(v) ==> exists|rs: Seq<DirRecord>|
                #[trigger] listing_spec(inode, rs, old(self).mount_time, old(self).parent_spec(inode))
                    && slots_view(v@) == page_spec(records_view(rs), offset),
    {
        let records = self.list_directory(inode)?;
        let slots = page(&records, offset);
        assert(listing_spec(inode, records@, old(self).mount_time, old(self).parent_spec(inode))
            && slots_view(slots@) == page_spec(records_view(records@), offset));
        let ghost v = slots@;
        let r: Result<Vec<DirSlot>, FsError> = Ok(slots);
        assert(r matches Ok(w) && w@ == v);
        r
    }

    /// Read `size` bytes at `offset` from a blob: the bytes from the offset on, cut at
    /// the end of the blob; nothing at or past the end. Only blobs can be read.
    pub fn read(&self, inode: u64, offset: u64, size: u32) -> (r: Result<Vec<u8>, FsError>)
        ensures
            inode <= INODE_HEAD ==> r == Err::<Vec<u8>, FsError>(FsError::InvalidArgument),
            r matches Ok(d) ==> exists|data: Seq<u8>| d@ == read_slice_spec(data, offset, size),
    {
        if inode <= INODE_HEAD {
            return Err(FsError::InvalidArgument);
        }
        let id = match self.repo.resolve_inode(inode) {
            Ok(id) => id,
            Err(e) => return Err(repo_error(e)),
        };
        match self.repo.find_header(&id) {
            Ok((kind, _)) => blob_only(kind)?,
            Err(e) => return Err(repo_error(e)),
        }
        match self.repo.blob_data(&id) {
            Ok(data) => Ok(read_slice(data.as_slice(), offset, size)),
            Err(e) => Err(repo_error(e)),
        }
    }

    /// Open a file: only for reading, and only where the inode names an object.
    pub fn open(&self, inode: u64, flags: u32) -> (r: Result<(), FsError>)
        ensures
            flags & O_ACCMODE != 0 ==> r == Err::<(), FsError>(FsError::ReadOnly),
            flags & O_ACCMODE == 0 && inode <= INODE_HEAD ==> r == Ok::<(), FsError>(()),
    {
        check_open_flags(flags)?;
        if inode <= INODE_HEAD || tag_kind_exec(inode) == Some(NodeKind::Gitlink) {
            return Ok(());
        }
        match self.repo.resolve_inode(inode) {
            Ok(_) => Ok(()),
            Err(_) => Err(FsError::BadDescriptor),
        }
    }

    /// Directories need no open: the kernel is told to do without.
    pub fn opendir(&self, inode: u64) -> (r: Result<(), FsError>)
        ensures
            r == Err::<(), FsError>(FsError::NotImplemented),
    {
        Err(FsError::NotImplemented)
    }

    /// An access check on any inode: write permission is refused.
    pub fn access(&self, inode: u64, mask: u32) -> (r: Result<(), FsError>)
        ensures
            r == access_spec(mask),
    {
        check_access(mask)
    }

    pub fn setattr(&self, inode: u64) -> (r: Result<Attr, FsError>)
        ensures
            r == Err::<Attr, FsError>(FsError::ReadOnly),
    {
        Err(FsError::ReadOnly)
    }

    pub fn symlink(&self, parent: u64, name: &[u8], target: &[u8]) -> (r: Result<Entry, FsError>)
        ensures
            r == Err::<Entry, FsError>(FsError::ReadOnly),
    {
        Err(FsError::ReadOnly)
    }

    pub fn mknod(&self, parent: u64, name: &[u8], mode: u32) -> (r: Result<Entry, FsError>)
        ensures
            r == Err::<Entry, FsError>(FsError::ReadOnly),
    {
        Err(FsError::ReadOnly)
    }

    pub fn mkdir(&self, parent: u64, name: &[u8], mode: u32) -> (r: Result<Entry, FsError>)
        ensures
            r == Err::<Entry, FsError>(FsError::ReadOnly),
    {
        Err(FsError::ReadOnly)
    }

    pub fn unlink(&self, parent: u64, name: &[u8]) -> (r: Result<(), FsError>)
        ensures
            r == Err::<(), FsError>(FsError::ReadOnly),
    {
        Err(FsError::ReadOnly)
    }

    pub fn rmdir(&self, parent: u64, name: &[u8]) -> (r: Result<(), FsError>)
        ensures
            r == Err::<(), FsError>(FsError::ReadOnly),
    {
        Err(FsError::ReadOnly)
    }

    pub fn rename(&self, olddir: u64, oldname: &[u8], newdir: u64, newname: &[u8]) -> (r: Result<(), FsError>)
        ensures
            r == Err::<(), FsError>(FsError::ReadOnly),
    {
        Err(FsError::ReadOnly)
    }

    pub fn link(&self, inode: u64, newparent: u64, newname: &[u8]) -> (r: Result<Entry, FsError>)
        ensures
            r == Err::<Entry, FsError>(FsError::ReadOnly),
    {
        Err(FsError::ReadOnly)
    }

    pub fn create(&self, parent: u64, name: &[u8], mode: u32) -> (r: Result<Entry, FsError>)
        ensures
            r == Err::<Entry, FsError>(FsError::ReadOnly),
    {
        Err(FsError::ReadOnly)
    }

    pub fn write(&self, inode: u64, offset: u64, data: &[u8]) -> (r: Result<usize, FsError>)
        ensures
            r == Err::<usize, FsError>(FsError::ReadOnly),
    {
        Err(FsError::ReadOnly)
    }

    pub fn fallocate(&self, inode: u64, offset: u64, length: u64) -> (r: Result<(), FsError>)
        ensures
            r == Err::<(), FsError>(FsError::ReadOnly),
    {
        Err(FsError::ReadOnly)
    }
}

} // verus!
