//! Directory records, entries and the pure rules that build them.
use vstd::prelude::*;
use crate::attr::{
    attr_spec, build_dir_attr, build_file_attr, build_symlink_attr, saturating_i64_spec, Attr,
    UnixTime, DIRECTORY_MODE, EXECUTABLE_MODE, FILE_MODE, SYMLINK_MODE,
};
use crate::inode::{inode_for, inode_spec, synthetic_inode_spec, tag_kind, NodeKind};
use crate::oid::{bytes_eq, hex_of, Oid};
use crate::repo::{EntryKind, ObjectKind, RefEntry, RepoError, TreeEntry};

verus! {

pub const DT_DIR: u32 = 4;
pub const DT_REG: u32 = 8;
pub const DT_LNK: u32 = 10;

/// How long the kernel may cache entries and attributes, in seconds.
pub const TTL_SECS: u64 = 1;

/// The errors the filesystem reports, each standing for one errno.
#[derive(Clone, Copy, Debug, PartialEq, Eq, Structural)]
pub enum FsError {
    /// ENOENT: no such name in the parent.
    NotFound,
    /// ENOTDIR: the parent is not a directory.
    NotDirectory,
    /// EINVAL: readlink of a non-symlink, or an argument out of range.
    InvalidArgument,
    /// EROFS: the filesystem is read-only.
    ReadOnly,
    /// ENOTSUP: listing the commit namespace.
    Unsupported,
    /// EIO: an ambiguous prefix, an unborn HEAD, or a failing object database.
    Io,
    /// EBADF: an inode that names no object.
    BadDescriptor,
    /// ENOSYS: the operation is left to the kernel.
    NotImplemented,
}

pub open spec fn repo_error_spec(e: RepoError) -> FsError {
    match e {
        RepoError::NotFound => FsError::NotFound,
        RepoError::WrongKind => FsError::NotFound,
        RepoError::Ambiguous => FsError::Io,
        RepoError::UnbornHead => FsError::Io,
        RepoError::Backend => FsError::Io,
    }
}

/// How an object-database failure reaches the kernel: a missing object or one of
/// another kind is ENOENT, everything else (an ambiguity above all) is EIO.
pub fn repo_error(e: RepoError) -> (r: FsError)
    ensures
        r == repo_error_spec(e),
{
    match e {
        RepoError::NotFound => FsError::NotFound,
        RepoError::WrongKind => FsError::NotFound,
        RepoError::Ambiguous => FsError::Io,
        RepoError::UnbornHead => FsError::Io,
        RepoError::Backend => FsError::Io,
    }
}

/// A resolved name: its inode and attributes.
#[derive(Clone, Copy, Debug, PartialEq, Eq, Structural)]
pub struct Entry {
    pub inode: u64,
    pub attr: Attr,
}

pub fn make_entry(inode: u64, attr: Attr) -> (r: Entry)
    ensures
        r == (Entry { inode, attr }),
{
    Entry { inode, attr }
}

/// One record of a directory listing; `.` and `..` carry no entry.
#[derive(Debug)]
pub struct DirRecord {
    pub name: Vec<u8>,
    pub ino: u64,
    pub dtype: u32,
    pub entry: Option<Entry>,
}

/// A record together with its one-based position in the listing.
#[derive(Debug)]
pub struct DirSlot {
    pub offset: u64,
    pub record: DirRecord,
}

/// The view of a record: name, inode, type and entry.
pub open spec fn record_view(r: DirRecord) -> (Seq<u8>, u64, u32, Option<Entry>) {
    (r.name@, r.ino, r.dtype, r.entry)
}

pub open spec fn records_view(rs: Seq<DirRecord>) -> Seq<(Seq<u8>, u64, u32, Option<Entry>)> {
    rs.map_values(|r: DirRecord| record_view(r))
}

pub open spec fn slots_view(ss: Seq<DirSlot>) -> Seq<(u64, (Seq<u8>, u64, u32, Option<Entry>))> {
    ss.map_values(|s: DirSlot| (s.offset, record_view(s.record)))
}

/// `../commits/`: where every commit symlink points into.
pub open spec fn commits_link_prefix() -> Seq<u8> {
    seq![46u8, 46, 47, 99, 111, 109, 109, 105, 116, 115, 47]
}

/// The target of a symlink to a commit: `../commits/` and the commit's full hex id.
pub open spec fn commit_link_spec(id: Seq<u8>) -> Seq<u8> {
    commits_link_prefix() + hex_of(id)
}

pub fn commit_link(id: &Oid) -> (r: Vec<u8>)
    ensures
        r@ == commit_link_spec(id@),
{
    let mut r: Vec<u8> = vec![46u8, 46, 47, 99, 111, 109, 109, 105, 116, 115, 47];
    assert(r@ =~= commits_link_prefix());
    let mut hex = id.to_hex();
    r.append(&mut hex);
    r
}

/// The kind of node a tree entry appears as.
pub open spec fn entry_node_kind(k: EntryKind) -> NodeKind {
    match k {
        EntryKind::Tree => NodeKind::Tree,
        EntryKind::Blob => NodeKind::Blob,
        EntryKind::BlobExecutable => NodeKind::Executable,
        EntryKind::Link => NodeKind::Symlink,
        EntryKind::Commit => NodeKind::Gitlink,
    }
}

pub fn entry_node_kind_exec(k: EntryKind) -> (r: NodeKind)
    ensures
        r == entry_node_kind(k),
{
    match k {
        EntryKind::Tree => NodeKind::Tree,
        EntryKind::Blob => NodeKind::Blob,
        EntryKind::BlobExecutable => NodeKind::Executable,
        EntryKind::Link => NodeKind::Symlink,
        EntryKind::Commit => NodeKind::Gitlink,
    }
}

/// The directory-entry type of each kind of node.
pub open spec fn dtype_spec(k: NodeKind) -> u32 {
    match k {
        NodeKind::Tree | NodeKind::Commit | NodeKind::Gitlink => DT_DIR,
        NodeKind::Blob | NodeKind::Executable => DT_REG,
        NodeKind::Symlink => DT_LNK,
    }
}

pub fn dtype_of(k: NodeKind) -> (r: u32)
    ensures
        r == dtype_spec(k),
{
    match k {
        NodeKind::Tree | NodeKind::Commit | NodeKind::Gitlink => DT_DIR,
        NodeKind::Blob | NodeKind::Executable => DT_REG,
        NodeKind::Symlink => DT_LNK,
    }
}

/// Whether a node of this kind takes its size from its blob.
pub open spec fn sized_kind(k: NodeKind) -> bool {
    k == NodeKind::Blob || k == NodeKind::Executable || k == NodeKind::Symlink
}

/// The attributes of a node: directories 0755, files 0444 (0555 executable), symlinks
/// 0777 with the target's length as size.
pub open spec fn node_attr_spec(a: Attr, ino: u64, k: NodeKind, size: u64, time: UnixTime) -> bool {
    match k {
        NodeKind::Tree | NodeKind::Commit | NodeKind::Gitlink => attr_spec(a, ino, DIRECTORY_MODE, 2, 0, time),
        NodeKind::Blob => attr_spec(a, ino, FILE_MODE, 1, saturating_i64_spec(size), time),
        NodeKind::Executable => attr_spec(a, ino, EXECUTABLE_MODE, 1, saturating_i64_spec(size), time),
        NodeKind::Symlink => attr_spec(a, ino, SYMLINK_MODE, 1, saturating_i64_spec(size), time),
    }
}

pub fn node_attr(ino: u64, k: NodeKind, size: u64, time: UnixTime) -> (r: Attr)
    ensures
        node_attr_spec(r, ino, k, size, time),
{
    match k {
        NodeKind::Tree | NodeKind::Commit | NodeKind::Gitlink => build_dir_attr(ino, DIRECTORY_MODE, time),
        NodeKind::Blob => build_file_attr(ino, FILE_MODE, size, time),
        NodeKind::Executable => build_file_attr(ino, EXECUTABLE_MODE, size, time),
        NodeKind::Symlink => build_symlink_attr(ino, SYMLINK_MODE, time, size),
    }
}

/// The entry of a tree's child: its inode is the codec applied to the child's id and
/// the kind its mode gives; `size` is the blob's size where the child is one.
pub open spec fn tree_child_spec(e: TreeEntry, size: u64, time: UnixTime, r: (Entry, u32)) -> bool {
    let k = entry_node_kind(e.kind);
    &&& r.0.inode == inode_spec(e.oid@, k)
    &&& node_attr_spec(r.0.attr, r.0.inode, k, size, time)
    &&& r.1 == dtype_spec(k)
}

pub fn tree_child_entry(e: &TreeEntry, size: u64, time: UnixTime) -> (r: (Entry, u32))
    requires
        e.oid.wf(),
    ensures
        tree_child_spec(*e, size, time, r),
{
    let k = entry_node_kind_exec(e.kind);
    let inode = inode_for(&e.oid, k);
    (make_entry(inode, node_attr(inode, k, size, time)), dtype_of(k))
}

/// The first entry of `entries` named `name`.
pub open spec fn first_named(names: Seq<Seq<u8>>, name: Seq<u8>, i: int) -> bool {
    &&& 0 <= i < names.len()
    &&& names[i] == name
    &&& forall|j: int| 0 <= j < i ==> names[j] != name
}

pub open spec fn entry_names(entries: Seq<TreeEntry>) -> Seq<Seq<u8>> {
    entries.map_values(|e: TreeEntry| e.name@)
}

/// The position of the first entry named `name`, matched byte for byte.
pub fn find_entry(entries: &Vec<TreeEntry>, name: &[u8]) -> (r: Option<usize>)
    ensures
        r matches Some(i) ==> first_named(entry_names(entries@), name@, i as int),
        r is None ==> forall|j: int| 0 <= j < entries@.len() ==> entries@[j].name@ != name@,
{
    let mut i: usize = 0;
    while i < entries.len()
        invariant
            i <= entries@.len(),
            forall|j: int| 0 <= j < i ==> entries@[j].name@ != name@,
        decreases entries@.len() - i,
    {
        if bytes_eq(entries[i].name.as_slice(), name) {
            return Some(i);
        }
        i = i + 1;
    }
    None
}

/// The position of the first ref named `name`.
pub fn find_ref_by_name(refs: &Vec<RefEntry>, name: &[u8]) -> (r: Option<usize>)
    ensures
        r matches Some(i) ==> i < refs@.len() && refs@[i as int].name@ == name@ && forall|j: int|
            0 <= j < i ==> refs@[j].name@ != name@,
        r is None ==> forall|j: int| 0 <= j < refs@.len() ==> refs@[j].name@ != name@,
{
    let mut i: usize = 0;
    while i < refs.len()
        invariant
            i <= refs@.len(),
            forall|j: int| 0 <= j < i ==> refs@[j].name@ != name@,
        decreases refs@.len() - i,
    {
        if bytes_eq(refs[i].name.as_slice(), name) {
            return Some(i);
        }
        i = i + 1;
    }
    None
}

/// The target of the first ref (as name and target id) whose symlink in namespace
/// `marker` has inode `ino`.
pub open spec fn ref_link_spec(refs: Seq<(Seq<u8>, Seq<u8>)>, marker: u8, ino: u64) -> Option<Seq<u8>>
    decreases refs.len(),
{
    if refs.len() == 0 {
        None
    } else if synthetic_inode_spec(marker, refs[0].0) == ino {
        Some(commit_link_spec(refs[0].1))
    } else {
        ref_link_spec(refs.drop_first(), marker, ino)
    }
}

/// Every ref symlink target is `../commits/` and a full hex id.
pub proof fn lemma_ref_link_is_commit_link(refs: Seq<(Seq<u8>, Seq<u8>)>, marker: u8, ino: u64)
    requires
        forall|i: int| 0 <= i < refs.len() ==> (#[trigger] refs[i]).1.len() == 20 || refs[i].1.len() == 32,
        ref_link_spec(refs, marker, ino) is Some,
    ensures
        exists|id: Seq<u8>|
            (id.len() == 20 || id.len() == 32) && ref_link_spec(refs, marker, ino) == Some(
                commit_link_spec(id),
            ),
    decreases refs.len(),
{
    if synthetic_inode_spec(marker, refs[0].0) == ino {
        assert(refs[0].1.len() == 20 || refs[0].1.len() == 32);
    } else {
        let rest = refs.drop_first();
        assert forall|i: int| 0 <= i < rest.len() implies (#[trigger] rest[i]).1.len() == 20 || rest[i].1.len() == 32 by {
            assert(rest[i] == refs[i + 1]);
        }
        lemma_ref_link_is_commit_link(rest, marker, ino);
    }
}

/// The symlink target of the ref whose symlink has inode `ino`, if one has.
pub fn ref_link_for_inode(refs: &Vec<RefEntry>, marker: u8, ino: u64) -> (r: Option<Vec<u8>>)
    ensures
        r matches Some(t) ==> ref_link_spec(crate::repo::refs_view(refs@), marker, ino) == Some(t@),
        r is None ==> ref_link_spec(crate::repo::refs_view(refs@), marker, ino) is None,
{
    let ghost v = crate::repo::refs_view(refs@);
    assert(v.skip(0) =~= v);
    let mut i: usize = 0;
    while i < refs.len()
        invariant
            i <= refs@.len(),
            v == crate::repo::refs_view(refs@),
            ref_link_spec(v, marker, ino) == ref_link_spec(v.skip(i as int), marker, ino),
        decreases refs@.len() - i,
    {
        assert(v.skip(i as int)[0] == v[i as int]);
        assert(v.skip(i as int).drop_first() =~= v.skip(i + 1));
        if crate::inode::synthetic_inode(marker, refs[i].name.as_slice()) == ino {
            return Some(commit_link(&refs[i].target));
        }
        i = i + 1;
    }
    None
}

/// The bytes of a blob that a read of `size` bytes at `offset` returns: the slice from
/// the offset to the offset plus the size, cut at the end of the data; nothing at or
/// past the end.
pub open spec fn read_slice_spec(data: Seq<u8>, offset: u64, size: u32) -> Seq<u8> {
    if offset >= data.len() {
        Seq::empty()
    } else {
        let end = if offset + size > data.len() {
            data.len() as int
        } else {
            offset + size
        };
        data.subrange(offset as int, end)
    }
}

pub fn read_slice(data: &[u8], offset: u64, size: u32) -> (r: Vec<u8>)
    ensures
        r@ == read_slice_spec(data@, offset, size),
{
    let len = data.len();
    if offset >= len as u64 {
        return Vec::new();
    }
    let start = offset as usize;
    let end: usize = if (size as u64) > (len - start) as u64 {
        len
    } else {
        start + size as usize
    };
    let mut r: Vec<u8> = Vec::new();
    let mut i: usize = start;
    while i < end
        invariant
            start <= i <= end,
            end <= data@.len(),
            r@ =~= data@.subrange(start as int, i as int),
        decreases end - i,
    {
        r.push(data[i]);
        i = i + 1;
    }
    r
}

/// The listing from `offset` on: each record with its one-based position.
pub open spec fn page_spec(rs: Seq<(Seq<u8>, u64, u32, Option<Entry>)>, offset: u64) -> Seq<(u64, (Seq<u8>, u64, u32, Option<Entry>))> {
    if offset >= rs.len() {
        Seq::empty()
    } else {
        Seq::new((rs.len() - offset) as nat, |k: int| ((offset + k + 1) as u64, rs[offset + k]))
    }
}

/// The records at positions past `offset`, each numbered with its one-based position:
/// the kernel passes back the last position it accepted, and the listing resumes there.
pub fn page(records: &Vec<DirRecord>, offset: u64) -> (r: Vec<DirSlot>)
    ensures
        slots_view(r@) == page_spec(records_view(records@), offset),
{
    let ghost rv = records_view(records@);
    let mut out: Vec<DirSlot> = Vec::new();
    let len = records.len();
    if offset >= len as u64 {
        assert(slots_view(out@) =~= page_spec(rv, offset));
        return out;
    }
    let start = offset as usize;
    let mut k: usize = start;
    while k < len
        invariant
            start <= k <= len,
            len == records@.len(),
            start == offset,
            rv == records_view(records@),
            rv.len() == len,
            out@.len() == k - start,
            slots_view(out@) =~= page_spec(rv, offset).subrange(0, (k - start) as int),
        decreases len - k,
    {
        let ghost before = out@;
        out.push(DirSlot { offset: (k + 1) as u64, record: clone_record(&records[k]) });
        proof {
            let ps = page_spec(rv, offset);
            assert(ps[k - start] == ((k + 1) as u64, rv[k as int]));
            assert forall|j: int| 0 <= j <= k - start implies slots_view(out@)[j] == ps[j] by {
                if j < k - start {
                    assert(out@[j] == before[j]);
                    assert(slots_view(before)[j] == ps.subrange(0, (k - start) as int)[j]);
                }
            }
        }
        k = k + 1;
        assert(slots_view(out@) =~= page_spec(rv, offset).subrange(0, (k - start) as int));
    }
    assert(page_spec(rv, offset).subrange(0, (len - start) as int) =~= page_spec(rv, offset));
    out
}

pub fn clone_record(r: &DirRecord) -> (c: DirRecord)
    ensures
        record_view(c) == record_view(*r),
{
    DirRecord { name: r.name.clone(), ino: r.ino, dtype: r.dtype, entry: r.entry }
}

} // verus!
