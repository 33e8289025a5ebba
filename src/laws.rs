//! Properties that hold across the filesystem's operations.
use vstd::prelude::*;
use crate::attr::{Attr, UnixTime, DIRECTORY_MODE, EXECUTABLE_MODE, FILE_MODE, SYMLINK_MODE};
use crate::fs::{is_oid, object_attr_spec, tree_listing_spec};
use crate::node::{records_view, DirRecord};
use crate::inode::{inode_spec, lemma_inode_spec, synthetic_inode_spec, tag_kind, NodeKind, INODE_HEAD};
use crate::node::{
    commit_link_spec, commits_link_prefix, entry_names, entry_node_kind, first_named, page_spec,
    ref_link_spec, tree_child_spec, Entry,
};
use crate::oid::hex_of;
use crate::order::{lemma_lex_lt_asymmetric, lex_le};
use crate::repo::{
    collected_refs_spec, refs_view, short_refs_spec, sorted_by_name, EntryKind, ObjectKind,
    RefEntry, TreeEntry,
};

verus! {

/// A commit found under `commits/` is a directory: the inode the codec gives the commit
/// is no reserved one, is tagged as a commit, and its attributes are those of a 0755
/// directory.
pub proof fn law_commit_is_directory(id: Seq<u8>, size: u64, time: UnixTime, a: Attr)
    requires
        is_oid(id),
        object_attr_spec(a, inode_spec(id, NodeKind::Commit), ObjectKind::Commit, size, time),
    ensures
        a.mode == DIRECTORY_MODE,
        a.ino == inode_spec(id, NodeKind::Commit),
        inode_spec(id, NodeKind::Commit) > INODE_HEAD,
        tag_kind(inode_spec(id, NodeKind::Commit)) == Some(NodeKind::Commit),
{
    lemma_inode_spec(id, NodeKind::Commit);
}

/// The mode that a tree entry's kind gives its node.
pub open spec fn entry_mode_spec(k: EntryKind) -> u32 {
    match k {
        EntryKind::Tree | EntryKind::Commit => DIRECTORY_MODE,
        EntryKind::Blob => FILE_MODE,
        EntryKind::BlobExecutable => EXECUTABLE_MODE,
        EntryKind::Link => SYMLINK_MODE,
    }
}

/// No two names are the same.
pub open spec fn unique_names(names: Seq<Seq<u8>>) -> bool {
    forall|i: int, j: int| 0 <= i < names.len() && 0 <= j < names.len() && i != j ==> names[i] != names[j]
}

/// Looking up the name of any entry of a tree (whose names are unique, as Git's are)
/// finds that entry, and the entry it yields has the inode that the codec gives the
/// entry's id and kind, and the mode of that kind.
pub proof fn law_tree_lookup_matches_codec(entries: Seq<TreeEntry>, i: int, size: u64, time: UnixTime, r: (Entry, u32))
    requires
        unique_names(entry_names(entries)),
        0 <= i < entries.len(),
        entries[i].oid.wf(),
        tree_child_spec(entries[i], size, time, r),
    ensures
        first_named(entry_names(entries), entries[i].name@, i),
        r.0.inode == inode_spec(entries[i].oid@, entry_node_kind(entries[i].kind)),
        r.0.attr.ino == r.0.inode,
        r.0.attr.mode == entry_mode_spec(entries[i].kind),
        tag_kind(r.0.inode) == Some(entry_node_kind(entries[i].kind)),
{
    let names = entry_names(entries);
    assert forall|j: int| 0 <= j < i implies names[j] != entries[i].name@ by {
        assert(names[i] == entries[i].name@);
    }
    lemma_inode_spec(entries[i].oid@, entry_node_kind(entries[i].kind));
}

/// No two refs share a short name.
pub open spec fn unique_ref_names(s: Seq<(Seq<u8>, Seq<u8>)>) -> bool {
    forall|i: int, j: int| 0 <= i < j < s.len() ==> s[i].0 != s[j].0
}

proof fn lemma_lex_le_antisymmetric(a: Seq<u8>, b: Seq<u8>)
    requires
        lex_le(a, b),
        lex_le(b, a),
    ensures
        a == b,
{
    if a != b {
        lemma_lex_lt_asymmetric(a, b);
    }
}

/// Two name-sorted lists of refs with unique names that hold the same refs are equal.
pub proof fn lemma_sorted_refs_equal(s: Seq<(Seq<u8>, Seq<u8>)>, t: Seq<(Seq<u8>, Seq<u8>)>)
    requires
        sorted_by_name(s),
        sorted_by_name(t),
        unique_ref_names(s),
        unique_ref_names(t),
        s.to_multiset() == t.to_multiset(),
    ensures
        s == t,
    decreases s.len(),
{
    broadcast use vstd::seq_lib::group_to_multiset_ensures;

    vstd::seq_lib::to_multiset_len(s);
    vstd::seq_lib::to_multiset_len(t);
    assert(s.len() == t.len());
    if s.len() == 0 {
        assert(s =~= t);
    } else {
        assert(s.contains(s[0]));
        vstd::seq_lib::to_multiset_contains(s, s[0]);
        vstd::seq_lib::to_multiset_contains(t, s[0]);
        assert(t.contains(s[0]));
        let k = choose|k: int| 0 <= k < t.len() && t[k] == s[0];
        assert(t.contains(t[0]));
        vstd::seq_lib::to_multiset_contains(t, t[0]);
        vstd::seq_lib::to_multiset_contains(s, t[0]);
        assert(s.contains(t[0]));
        let j = choose|j: int| 0 <= j < s.len() && s[j] == t[0];
        if j > 0 {
            assert(lex_le(s[0].0, s[j].0));
        }
        if k > 0 {
            assert(lex_le(t[0].0, t[k].0));
        }
        lemma_lex_le_antisymmetric(s[0].0, t[0].0);
        assert(k == 0);
        vstd::seq_lib::to_multiset_remove(s, 0);
        vstd::seq_lib::to_multiset_remove(t, 0);
        let s1 = s.remove(0);
        let t1 = t.remove(0);
        assert forall|a: int, b: int| 0 <= a < b < s1.len() implies lex_le(#[trigger] s1[a].0, #[trigger] s1[b].0) by {
            assert(s1[a] == s[a + 1] && s1[b] == s[b + 1]);
        }
        assert forall|a: int, b: int| 0 <= a < b < t1.len() implies lex_le(#[trigger] t1[a].0, #[trigger] t1[b].0) by {
            assert(t1[a] == t[a + 1] && t1[b] == t[b + 1]);
        }
        assert forall|a: int, b: int| 0 <= a < b < s1.len() implies s1[a].0 != s1[b].0 by {
            assert(s1[a] == s[a + 1] && s1[b] == s[b + 1]);
        }
        assert forall|a: int, b: int| 0 <= a < b < t1.len() implies t1[a].0 != t1[b].0 by {
            assert(t1[a] == t[a + 1] && t1[b] == t[b + 1]);
        }
        lemma_sorted_refs_equal(s1, t1);
        assert(s =~= t) by {
            assert forall|a: int| 0 <= a < s.len() implies s[a] == t[a] by {
                if a > 0 {
                    assert(s1[a - 1] == s[a] && t1[a - 1] == t[a]);
                }
            }
        }
    }
}

/// Listing a ref namespace is deterministic: however the database orders the refs it
/// enumerates, two enumerations holding the same refs (short names unique) give the
/// same listing.
pub proof fn law_ref_listing_deterministic(
    r1: Seq<RefEntry>,
    raw1: Seq<(Vec<u8>, crate::oid::Oid)>,
    r2: Seq<RefEntry>,
    raw2: Seq<(Vec<u8>, crate::oid::Oid)>,
    prefix: Seq<u8>,
)
    requires
        collected_refs_spec(r1, raw1, prefix),
        collected_refs_spec(r2, raw2, prefix),
        short_refs_spec(raw1, prefix).to_multiset() == short_refs_spec(raw2, prefix).to_multiset(),
        unique_ref_names(refs_view(r1)),
        unique_ref_names(refs_view(r2)),
    ensures
        refs_view(r1) == refs_view(r2),
{
    lemma_sorted_refs_equal(refs_view(r1), refs_view(r2));
}

/// Listing a tree-backed directory is deterministic: two listings of the same
/// directory from the same tree entries, sizes and time hold the same records, in the
/// same order.
pub proof fn law_tree_listing_deterministic(
    v1: Seq<DirRecord>,
    v2: Seq<DirRecord>,
    ino: u64,
    parent: u64,
    entries: Seq<TreeEntry>,
    sizes: Seq<u64>,
    time: UnixTime,
)
    requires
        tree_listing_spec(v1, ino, parent, entries, sizes, time),
        tree_listing_spec(v2, ino, parent, entries, sizes, time),
    ensures
        records_view(v1) == records_view(v2),
{
    assert forall|k: int| 0 <= k < v1.len() implies records_view(v1)[k] == records_view(v2)[k] by {
        if k >= 2 {
            let j = k - 2;
            assert(crate::fs::child_record_spec(v1[j + 2], entries[j], sizes[j], time));
            assert(crate::fs::child_record_spec(v2[j + 2], entries[j], sizes[j], time));
            assert(v1[j + 2].name@ == v2[j + 2].name@);
        }
    }
    assert(records_view(v1) =~= records_view(v2));
}

/// Reading a listing in pages, each call resuming at the position the previous one
/// last delivered, gives back the whole listing: the first `k` records of the page at
/// `o`, followed by the page at `o + k`, are the page at `o`; the last of those `k`
/// records carries position `o + k`; and the page at 0 is every record, numbered
/// from 1.
pub proof fn law_readdir_paging(rs: Seq<(Seq<u8>, u64, u32, Option<Entry>)>, o: u64, k: int)
    requires
        o <= rs.len(),
        0 <= k <= rs.len() - o,
        rs.len() < u64::MAX,
    ensures
        page_spec(rs, o).subrange(0, k) + page_spec(rs, (o + k) as u64) == page_spec(rs, o),
        k > 0 ==> page_spec(rs, o)[k - 1].0 == o + k,
        page_spec(rs, 0).len() == rs.len(),
        forall|i: int| 0 <= i < rs.len() ==> #[trigger] page_spec(rs, 0)[i] == ((i + 1) as u64, rs[i]),
{
    assert(page_spec(rs, o).subrange(0, k) + page_spec(rs, (o + k) as u64) =~= page_spec(rs, o));
}

/// `readlink` of a branch or tag symlink: where no earlier ref of the namespace shares
/// its inode, the target is `../commits/` followed by the full hex id of the commit
/// the ref peels to, two digits per byte (40 for SHA-1, 64 for SHA-256).
pub proof fn law_ref_readlink(refs: Seq<(Seq<u8>, Seq<u8>)>, marker: u8, i: int)
    requires
        0 <= i < refs.len(),
        forall|j: int|
            0 <= j < i ==> synthetic_inode_spec(marker, #[trigger] refs[j].0) != synthetic_inode_spec(
                marker,
                refs[i].0,
            ),
    ensures
        ref_link_spec(refs, marker, synthetic_inode_spec(marker, refs[i].0)) == Some(
            commit_link_spec(refs[i].1),
        ),
        commit_link_spec(refs[i].1) == commits_link_prefix() + hex_of(refs[i].1),
        hex_of(refs[i].1).len() == 2 * refs[i].1.len(),
    decreases i,
{
    if i > 0 {
        let rest = refs.drop_first();
        assert forall|j: int| 0 <= j < i - 1 implies synthetic_inode_spec(marker, #[trigger] rest[j].0)
            != synthetic_inode_spec(marker, rest[i - 1].0) by {
            assert(rest[j] == refs[j + 1]);
        }
        law_ref_readlink(rest, marker, i - 1);
        assert(rest[i - 1] == refs[i]);
        assert(refs[0].0 == refs[0].0);
    }
}

} // verus!
