use gitsnapfs::attr::{
    build_dir_attr, build_file_attr, build_symlink_attr, saturating_i64_from_u64,
    time_to_unix_parts, EpochOffset, UnixTime, DIRECTORY_MODE, EXECUTABLE_MODE, FILE_MODE,
    SYMLINK_MODE,
};
use gitsnapfs::collision::{InodeCollision, InodeTable};
use gitsnapfs::session::{after_failed_request, ServeAction};
use gitsnapfs::fs::{blob_only, check_access, check_open_flags, negotiate, ref_entry, root_child, RefNamespace};
use gitsnapfs::inode::{
    decode_candidate_prefixes, inode_for, inode_from_oid, inode_to_hex_prefix, synthetic_inode,
    NodeKind, INODE_BRANCHES, INODE_COMMITS, INODE_HEAD, INODE_TAGS,
};
use gitsnapfs::node::{
    commit_link, find_entry, page, read_slice, ref_link_for_inode, repo_error, tree_child_entry,
    DirRecord, FsError, DT_DIR, DT_LNK, DT_REG,
};
use gitsnapfs::oid::Oid;
use gitsnapfs::order::compare_bytes;
use gitsnapfs::repo::{
    collect_refs, combine_decoded, expect_commit, head_commit_result, is_valid_hex_prefix, prefix_result, strip_prefix, EntryKind,
    ObjectKind, PrefixLookup, RefEntry, RepoError, TreeEntry,
};

fn oid(hex: &str) -> Oid {
    let id = gix::ObjectId::from_hex(hex.as_bytes()).unwrap();
    Oid::from_bytes(id.as_bytes().to_vec()).unwrap()
}

fn at(secs: i64) -> UnixTime {
    UnixTime { secs, nanos: 0 }
}

fn record(name: &str, ino: u64) -> DirRecord {
    DirRecord { name: name.as_bytes().to_vec(), ino, dtype: DT_REG, entry: None }
}

#[test]
fn inode_roundtrip_low_bits() {
    let object = oid("0123456789abcdef0123456789abcdef01234567");
    let ino = inode_from_oid(&object);
    assert_eq!(ino, 0x0123_4567_89ab_cdef);
    assert_eq!(inode_to_hex_prefix(ino), "0123456789abcdef");
}

#[test]
fn codec_tags_the_top_bits_with_the_kind() {
    let object = oid("f123456789abcdef0123456789abcdef01234567");
    assert_eq!(inode_for(&object, NodeKind::Blob), 0x0123_4567_89ab_cdef);
    assert_eq!(inode_for(&object, NodeKind::Tree), 0x1123_4567_89ab_cdef);
    assert_eq!(inode_for(&object, NodeKind::Commit), 0x2123_4567_89ab_cdef);
    assert_eq!(inode_for(&object, NodeKind::Symlink), 0x3123_4567_89ab_cdef);
    assert_eq!(inode_for(&object, NodeKind::Gitlink), 0x4123_4567_89ab_cdef);
    assert_eq!(inode_for(&object, NodeKind::Executable), 0x5123_4567_89ab_cdef);
}

#[test]
fn codec_never_yields_a_reserved_inode() {
    let object = oid("0000000000000003000000000000000000000000");
    let ino = inode_for(&object, NodeKind::Blob);
    assert_eq!(ino, 0xf000_0000_0000_0003);
    assert!(ino > INODE_HEAD);
    let root_like = oid("0000000000000001000000000000000000000000");
    assert_eq!(inode_from_oid(&root_like), 0xf000_0000_0000_0001);
    let tagged = oid("f123456789abcdef0123456789abcdef01234567");
    assert_eq!(inode_from_oid(&tagged), 0x0123_4567_89ab_cdef);
}

#[test]
fn decoding_tries_every_first_digit() {
    let prefixes = decode_candidate_prefixes(0x2123_4567_89ab_cdef);
    assert_eq!(prefixes.len(), 16);
    assert_eq!(prefixes[0], b"0123456789abcdef".to_vec());
    assert_eq!(prefixes[15], b"f123456789abcdef".to_vec());
}

#[test]
fn synthetic_inodes_hash_namespace_and_name() {
    assert_eq!(synthetic_inode(1, b"main"), 0x07ca_9a5b_df8c_5c79);
    assert_eq!(synthetic_inode(1, b"main"), synthetic_inode(1, b"main"));
    assert_ne!(synthetic_inode(1, b"main"), synthetic_inode(2, b"main"));
    assert_eq!(RefNamespace::Branches.marker(), 1);
    assert_eq!(RefNamespace::Tags.marker(), 2);
}

#[test]
fn time_parts_on_both_sides_of_the_epoch() {
    let after = EpochOffset { before_epoch: false, secs: 1_700_000_000, subsec_nanos: 5 };
    assert_eq!(time_to_unix_parts(after), (1_700_000_000, 5));
    let before = EpochOffset { before_epoch: true, secs: 3, subsec_nanos: 250 };
    assert_eq!(time_to_unix_parts(before), (-3, 250));
    let huge = EpochOffset { before_epoch: false, secs: u64::MAX, subsec_nanos: 0 };
    assert_eq!(time_to_unix_parts(huge), (i64::MAX, 0));
}

#[test]
fn sizes_saturate_at_the_largest_signed_value() {
    assert_eq!(saturating_i64_from_u64(7), 7);
    assert_eq!(saturating_i64_from_u64(u64::MAX), i64::MAX);
    let a = build_file_attr(9, FILE_MODE, u64::MAX, at(0));
    assert_eq!(a.size, i64::MAX as u64);
}

#[test]
fn attribute_records() {
    let d = build_dir_attr(2, DIRECTORY_MODE, at(100));
    assert_eq!((d.ino, d.mode, d.nlink, d.size), (2, 0o040755, 2, 0));
    assert_eq!((d.atime, d.mtime, d.ctime), (100, 100, 100));
    assert_eq!((d.uid, d.gid, d.blksize, d.blocks), (0, 0, 4096, 0));
    let f = build_file_attr(9, EXECUTABLE_MODE, 10, at(100));
    assert_eq!((f.mode, f.nlink, f.size), (0o100555, 1, 10));
    let l = build_symlink_attr(9, SYMLINK_MODE, at(-5), 6);
    assert_eq!((l.mode, l.nlink, l.size, l.mtime), (0o120777, 1, 6, 0));
}

#[test]
fn byte_order_is_lexicographic() {
    assert!(compare_bytes(b"feature", b"main") < 0);
    assert!(compare_bytes(b"main", b"feature") > 0);
    assert!(compare_bytes(b"ma", b"main") < 0);
    assert_eq!(compare_bytes(b"main", b"main"), 0);
}

#[test]
fn refs_are_named_short_and_sorted() {
    let a = oid("aaaaaaaaaaaaaaaaaaaaaaaaaaaaaaaaaaaaaaaa");
    let b = oid("bbbbbbbbbbbbbbbbbbbbbbbbbbbbbbbbbbbbbbbb");
    let raw = vec![
        (b"refs/heads/main".to_vec(), a.clone()),
        (b"refs/heads/feature".to_vec(), b.clone()),
        (b"refs/heads/dev".to_vec(), a.clone()),
    ];
    let refs = collect_refs(raw, b"refs/heads/");
    let names: Vec<Vec<u8>> = refs.iter().map(|r| r.name.clone()).collect();
    assert_eq!(names, vec![b"dev".to_vec(), b"feature".to_vec(), b"main".to_vec()]);
    assert_eq!(refs[1].target, b);
    assert_eq!(strip_prefix(b"other/x", b"refs/heads/"), b"other/x".to_vec());
}

#[test]
fn hex_prefixes_are_checked() {
    assert!(is_valid_hex_prefix(b"aaa"));
    assert!(is_valid_hex_prefix(b"ab"));
    assert!(!is_valid_hex_prefix(b""));
    assert!(!is_valid_hex_prefix(b"a"));
    assert!(!is_valid_hex_prefix(b"AAA"));
    assert!(!is_valid_hex_prefix(b"xyz"));
    assert!(!is_valid_hex_prefix(&[b'a'; 41]));
}

#[test]
fn ambiguous_prefixes_surface_as_io_errors() {
    assert_eq!(prefix_result(PrefixLookup::Ambiguous), Err(RepoError::Ambiguous));
    assert_eq!(prefix_result(PrefixLookup::Missing), Err(RepoError::NotFound));
    assert_eq!(repo_error(RepoError::Ambiguous), FsError::Io);
    assert_eq!(repo_error(RepoError::NotFound), FsError::NotFound);
    assert_eq!(repo_error(RepoError::WrongKind), FsError::NotFound);
    assert_eq!(repo_error(RepoError::UnbornHead), FsError::Io);
}

#[test]
fn decoding_combines_the_candidate_lookups() {
    let a = oid("aaaaaaaaaaaaaaaaaaaaaaaaaaaaaaaaaaaaaaaa");
    let b = oid("bbbbbbbbbbbbbbbbbbbbbbbbbbbbbbbbbbbbbbbb");
    let one = vec![PrefixLookup::Missing, PrefixLookup::Unique(a.clone()), PrefixLookup::Missing];
    assert_eq!(combine_decoded(one), Ok(a.clone()));
    let two = vec![PrefixLookup::Unique(a.clone()), PrefixLookup::Unique(b)];
    assert_eq!(combine_decoded(two), Err(RepoError::Ambiguous));
    let amb = vec![PrefixLookup::Unique(a), PrefixLookup::Ambiguous];
    assert_eq!(combine_decoded(amb), Err(RepoError::Ambiguous));
    assert_eq!(combine_decoded(vec![PrefixLookup::Missing]), Err(RepoError::NotFound));
}

#[test]
fn read_is_a_clamped_slice() {
    let data = b"hi\n";
    assert_eq!(read_slice(data, 0, 100), b"hi\n".to_vec());
    assert_eq!(read_slice(data, 1, 1), b"i".to_vec());
    assert_eq!(read_slice(data, 1, 100), b"i\n".to_vec());
    assert_eq!(read_slice(data, 3, 10), Vec::<u8>::new());
    assert_eq!(read_slice(data, 7, 10), Vec::<u8>::new());
    assert_eq!(read_slice(b"", 0, 10), Vec::<u8>::new());
}

#[test]
fn pages_resume_after_the_last_offset() {
    let records = vec![record(".", 1), record("..", 1), record("a", 7), record("b", 8), record("c", 9)];
    let all = page(&records, 0);
    let offsets: Vec<u64> = all.iter().map(|s| s.offset).collect();
    assert_eq!(offsets, vec![1, 2, 3, 4, 5]);
    let first = page(&records, 0);
    let last_accepted = first[2].offset;
    let rest = page(&records, last_accepted);
    let mut joined: Vec<Vec<u8>> = first[..3].iter().map(|s| s.record.name.clone()).collect();
    joined.extend(rest.iter().map(|s| s.record.name.clone()));
    let whole: Vec<Vec<u8>> = all.iter().map(|s| s.record.name.clone()).collect();
    assert_eq!(joined, whole);
    assert!(page(&records, 5).is_empty());
    assert!(page(&records, 99).is_empty());
}

#[test]
fn tree_children_take_mode_and_inode_from_their_entry() {
    let id = oid("1111111111111111111111111111111111111111");
    let entry = |kind| TreeEntry { name: b"x".to_vec(), kind, oid: id.clone() };
    let (e, d) = tree_child_entry(&entry(EntryKind::Blob), 3, at(0));
    assert_eq!((e.attr.mode, e.attr.size, d, e.inode), (0o100444, 3, DT_REG, inode_for(&id, NodeKind::Blob)));
    let (e, d) = tree_child_entry(&entry(EntryKind::BlobExecutable), 10, at(0));
    assert_eq!((e.attr.mode, e.attr.size, d), (0o100555, 10, DT_REG));
    let (e, d) = tree_child_entry(&entry(EntryKind::Link), 6, at(0));
    assert_eq!((e.attr.mode, e.attr.size, d, e.inode), (0o120777, 6, DT_LNK, inode_for(&id, NodeKind::Symlink)));
    let (e, d) = tree_child_entry(&entry(EntryKind::Tree), 0, at(0));
    assert_eq!((e.attr.mode, e.attr.nlink, d), (0o040755, 2, DT_DIR));
    let (e, d) = tree_child_entry(&entry(EntryKind::Commit), 0, at(0));
    assert_eq!((e.attr.mode, d, e.inode), (0o040755, DT_DIR, inode_for(&id, NodeKind::Gitlink)));
}

#[test]
fn names_match_byte_for_byte() {
    let id = oid("1111111111111111111111111111111111111111");
    let entries = vec![
        TreeEntry { name: b"README".to_vec(), kind: EntryKind::Blob, oid: id.clone() },
        TreeEntry { name: b"run.sh".to_vec(), kind: EntryKind::BlobExecutable, oid: id },
    ];
    assert_eq!(find_entry(&entries, b"run.sh"), Some(1));
    assert_eq!(find_entry(&entries, b"readme"), None);
    assert_eq!(root_child(b"commits"), Some(INODE_COMMITS));
    assert_eq!(root_child(b"branches"), Some(INODE_BRANCHES));
    assert_eq!(root_child(b"tags"), Some(INODE_TAGS));
    assert_eq!(root_child(b"HEAD"), Some(INODE_HEAD));
    assert_eq!(root_child(b"head"), None);
}

#[test]
fn ref_symlinks_point_into_commits() {
    let id = oid("aaaaaaaaaaaaaaaaaaaaaaaaaaaaaaaaaaaaaaaa");
    let link = commit_link(&id);
    assert_eq!(link, b"../commits/aaaaaaaaaaaaaaaaaaaaaaaaaaaaaaaaaaaaaaaa".to_vec());
    let refs = vec![
        RefEntry { name: b"feature".to_vec(), target: oid("bbbbbbbbbbbbbbbbbbbbbbbbbbbbbbbbbbbbbbbb") },
        RefEntry { name: b"main".to_vec(), target: id.clone() },
    ];
    let ino = synthetic_inode(1, b"main");
    assert_eq!(ref_link_for_inode(&refs, 1, ino), Some(link.clone()));
    assert_eq!(ref_link_for_inode(&refs, 2, ino), None);
    let (i, d, e) = ref_entry(1, b"main", &id, ObjectKind::Commit, 0, at(0)).unwrap();
    assert_eq!((i, d, e.attr.mode, e.attr.size), (ino, DT_LNK, 0o120777, link.len() as u64));
    let (i, d, _) = ref_entry(1, b"t", &id, ObjectKind::Tree, 0, at(0)).unwrap();
    assert_eq!((i, d), (inode_for(&id, NodeKind::Tree), DT_DIR));
    assert_eq!(ref_entry(2, b"t", &id, ObjectKind::Tag, 0, at(0)), Err(FsError::Unsupported));
}

#[test]
fn write_access_is_refused() {
    assert_eq!(check_access(2), Err(FsError::ReadOnly));
    assert_eq!(check_access(6), Err(FsError::ReadOnly));
    assert_eq!(check_access(4), Ok(()));
    assert_eq!(check_access(0x8000_0000), Err(FsError::InvalidArgument));
    assert_eq!(check_open_flags(0), Ok(()));
    assert_eq!(check_open_flags(1), Err(FsError::ReadOnly));
    assert_eq!(check_open_flags(2), Err(FsError::ReadOnly));
}

#[test]
fn init_requires_every_required_capability() {
    assert_eq!(negotiate(0b1111, 0b0011, 0b0100), Ok(0b0111));
    assert_eq!(negotiate(0b0001, 0b0011, 0b0100), Err(FsError::Unsupported));
    assert_eq!(negotiate(0b0011, 0b0011, 0b1100), Ok(0b0011));
}

#[test]
fn the_inode_table_keeps_the_first_claim_and_reports_collisions() {
    let a = oid("aaaaaaaaaaaaaaaaaaaaaaaaaaaaaaaaaaaaaaaa");
    let b = oid("aaaaaaaaaaaaaaaabbbbbbbbbbbbbbbbbbbbbbbb");
    let ino = inode_for(&a, NodeKind::Blob);
    assert_eq!(ino, inode_for(&b, NodeKind::Blob));
    let mut table = InodeTable::new();
    assert_eq!(table.register(ino, &a, NodeKind::Blob), Ok(()));
    assert_eq!(table.register(ino, &a, NodeKind::Blob), Ok(()));
    assert_eq!(table.register(ino, &b, NodeKind::Blob), Err(InodeCollision { inode: ino }));
    assert_eq!(table.register(ino, &a, NodeKind::Tree), Err(InodeCollision { inode: ino }));
    let slot = table.slots.get(&ino).unwrap();
    assert_eq!(slot.first.oid, a.bytes);
    assert_eq!(slot.collisions.len(), 2);
    assert_eq!(slot.collisions[0].oid, b.bytes);
    assert_eq!(slot.collisions[1].kind, NodeKind::Tree);
}

#[test]
fn serving_stops_only_when_the_channel_is_gone() {
    assert_eq!(after_failed_request(true, Some(9), 9), ServeAction::Stop);
    assert_eq!(after_failed_request(true, Some(5), 9), ServeAction::Continue);
    assert_eq!(after_failed_request(true, None, 9), ServeAction::Continue);
    assert_eq!(after_failed_request(false, Some(9), 9), ServeAction::Continue);
}

#[test]
fn unborn_heads_other_kinds_and_non_blobs_are_refused() {
    let a = oid("aaaaaaaaaaaaaaaaaaaaaaaaaaaaaaaaaaaaaaaa");
    assert_eq!(head_commit_result(None), Err(RepoError::UnbornHead));
    assert_eq!(head_commit_result(Some(a.clone())), Ok(a));
    assert_eq!(repo_error(RepoError::UnbornHead), FsError::Io);
    assert_eq!(expect_commit(ObjectKind::Commit), Ok(()));
    assert_eq!(expect_commit(ObjectKind::Tree), Err(RepoError::WrongKind));
    assert_eq!(blob_only(ObjectKind::Blob), Ok(()));
    assert_eq!(blob_only(ObjectKind::Tree), Err(FsError::InvalidArgument));
    assert_eq!(blob_only(ObjectKind::Commit), Err(FsError::InvalidArgument));
}
