use gitsnapfs::attr::EpochOffset;
use gitsnapfs::fs::GitSnapFs;
use gitsnapfs::inode::{
    inode_for, NodeKind, INODE_BRANCHES, INODE_COMMITS, INODE_HEAD, INODE_ROOT, INODE_TAGS,
};
use gitsnapfs::node::FsError;
use gitsnapfs::oid::Oid;
use gitsnapfs::repo::Repository;

use gix::objs::tree::{Entry, EntryKind};
use gix::refs::transaction::PreviousValue;

struct Fixture {
    fs: GitSnapFs,
    commit: String,
    readme: Oid,
    tree: Oid,
}

fn sig() -> gix::actor::SignatureRef<'static> {
    gix::actor::SignatureRef { name: "Tester".into(), email: "t@example.com".into(), time: "1700000000 +0000" }
}

fn to_oid(id: gix::ObjectId) -> Oid {
    Oid::from_bytes(id.as_bytes().to_vec()).unwrap()
}

/// A bare repository whose one commit holds `README` ("hi\n"), an executable
/// `run.sh` ("#!/bin/sh\n") and a symlink `link -> README`; HEAD, the branches
/// `main` and `feature` and the tag `v1` all point at it.
fn fixture(dir: &str) -> Fixture {
    let repo = match gix::init_bare(dir) {
        Ok(r) => r,
        Err(_) => gix::open(dir).unwrap(),
    };
    let readme = repo.write_blob(b"hi\n").unwrap().detach();
    let run = repo.write_blob(b"#!/bin/sh\n").unwrap().detach();
    let link = repo.write_blob(b"README").unwrap().detach();
    let entries = vec![
        Entry { mode: EntryKind::Blob.into(), filename: "README".into(), oid: readme },
        Entry { mode: EntryKind::Link.into(), filename: "link".into(), oid: link },
        Entry { mode: EntryKind::BlobExecutable.into(), filename: "run.sh".into(), oid: run },
    ];
    let tree = repo.write_object(gix::objs::Tree { entries }).unwrap().detach();
    let commit = repo
        .commit_as(sig(), sig(), "HEAD", "init", tree, Vec::<gix::ObjectId>::new())
        .unwrap()
        .detach();
    for name in ["refs/heads/main", "refs/heads/feature", "refs/tags/v1"] {
        repo.reference(name, commit, PreviousValue::Any, "test").unwrap();
    }
    let repo = Repository::open(&std::path::PathBuf::from(dir)).ok().unwrap();
    let time = EpochOffset { before_epoch: false, secs: 1_800_000_000, subsec_nanos: 0 };
    Fixture { fs: GitSnapFs::new(repo, time), commit: commit.to_string(), readme: to_oid(readme), tree: to_oid(tree) }
}

fn names(fs: &mut GitSnapFs, ino: u64, offset: u64) -> Vec<String> {
    fs.readdir(ino, offset)
        .unwrap()
        .iter()
        .map(|s| String::from_utf8(s.record.name.clone()).unwrap())
        .collect()
}

fn commit_dir(f: &mut Fixture) -> u64 {
    f.fs.lookup(INODE_COMMITS, f.commit.as_bytes()).unwrap().inode
}

#[test]
fn head_lists_the_commit_tree() {
    let mut f = fixture("/tmp/gitsnapfs-head-lists");
    let head = f.fs.lookup(INODE_ROOT, b"HEAD").unwrap();
    assert_eq!(head.inode, INODE_HEAD);
    assert_eq!(f.fs.readlink(INODE_HEAD).unwrap(), format!("../commits/{}", f.commit).into_bytes());
    let dir = commit_dir(&mut f);
    assert_eq!(names(&mut f.fs, dir, 0), vec![".", "..", "README", "link", "run.sh"]);
    let readme = f.fs.lookup(dir, b"README").unwrap();
    assert_eq!((readme.attr.mode & 0o7777, readme.attr.size), (0o444, 3));
    let run = f.fs.lookup(dir, b"run.sh").unwrap();
    assert_eq!((run.attr.mode & 0o7777, run.attr.size), (0o555, 10));
    assert_eq!(f.fs.getattr(run.inode).unwrap().mode, 0o100555);
    assert_eq!(f.fs.read(readme.inode, 0, 4096).unwrap(), b"hi\n".to_vec());
}

#[test]
fn git_nodes_carry_the_committer_time() {
    let mut f = fixture("/tmp/gitsnapfs-times");
    let commit = f.fs.lookup(INODE_COMMITS, f.commit.clone().as_bytes()).unwrap();
    assert_eq!(commit.attr.mtime, 1_700_000_000);
    assert_eq!(f.fs.getattr(commit.inode).unwrap().mtime, 1_700_000_000);
    let readme = f.fs.lookup(commit.inode, b"README").unwrap();
    assert_eq!((readme.attr.atime, readme.attr.mtime, readme.attr.ctime), (1_700_000_000, 1_700_000_000, 1_700_000_000));
    assert_eq!(f.fs.getattr(readme.inode).unwrap().mtime, 1_700_000_000);
    assert_eq!(f.fs.getattr(INODE_ROOT).unwrap().mtime, 1_800_000_000);
    assert_eq!(f.fs.getattr(INODE_HEAD).unwrap().mtime, 1_800_000_000);
}

#[test]
fn symlink_entries_read_their_blob() {
    let mut f = fixture("/tmp/gitsnapfs-symlink");
    let dir = commit_dir(&mut f);
    let link = f.fs.lookup(dir, b"link").unwrap();
    assert_eq!(link.attr.mode, 0o120777);
    assert_eq!(f.fs.readlink(link.inode).unwrap(), b"README".to_vec());
    let readme = f.fs.lookup(dir, b"README").unwrap();
    assert_eq!(f.fs.readlink(readme.inode), Err(FsError::InvalidArgument));
}

#[test]
fn branches_are_sorted_symlinks_to_commits() {
    let mut f = fixture("/tmp/gitsnapfs-branches");
    assert_eq!(names(&mut f.fs, INODE_BRANCHES, 0), vec![".", "..", "feature", "main"]);
    let main = f.fs.lookup(INODE_BRANCHES, b"main").unwrap();
    assert_eq!(main.attr.mode, 0o120777);
    let target = format!("../commits/{}", f.commit).into_bytes();
    assert_eq!(f.fs.readlink(main.inode).unwrap(), target);
    assert_eq!(f.fs.getattr(main.inode).unwrap().size, target.len() as u64);
    assert_eq!(f.fs.lookup(INODE_BRANCHES, b"nope"), Err(FsError::NotFound));
}

#[test]
fn tags_are_symlinks_to_commits() {
    let mut f = fixture("/tmp/gitsnapfs-tags");
    assert_eq!(names(&mut f.fs, INODE_TAGS, 0), vec![".", "..", "v1"]);
    let v1 = f.fs.lookup(INODE_TAGS, b"v1").unwrap();
    assert_eq!(f.fs.readlink(v1.inode).unwrap(), format!("../commits/{}", f.commit).into_bytes());
    assert_eq!(f.commit.len(), 40);
}

#[test]
fn commits_resolve_by_full_or_short_hex() {
    let mut f = fixture("/tmp/gitsnapfs-hex");
    let full = f.fs.lookup(INODE_COMMITS, f.commit.as_bytes()).unwrap();
    let commit = to_oid(gix::ObjectId::from_hex(f.commit.as_bytes()).unwrap());
    assert_eq!(full.inode, inode_for(&commit, NodeKind::Commit));
    let short = f.fs.lookup(INODE_COMMITS, &f.commit.as_bytes()[..7]).unwrap();
    assert_eq!(short.inode, full.inode);
    let attr = f.fs.getattr(full.inode).unwrap();
    assert_eq!(attr.mode, 0o040755);
    assert_eq!(f.fs.lookup(INODE_COMMITS, b"not-hex"), Err(FsError::NotFound));
    let readme_hex: String = f.readme.bytes.iter().map(|b| format!("{b:02x}")).collect();
    assert_eq!(f.fs.lookup(INODE_COMMITS, readme_hex.as_bytes()), Err(FsError::NotFound));
}

#[test]
fn tree_lookups_follow_the_codec() {
    let mut f = fixture("/tmp/gitsnapfs-codec");
    let dir = commit_dir(&mut f);
    let listing = f.fs.readdir(dir, 2).unwrap();
    for slot in listing {
        let entry = f.fs.lookup(dir, &slot.record.name).unwrap();
        assert_eq!(entry.inode, slot.record.ino);
        assert_eq!(f.fs.getattr(entry.inode).unwrap().mode, entry.attr.mode);
    }
    assert_eq!(f.fs.lookup(dir, b"readme"), Err(FsError::NotFound));
    let tree_ino = inode_for(&f.tree, NodeKind::Tree);
    assert_eq!(names(&mut f.fs, tree_ino, 2), vec!["README", "link", "run.sh"]);
}

#[test]
fn listings_are_deterministic_and_page_cleanly() {
    let mut f = fixture("/tmp/gitsnapfs-paging");
    let dir = commit_dir(&mut f);
    assert_eq!(names(&mut f.fs, dir, 0), names(&mut f.fs, dir, 0));
    assert_eq!(names(&mut f.fs, INODE_BRANCHES, 0), names(&mut f.fs, INODE_BRANCHES, 0));
    let whole = names(&mut f.fs, INODE_ROOT, 0);
    assert_eq!(whole, vec![".", "..", "commits", "branches", "tags", "HEAD"]);
    let first = f.fs.readdir(INODE_ROOT, 0).unwrap();
    let resume = first[3].offset;
    let mut joined: Vec<String> = names(&mut f.fs, INODE_ROOT, 0)[..4].to_vec();
    joined.extend(names(&mut f.fs, INODE_ROOT, resume));
    assert_eq!(joined, whole);
    assert!(names(&mut f.fs, INODE_ROOT, 6).is_empty());
}

#[test]
fn reads_clamp_to_the_blob() {
    let mut f = fixture("/tmp/gitsnapfs-reads");
    let dir = commit_dir(&mut f);
    let readme = f.fs.lookup(dir, b"README").unwrap();
    assert_eq!(f.fs.read(readme.inode, 3, 10).unwrap(), Vec::<u8>::new());
    assert_eq!(f.fs.read(readme.inode, 1, 100).unwrap(), b"i\n".to_vec());
    assert_eq!(f.fs.read(readme.inode, 9, 1).unwrap(), Vec::<u8>::new());
    assert_eq!(f.fs.read(INODE_ROOT, 0, 10), Err(FsError::InvalidArgument));
    assert_eq!(f.fs.read(dir, 0, 10), Err(FsError::InvalidArgument));
}

#[test]
fn writes_are_refused_as_read_only() {
    let mut f = fixture("/tmp/gitsnapfs-writes");
    let dir = commit_dir(&mut f);
    let readme = f.fs.lookup(dir, b"README").unwrap().inode;
    assert_eq!(f.fs.create(dir, b"x", 0o644), Err(FsError::ReadOnly));
    assert_eq!(f.fs.mkdir(INODE_COMMITS, b"x", 0o755), Err(FsError::ReadOnly));
    assert_eq!(f.fs.unlink(dir, b"README"), Err(FsError::ReadOnly));
    assert_eq!(f.fs.rmdir(INODE_ROOT, b"tags"), Err(FsError::ReadOnly));
    assert_eq!(f.fs.rename(dir, b"README", dir, b"x"), Err(FsError::ReadOnly));
    assert_eq!(f.fs.link(readme, dir, b"y"), Err(FsError::ReadOnly));
    assert_eq!(f.fs.symlink(dir, b"z", b"README"), Err(FsError::ReadOnly));
    assert_eq!(f.fs.mknod(dir, b"n", 0o644), Err(FsError::ReadOnly));
    assert_eq!(f.fs.write(readme, 0, b"data"), Err(FsError::ReadOnly));
    assert_eq!(f.fs.fallocate(readme, 0, 10), Err(FsError::ReadOnly));
    assert_eq!(f.fs.setattr(readme), Err(FsError::ReadOnly));
    assert_eq!(f.fs.access(readme, 2), Err(FsError::ReadOnly));
    assert_eq!(f.fs.access(readme, 4), Ok(()));
    assert_eq!(f.fs.open(readme, 1), Err(FsError::ReadOnly));
    assert_eq!(f.fs.open(readme, 0), Ok(()));
    assert_eq!(f.fs.open(0x0fff_ffff_ffff_fff0, 0), Err(FsError::BadDescriptor));
}

#[test]
fn commits_directory_cannot_be_listed() {
    let mut f = fixture("/tmp/gitsnapfs-commits-dir");
    assert!(matches!(f.fs.readdir(INODE_COMMITS, 0), Err(FsError::Unsupported)));
    assert_eq!(f.fs.getattr(INODE_COMMITS).unwrap().mode, 0o040755);
    assert!(matches!(f.fs.readdir(INODE_HEAD, 0), Err(FsError::NotDirectory)));
    assert_eq!(f.fs.lookup(INODE_ROOT, b"nothing"), Err(FsError::NotFound));
}

#[test]
fn every_commit_is_listed_once() {
    let f = fixture("/tmp/gitsnapfs-list-commits");
    let commits = f.fs.repo.list_commits().unwrap();
    let hex: Vec<String> = commits
        .iter()
        .map(|c| c.bytes.iter().map(|b| format!("{b:02x}")).collect())
        .collect();
    assert_eq!(hex, vec![f.commit.clone()]);
    let branches = f.fs.repo.list_branches().unwrap();
    let names: Vec<Vec<u8>> = branches.iter().map(|r| r.name.clone()).collect();
    assert_eq!(names, vec![b"feature".to_vec(), b"main".to_vec()]);
    assert_eq!(f.fs.repo.list_tags().unwrap().len(), 1);
    assert!(f.fs.repo.resolve_head().is_ok());
}

#[test]
fn ambiguous_commit_prefixes_fail_with_io_errors() {
    let mut f = fixture("/tmp/gitsnapfs-ambiguous");
    let repo = gix::open("/tmp/gitsnapfs-ambiguous").unwrap();
    let tree = gix::ObjectId::from_hex(
        f.tree.bytes.iter().map(|b| format!("{b:02x}")).collect::<String>().as_bytes(),
    )
    .unwrap();
    let signature = gix::actor::Signature {
        name: "Tester".into(),
        email: "t@example.com".into(),
        time: gix::date::Time { seconds: 1_700_000_000, offset: 0 },
    };
    let mut prefixes: Vec<String> = Vec::new();
    let mut n = 0;
    let shared = loop {
        let commit = gix::objs::Commit {
            tree,
            parents: Default::default(),
            author: signature.clone(),
            committer: signature.clone(),
            encoding: None,
            message: format!("commit {n}").into(),
            extra_headers: Vec::new(),
        };
        let id = repo.write_object(commit).unwrap().detach();
        let prefix = id.to_string()[..2].to_string();
        if prefixes.contains(&prefix) {
            break prefix;
        }
        prefixes.push(prefix);
        n += 1;
    };
    let prefix = shared;
    assert_eq!(f.fs.lookup(INODE_COMMITS, prefix.as_bytes()), Err(FsError::Io));
    assert!(f.fs.lookup(INODE_COMMITS, f.commit.clone().as_bytes()).is_ok());
}

#[test]
fn directories_name_their_parent_and_empty_trees_list_only_dots() {
    let mut f = fixture("/tmp/gitsnapfs-parents");
    let dir = commit_dir(&mut f);
    let listing = f.fs.readdir(dir, 0).unwrap();
    assert_eq!((listing[0].record.ino, listing[1].record.ino), (dir, INODE_COMMITS));
    let repo = gix::open("/tmp/gitsnapfs-parents").unwrap();
    let empty = repo.write_object(gix::objs::Tree::empty()).unwrap().detach();
    let empty_ino = inode_for(&to_oid(empty), NodeKind::Tree);
    assert_eq!(names(&mut f.fs, empty_ino, 0), vec![".", ".."]);
    assert_eq!(names(&mut f.fs, empty_ino, 2), Vec::<String>::new());
}
