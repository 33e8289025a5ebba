//! Kernel-visible attribute records for directories, files and symbolic links.
use vstd::prelude::*;

verus! {

pub const S_IFDIR: u32 = 0o040000;
pub const S_IFREG: u32 = 0o100000;
pub const S_IFLNK: u32 = 0o120000;

pub const DIRECTORY_MODE: u32 = 0o040755;
pub const SYMLINK_MODE: u32 = 0o120777;
pub const FILE_MODE: u32 = 0o100444;
pub const EXECUTABLE_MODE: u32 = 0o100555;
pub const BLOCK_SIZE: u32 = 4096;

pub const I64_MAX: u64 = 0x7fff_ffff_ffff_ffff;

/// A point in time as its distance from the Unix epoch: whole seconds and the
/// sub-second nanoseconds, on either side of the epoch.
#[derive(Clone, Copy, Debug, PartialEq, Eq, Structural)]
pub struct EpochOffset {
    pub before_epoch: bool,
    pub secs: u64,
    pub subsec_nanos: u32,
}

/// Seconds and nanoseconds of a timestamp as attribute records carry them.
#[derive(Clone, Copy, Debug, PartialEq, Eq, Structural)]
pub struct UnixTime {
    pub secs: i64,
    pub nanos: i64,
}

pub open spec fn saturating_i64_spec(value: u64) -> i64 {
    if value <= I64_MAX {
        value as i64
    } else {
        I64_MAX as i64
    }
}

/// The value as a signed 64-bit integer, saturating at its maximum.
pub fn saturating_i64_from_u64(value: u64) -> (r: i64)
    ensures
        r == saturating_i64_spec(value),
{
    if value <= I64_MAX {
        value as i64
    } else {
        I64_MAX as i64
    }
}

pub open spec fn unix_parts_spec(t: EpochOffset) -> (i64, i64) {
    if t.before_epoch {
        ((-saturating_i64_spec(t.secs)) as i64, t.subsec_nanos as i64)
    } else {
        (saturating_i64_spec(t.secs), t.subsec_nanos as i64)
    }
}

/// Split a time into signed seconds and nanoseconds. Before the epoch the seconds
/// are negative and the nanoseconds are the positive sub-second offset.
pub fn time_to_unix_parts(time: EpochOffset) -> (r: (i64, i64))
    ensures
        r == unix_parts_spec(time),
{
    let secs = saturating_i64_from_u64(time.secs);
    if time.before_epoch {
        (-secs, time.subsec_nanos as i64)
    } else {
        (secs, time.subsec_nanos as i64)
    }
}

pub fn unix_time(time: EpochOffset) -> (r: UnixTime)
    ensures
        (r.secs, r.nanos) == unix_parts_spec(time),
{
    let (secs, nanos) = time_to_unix_parts(time);
    UnixTime { secs, nanos }
}

/// An attribute record, field for field as the kernel receives it.
#[derive(Clone, Copy, Debug, PartialEq, Eq, Structural)]
pub struct Attr {
    pub ino: u64,
    pub size: u64,
    pub blocks: u64,
    pub atime: u64,
    pub mtime: u64,
    pub ctime: u64,
    pub atimensec: u32,
    pub mtimensec: u32,
    pub ctimensec: u32,
    pub mode: u32,
    pub nlink: u32,
    pub uid: u32,
    pub gid: u32,
    pub rdev: u32,
    pub blksize: u32,
    pub flags: u32,
}

/// Seconds as the kernel's unsigned field holds them: a time before the epoch reads as zero.
pub open spec fn clamp_secs(secs: i64) -> u64 {
    if secs < 0 {
        0
    } else {
        secs as u64
    }
}

/// Nanoseconds as the kernel's 32-bit field holds them, zero where they do not fit.
pub open spec fn clamp_nanos(nanos: i64) -> u32 {
    if 0 <= nanos && nanos <= 0xffff_ffff {
        nanos as u32
    } else {
        0
    }
}

/// What every attribute record holds: the given inode, mode and link count, the size
/// (never above the largest signed 64-bit value), all three times equal, uid and gid
/// zero, a 4096-byte block size and no stored blocks.
pub open spec fn attr_spec(a: Attr, inode: u64, mode: u32, nlink: u32, size: i64, time: UnixTime) -> bool {
    &&& a.ino == inode
    &&& a.mode == mode
    &&& a.nlink == nlink
    &&& a.size == (if size < 0 { 0 } else { size as u64 })
    &&& a.blocks == 0
    &&& a.atime == clamp_secs(time.secs)
    &&& a.mtime == a.atime
    &&& a.ctime == a.atime
    &&& a.atimensec == clamp_nanos(time.nanos)
    &&& a.mtimensec == a.atimensec
    &&& a.ctimensec == a.atimensec
    &&& a.uid == 0
    &&& a.gid == 0
    &&& a.rdev == 0
    &&& a.blksize == BLOCK_SIZE
    &&& a.flags == 0
}

pub fn build_attr(inode: u64, mode: u32, nlink: u32, size: i64, time: UnixTime) -> (r: Attr)
    ensures
        attr_spec(r, inode, mode, nlink, size, time),
{
    let secs: u64 = if time.secs < 0 {
        0
    } else {
        time.secs as u64
    };
    let nanos: u32 = if 0 <= time.nanos && time.nanos <= 0xffff_ffff {
        time.nanos as u32
    } else {
        0
    };
    Attr {
        ino: inode,
        size: if size < 0 {
            0
        } else {
            size as u64
        },
        blocks: 0,
        atime: secs,
        mtime: secs,
        ctime: secs,
        atimensec: nanos,
        mtimensec: nanos,
        ctimensec: nanos,
        mode,
        nlink,
        uid: 0,
        gid: 0,
        rdev: 0,
        blksize: BLOCK_SIZE,
        flags: 0,
    }
}

/// A directory: two links and size zero.
pub fn build_dir_attr(inode: u64, mode: u32, time: UnixTime) -> (r: Attr)
    ensures
        attr_spec(r, inode, mode, 2, 0, time),
{
    build_attr(inode, mode, 2, 0, time)
}

/// A regular file of `size` bytes: one link.
pub fn build_file_attr(inode: u64, mode: u32, size: u64, time: UnixTime) -> (r: Attr)
    ensures
        attr_spec(r, inode, mode, 1, saturating_i64_spec(size), time),
        r.size == (if size <= I64_MAX { size } else { I64_MAX }),
{
    build_attr(inode, mode, 1, saturating_i64_from_u64(size), time)
}

/// A symbolic link whose target is `size` bytes long: one link.
pub fn build_symlink_attr(inode: u64, mode: u32, time: UnixTime, size: u64) -> (r: Attr)
    ensures
        attr_spec(r, inode, mode, 1, saturating_i64_spec(size), time),
        r.size == (if size <= I64_MAX { size } else { I64_MAX }),
{
    build_attr(inode, mode, 1, saturating_i64_from_u64(size), time)
}

} // verus!
