//! The inode codec: a deterministic mapping between Git objects and 64-bit inode numbers.
//!
//! An object's inode is the big-endian value of the leading eight bytes of its id, with
//! the top four bits replaced by a tag naming what kind of node the object is. Decoding
//! keeps the low sixty bits and asks the object database which object they belong to.
use vstd::prelude::*;
use crate::oid::{hex_digit, hex_digit_spec, is_hex_digit, Oid};

verus! {

pub const INODE_ROOT: u64 = 1;
pub const INODE_COMMITS: u64 = 2;
pub const INODE_BRANCHES: u64 = 3;
pub const INODE_TAGS: u64 = 4;
pub const INODE_HEAD: u64 = 5;

/// Two to the sixtieth: the weight of the kind tag.
pub const TAG_UNIT: u64 = 0x1000_0000_0000_0000;
/// Two to the fifty-sixth: the weight of the tag of a branch or tag symlink.
pub const SYNTHETIC_UNIT: u64 = 0x0100_0000_0000_0000;
/// The tag in the top bits of the inode of a branch or tag symlink.
pub const SYNTHETIC_TAG: u64 = 7;
/// The tag that stands in for the blob tag when a blob's inode would hit a reserved number.
pub const BLOB_ALIAS_TAG: u64 = 15;

pub const NAMESPACE_BRANCH: u8 = 1;
pub const NAMESPACE_TAG: u8 = 2;

/// The kind of filesystem node a Git object appears as.
#[derive(Clone, Copy, Debug, PartialEq, Eq, Structural)]
pub enum NodeKind {
    Blob,
    Tree,
    Commit,
    Symlink,
    Gitlink,
    Executable,
}

/// The four-bit tag of each kind: 0 blob, 1 tree, 2 commit, 3 symlink blob.
/// Submodule entries take 4, from the reserved range, so that they are recognised
/// without the object database, which does not hold their commits; executable blobs
/// take 5, so that their mode is known from the inode alone.
pub open spec fn kind_tag(k: NodeKind) -> u64 {
    match k {
        NodeKind::Blob => 0,
        NodeKind::Tree => 1,
        NodeKind::Commit => 2,
        NodeKind::Symlink => 3,
        NodeKind::Gitlink => 4,
        NodeKind::Executable => 5,
    }
}

pub fn kind_tag_exec(k: NodeKind) -> (r: u64)
    ensures
        r == kind_tag(k),
{
    match k {
        NodeKind::Blob => 0,
        NodeKind::Tree => 1,
        NodeKind::Commit => 2,
        NodeKind::Symlink => 3,
        NodeKind::Gitlink => 4,
        NodeKind::Executable => 5,
    }
}

/// The big-endian value of the first eight bytes of `b`.
pub open spec fn leading_value(b: Seq<u8>) -> int {
    b[0] * 0x0100_0000_0000_0000 + b[1] * 0x0001_0000_0000_0000 + b[2] * 0x0000_0100_0000_0000
        + b[3] * 0x0000_0001_0000_0000 + b[4] * 0x0000_0000_0100_0000 + b[5] * 0x0000_0000_0001_0000
        + b[6] * 0x0000_0000_0000_0100 + b[7]
}

/// The codec: low sixty bits of the leading value, tagged with the kind. A blob whose
/// inode would be one of the reserved numbers 0..=5 carries the alias tag instead.
pub open spec fn inode_spec(b: Seq<u8>, k: NodeKind) -> u64 {
    let v = leading_value(b) % (TAG_UNIT as int) + kind_tag(k) * TAG_UNIT;
    if v <= 5 {
        (v + BLOB_ALIAS_TAG * TAG_UNIT) as u64
    } else {
        v as u64
    }
}

/// The tag held in the top four bits of an inode.
pub open spec fn inode_tag(ino: u64) -> u64 {
    ino / TAG_UNIT
}

/// The low sixty bits of an inode, which hold the object id's bits.
pub open spec fn inode_low(ino: u64) -> u64 {
    ino % TAG_UNIT
}

/// The kind that an inode's tag suggests, if it names one.
pub open spec fn tag_kind(ino: u64) -> Option<NodeKind> {
    let t = inode_tag(ino);
    if t == 0 || t == BLOB_ALIAS_TAG {
        Some(NodeKind::Blob)
    } else if t == 1 {
        Some(NodeKind::Tree)
    } else if t == 2 {
        Some(NodeKind::Commit)
    } else if t == 3 {
        Some(NodeKind::Symlink)
    } else if t == 4 {
        Some(NodeKind::Gitlink)
    } else if t == 5 {
        Some(NodeKind::Executable)
    } else {
        None
    }
}

pub fn tag_kind_exec(ino: u64) -> (r: Option<NodeKind>)
    ensures
        r == tag_kind(ino),
{
    let t = ino / TAG_UNIT;
    if t == 0 || t == BLOB_ALIAS_TAG {
        Some(NodeKind::Blob)
    } else if t == 1 {
        Some(NodeKind::Tree)
    } else if t == 2 {
        Some(NodeKind::Commit)
    } else if t == 3 {
        Some(NodeKind::Symlink)
    } else if t == 4 {
        Some(NodeKind::Gitlink)
    } else if t == 5 {
        Some(NodeKind::Executable)
    } else {
        None
    }
}

/// The codec never yields a reserved inode, and its tag names the kind it was given.
pub proof fn lemma_inode_spec(b: Seq<u8>, k: NodeKind)
    requires
        b.len() >= 8,
    ensures
        inode_spec(b, k) > INODE_HEAD,
        tag_kind(inode_spec(b, k)) == Some(k),
        inode_low(inode_spec(b, k)) as int == leading_value(b) % (TAG_UNIT as int),
{
}

/// The big-endian value of the leading eight bytes of the id.
fn leading_u64(oid: &Oid) -> (r: u64)
    requires
        oid.wf(),
    ensures
        r as int == leading_value(oid@),
{
    let b = &oid.bytes;
    (b[0] as u64) * 0x0100_0000_0000_0000 + (b[1] as u64) * 0x0001_0000_0000_0000 + (b[2] as u64)
        * 0x0000_0100_0000_0000 + (b[3] as u64) * 0x0000_0001_0000_0000 + (b[4] as u64)
        * 0x0000_0000_0100_0000 + (b[5] as u64) * 0x0000_0000_0001_0000 + (b[6] as u64)
        * 0x0000_0000_0000_0100 + (b[7] as u64)
}

/// The inode of the object `oid` appearing as a node of kind `kind`.
pub fn inode_for(oid: &Oid, kind: NodeKind) -> (r: u64)
    requires
        oid.wf(),
    ensures
        r == inode_spec(oid@, kind),
        r > INODE_HEAD,
        tag_kind(r) == Some(kind),
        inode_low(r) as int == leading_value(oid@) % (TAG_UNIT as int),
{
    let v = leading_u64(oid) % TAG_UNIT + kind_tag_exec(kind) * TAG_UNIT;
    if v <= 5 {
        v + BLOB_ALIAS_TAG * TAG_UNIT
    } else {
        v
    }
}

/// The inode of an object read as a blob: the codec with the blob tag, 0, in the
/// top four bits, so the low sixty bits of the leading eight bytes; never a reserved
/// inode.
pub fn inode_from_oid(oid: &Oid) -> (r: u64)
    requires
        oid.wf(),
    ensures
        r == inode_spec(oid@, NodeKind::Blob),
        r > INODE_HEAD,
        inode_low(r) as int == leading_value(oid@) % (TAG_UNIT as int),
{
    inode_for(oid, NodeKind::Blob)
}

/// The `n` lowest hexadecimal digits of `x`, most significant first.
pub open spec fn hex_fixed(x: nat, n: nat) -> Seq<u8>
    decreases n,
{
    if n == 0 {
        Seq::empty()
    } else {
        hex_fixed(x / 16, (n - 1) as nat).push(hex_digit_spec((x % 16) as u8))
    }
}

pub proof fn lemma_hex_fixed_digits(x: nat, n: nat)
    ensures
        hex_fixed(x, n).len() == n,
        forall|i: int| 0 <= i < n ==> is_hex_digit(#[trigger] hex_fixed(x, n)[i]),
    decreases n,
{
    if n > 0 {
        lemma_hex_fixed_digits(x / 16, (n - 1) as nat);
    }
}

fn hex_fixed_exec(x: u64, n: usize) -> (r: Vec<u8>)
    ensures
        r@ == hex_fixed(x as nat, n as nat),
    decreases n,
{
    if n == 0 {
        Vec::new()
    } else {
        let mut r = hex_fixed_exec(x / 16, n - 1);
        r.push(hex_digit((x % 16) as u8));
        r
    }
}

/// An inode rendered as sixteen lowercase hex digits.
pub open spec fn inode_hex(ino: u64) -> Seq<u8> {
    hex_fixed(ino as nat, 16)
}

/// The sixteen hex digits of an inode, as bytes.
pub fn inode_hex_bytes(ino: u64) -> (r: Vec<u8>)
    ensures
        r@ == inode_hex(ino),
        r@.len() == 16,
        forall|i: int| 0 <= i < 16 ==> is_hex_digit(#[trigger] r@[i]),
{
    proof {
        lemma_hex_fixed_digits(ino as nat, 16);
    }
    hex_fixed_exec(ino, 16)
}

/// What an ASCII byte string reads as, character by character.
pub open spec fn ascii_chars(s: Seq<u8>) -> Seq<char> {
    s.map_values(|b: u8| b as char)
}

/// Relies on `String::from_utf8`: bytes below 128 are valid UTF-8, one character each.
#[verifier::external_body]
fn ascii_string(bytes: Vec<u8>) -> (r: String)
    requires
        forall|i: int| 0 <= i < bytes@.len() ==> bytes@[i] < 128,
    ensures
        r@ == ascii_chars(bytes@),
{
    String::from_utf8(bytes).unwrap_or_default()
}

/// Render the inode as a sixteen-digit hexadecimal string.
pub fn inode_to_hex_prefix(ino: u64) -> (r: String)
    ensures
        r@ == ascii_chars(inode_hex(ino)),
{
    let bytes = inode_hex_bytes(ino);
    ascii_string(bytes)
}

/// The sixteen prefixes that an inode's object id may start with: the low sixty bits
/// are known and the id's first hex digit, which the tag replaced, may be any.
pub open spec fn decode_candidates(ino: u64) -> Seq<Seq<u8>> {
    Seq::new(16, |c: int| inode_hex((c * TAG_UNIT + inode_low(ino)) as u64))
}

pub fn decode_candidate_prefixes(ino: u64) -> (r: Vec<Vec<u8>>)
    ensures
        r@.len() == 16,
        forall|c: int| 0 <= c < 16 ==> (#[trigger] r@[c])@ == decode_candidates(ino)[c],
{
    let low = ino % TAG_UNIT;
    let mut r: Vec<Vec<u8>> = Vec::new();
    let mut c: u64 = 0;
    while c < 16
        invariant
            c <= 16,
            low == inode_low(ino),
            r@.len() == c,
            forall|j: int| 0 <= j < c ==> (#[trigger] r@[j])@ == decode_candidates(ino)[j],
        decreases 16 - c,
    {
        r.push(inode_hex_bytes(c * TAG_UNIT + low));
        c = c + 1;
    }
    r
}

/// FNV-1a, 64-bit: the offset basis.
pub const FNV_OFFSET: u64 = 0xcbf2_9ce4_8422_2325;
/// FNV-1a, 64-bit: the prime.
pub const FNV_PRIME: u64 = 0x0000_0100_0000_01b3;

/// The 64-bit FNV-1a hash of `s`.
pub open spec fn fnv1a(s: Seq<u8>) -> u64
    decreases s.len(),
{
    if s.len() == 0 {
        FNV_OFFSET
    } else {
        vstd::wrapping::u64_specs::wrapping_mul(
            fnv1a(s.drop_last()) ^ (s.last() as u64),
            FNV_PRIME,
        )
    }
}

fn fnv1a_exec(s: &[u8]) -> (r: u64)
    ensures
        r == fnv1a(s@),
{
    let mut h: u64 = FNV_OFFSET;
    let mut i: usize = 0;
    while i < s.len()
        invariant
            i <= s@.len(),
            h == fnv1a(s@.subrange(0, i as int)),
        decreases s@.len() - i,
    {
        assert(s@.subrange(0, i + 1).drop_last() =~= s@.subrange(0, i as int));
        h = (h ^ (s[i] as u64)).wrapping_mul(FNV_PRIME);
        i = i + 1;
    }
    assert(s@.subrange(0, i as int) =~= s@);
    h
}

/// The inode of the symlink for ref `name` in namespace `ns` (branches or tags): the
/// synthetic tag above the low fifty-six bits of the hash of the namespace and the name.
pub open spec fn synthetic_inode_spec(ns: u8, name: Seq<u8>) -> u64 {
    (SYNTHETIC_TAG * SYNTHETIC_UNIT + fnv1a(seq![ns] + name) % SYNTHETIC_UNIT) as u64
}

pub fn synthetic_inode(namespace: u8, name: &[u8]) -> (r: u64)
    ensures
        r == synthetic_inode_spec(namespace, name@),
        r > INODE_HEAD,
{
    let mut keyed: Vec<u8> = Vec::new();
    keyed.push(namespace);
    let mut i: usize = 0;
    while i < name.len()
        invariant
            i <= name@.len(),
            keyed@ =~= seq![namespace] + name@.subrange(0, i as int),
        decreases name@.len() - i,
    {
        keyed.push(name[i]);
        i = i + 1;
    }
    assert(name@.subrange(0, i as int) =~= name@);
    let h = fnv1a_exec(keyed.as_slice());
    SYNTHETIC_TAG * SYNTHETIC_UNIT + h % SYNTHETIC_UNIT
}

} // verus!
