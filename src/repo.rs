//! The object-database façade: resolves prefixes, HEAD and refs, and reads commits,
//! trees and blobs through gix.
use vstd::prelude::*;
use gix::objs::tree::EntryKind as GitEntryKind;
use itertools::Itertools;
use crate::inode::{decode_candidate_prefixes, decode_candidates, inode_low, TAG_UNIT};
use crate::oid::{hex_of, is_hex_digit, Oid};
use crate::order::{compare_bytes, lemma_lex_lt_le_transitive, lex_le, lex_lt};

verus! {

#[verifier::external_type_specification]
#[verifier::external_body]
pub struct ExThreadSafeRepository(gix::ThreadSafeRepository);

#[verifier::external_type_specification]
#[verifier::external_body]
pub struct ExPathBuf(std::path::PathBuf);

/// The kind of an object in the database.
#[derive(Clone, Copy, Debug, PartialEq, Eq, Structural)]
pub enum ObjectKind {
    Commit,
    Tree,
    Blob,
    Tag,
}

/// The kind of a tree entry, as its mode gives it.
#[derive(Clone, Copy, Debug, PartialEq, Eq, Structural)]
pub enum EntryKind {
    Tree,
    Blob,
    BlobExecutable,
    Link,
    Commit,
}

/// One entry of a tree: its name, the kind its mode gives, and the object it names.
#[derive(Debug)]
pub struct TreeEntry {
    pub name: Vec<u8>,
    pub kind: EntryKind,
    pub oid: Oid,
}

/// A branch or tag: its short name and the object it peels to.
#[derive(Debug)]
pub struct RefEntry {
    pub name: Vec<u8>,
    pub target: Oid,
}

#[derive(Clone, Copy, Debug, PartialEq, Eq, Structural)]
pub enum RepoError {
    /// No object or ref matches.
    NotFound,
    /// More than one object matches a hex prefix.
    Ambiguous,
    /// The object is not of the kind asked for.
    WrongKind,
    /// HEAD has no target commit.
    UnbornHead,
    /// The object database could not be read.
    Backend,
}

/// What a hex-prefix lookup found.
#[derive(Debug)]
pub enum PrefixLookup {
    Unique(Oid),
    Ambiguous,
    Missing,
}

/// `id`'s hex form starts with `hex`.
pub open spec fn has_hex_prefix(id: Seq<u8>, hex: Seq<u8>) -> bool {
    hex.len() <= hex_of(id).len() && hex_of(id).subrange(0, hex.len() as int) == hex
}

/// A name that can be looked up as a prefix: two to forty lowercase hex digits. A
/// prefix names at least one whole byte, the least for which the object database
/// searches every object that could match.
pub open spec fn valid_hex_prefix(hex: Seq<u8>) -> bool {
    2 <= hex.len() <= 40 && forall|i: int| 0 <= i < hex.len() ==> is_hex_digit(#[trigger] hex[i])
}

pub fn is_valid_hex_prefix(hex: &[u8]) -> (r: bool)
    ensures
        r == valid_hex_prefix(hex@),
{
    if hex.len() < 2 || hex.len() > 40 {
        return false;
    }
    let mut i: usize = 0;
    while i < hex.len()
        invariant
            i <= hex@.len(),
            forall|j: int| 0 <= j < i ==> is_hex_digit(#[trigger] hex@[j]),
        decreases hex@.len() - i,
    {
        let c = hex[i];
        if !((48 <= c && c <= 57) || (97 <= c && c <= 102)) {
            return false;
        }
        i = i + 1;
    }
    true
}

/// The outcome of a prefix lookup as a result: the unique id, or why there is none.
pub open spec fn prefix_result_spec(l: PrefixLookup) -> Result<Oid, RepoError> {
    match l {
        PrefixLookup::Unique(id) => Ok(id),
        PrefixLookup::Ambiguous => Err(RepoError::Ambiguous),
        PrefixLookup::Missing => Err(RepoError::NotFound),
    }
}

pub fn prefix_result(l: PrefixLookup) -> (r: Result<Oid, RepoError>)
    ensures
        r == prefix_result_spec(l),
{
    match l {
        PrefixLookup::Unique(id) => Ok(id),
        PrefixLookup::Ambiguous => Err(RepoError::Ambiguous),
        PrefixLookup::Missing => Err(RepoError::NotFound),
    }
}

/// What HEAD's target gives: the id it peels to, or `UnbornHead` where it has none.
pub fn head_commit_result(target: Option<Oid>) -> (r: Result<Oid, RepoError>)
    ensures
        target is None ==> r == Err::<Oid, RepoError>(RepoError::UnbornHead),
        target matches Some(id) ==> r == Ok::<Oid, RepoError>(id),
{
    match target {
        Some(id) => Ok(id),
        None => Err(RepoError::UnbornHead),
    }
}

/// Only a commit will do: any other kind of object is `WrongKind`.
pub fn expect_commit(kind: ObjectKind) -> (r: Result<(), RepoError>)
    ensures
        r == (if kind == ObjectKind::Commit {
            Ok::<(), RepoError>(())
        } else {
            Err::<(), RepoError>(RepoError::WrongKind)
        }),
{
    if kind == ObjectKind::Commit {
        Ok(())
    } else {
        Err(RepoError::WrongKind)
    }
}

/// The number of lookups among `ls` that found exactly one object.
pub open spec fn count_unique(ls: Seq<PrefixLookup>) -> nat
    decreases ls.len(),
{
    if ls.len() == 0 {
        0
    } else {
        count_unique(ls.drop_last()) + if ls.last() is Unique {
            1nat
        } else {
            0nat
        }
    }
}

/// Some lookup among `ls` was ambiguous.
pub open spec fn any_ambiguous(ls: Seq<PrefixLookup>) -> bool {
    exists|i: int| 0 <= i < ls.len() && #[trigger] ls[i] is Ambiguous
}

/// What decoding an inode yields from the lookups of its candidate prefixes: the one
/// object found, an ambiguity where a lookup was ambiguous or two found objects, and
/// nothing where none was found.
pub open spec fn combine_decoded_spec(ls: Seq<PrefixLookup>) -> Result<Oid, RepoError> {
    if any_ambiguous(ls) || count_unique(ls) > 1 {
        Err(RepoError::Ambiguous)
    } else if count_unique(ls) == 0 {
        Err(RepoError::NotFound)
    } else {
        let i = choose|i: int| 0 <= i < ls.len() && #[trigger] ls[i] is Unique;
        Ok(ls[i]->Unique_0)
    }
}

proof fn lemma_count_unique_zero(ls: Seq<PrefixLookup>, i: int)
    requires
        0 <= i < ls.len(),
        ls[i] is Unique,
    ensures
        count_unique(ls) >= 1,
    decreases ls.len(),
{
    if i < ls.len() - 1 {
        lemma_count_unique_zero(ls.drop_last(), i);
    }
}

proof fn lemma_count_unique_exists(ls: Seq<PrefixLookup>)
    requires
        count_unique(ls) > 0,
    ensures
        exists|i: int| 0 <= i < ls.len() && #[trigger] ls[i] is Unique,
    decreases ls.len(),
{
    if !(ls.last() is Unique) {
        lemma_count_unique_exists(ls.drop_last());
        let i = choose|i: int| 0 <= i < ls.drop_last().len() && #[trigger] ls.drop_last()[i] is Unique;
        assert(ls[i] is Unique);
    } else {
        assert(ls[ls.len() - 1] is Unique);
    }
}

proof fn lemma_count_unique_one(ls: Seq<PrefixLookup>, i: int, k: int)
    requires
        0 <= i < ls.len(),
        0 <= k < ls.len(),
        ls[i] is Unique,
        ls[k] is Unique,
        count_unique(ls) == 1,
    ensures
        i == k,
    decreases ls.len(),
{
    let n = ls.len() - 1;
    if i < n && k < n {
        if ls.last() is Unique {
            lemma_count_unique_zero(ls.drop_last(), i);
        } else {
            lemma_count_unique_one(ls.drop_last(), i, k);
        }
    } else if i < n {
        lemma_count_unique_zero(ls.drop_last(), i);
    } else if k < n {
        lemma_count_unique_zero(ls.drop_last(), k);
    }
}

/// A result carrying an id, seen through the id's bytes.
pub open spec fn oid_result_view(r: Result<Oid, RepoError>) -> Result<Seq<u8>, RepoError> {
    match r {
        Ok(id) => Ok(id@),
        Err(e) => Err(e),
    }
}

pub fn combine_decoded(ls: Vec<PrefixLookup>) -> (r: Result<Oid, RepoError>)
    ensures
        oid_result_view(r) == oid_result_view(combine_decoded_spec(ls@)),
{
    let mut found: Option<Oid> = None;
    let mut found_at: usize = 0;
    let mut count: usize = 0;
    let mut ambiguous = false;
    let mut i: usize = 0;
    while i < ls.len()
        invariant
            i <= ls@.len(),
            count == count_unique(ls@.subrange(0, i as int)),
            count <= i,
            ambiguous == any_ambiguous(ls@.subrange(0, i as int)),
            count == 0 <==> found.is_none(),
            found.is_some() ==> found_at < i && ls@[found_at as int] is Unique && ls@[found_at as int]->Unique_0@
                == found.unwrap()@,
        decreases ls@.len() - i,
    {
        assert(ls@.subrange(0, i + 1).drop_last() =~= ls@.subrange(0, i as int));
        match &ls[i] {
            PrefixLookup::Unique(id) => {
                if count == 0 {
                    found = Some(id.clone_oid());
                    found_at = i;
                }
                count = count + 1;
            },
            PrefixLookup::Ambiguous => {
                ambiguous = true;
                assert(ls@.subrange(0, i + 1)[i as int] is Ambiguous);
            },
            PrefixLookup::Missing => {},
        }
        i = i + 1;
        if !ambiguous {
            assert forall|j: int| 0 <= j < i implies !(#[trigger] ls@.subrange(0, i as int)[j] is Ambiguous) by {
                if j < i - 1 {
                    assert(ls@.subrange(0, i as int)[j] == ls@.subrange(0, i - 1)[j]);
                }
            }
        }
    }
    assert(ls@.subrange(0, i as int) =~= ls@);
    if ambiguous || count > 1 {
        Err(RepoError::Ambiguous)
    } else if count == 0 {
        proof {
            if exists|j: int| 0 <= j < ls@.len() && #[trigger] ls@[j] is Unique {
                let j = choose|j: int| 0 <= j < ls@.len() && #[trigger] ls@[j] is Unique;
                lemma_count_unique_zero(ls@, j);
            }
        }
        Err(RepoError::NotFound)
    } else {
        let id = found.unwrap();
        proof {
            let j = choose|j: int| 0 <= j < ls@.len() && #[trigger] ls@[j] is Unique;
            lemma_count_unique_one(ls@, j, found_at as int);
        }
        Ok(id)
    }
}

/// `name` with `prefix` taken off its front, where it starts with it.
pub open spec fn strip_prefix_spec(name: Seq<u8>, prefix: Seq<u8>) -> Seq<u8> {
    if prefix.len() <= name.len() && name.subrange(0, prefix.len() as int) == prefix {
        name.subrange(prefix.len() as int, name.len() as int)
    } else {
        name
    }
}

pub fn strip_prefix(name: &[u8], prefix: &[u8]) -> (r: Vec<u8>)
    ensures
        r@ == strip_prefix_spec(name@, prefix@),
{
    let mut starts = prefix.len() <= name.len();
    let mut i: usize = 0;
    while starts && i < prefix.len()
        invariant
            i <= prefix@.len(),
            starts ==> prefix@.len() <= name@.len() && forall|j: int|
                0 <= j < i ==> name@[j] == prefix@[j],
            !starts ==> !(prefix@.len() <= name@.len() && name@.subrange(0, prefix@.len() as int)
                == prefix@),
        decreases prefix@.len() - i + (if starts { 1int } else { 0int }),
    {
        if name[i] != prefix[i] {
            assert(name@.subrange(0, prefix@.len() as int)[i as int] != prefix@[i as int]);
            starts = false;
        } else {
            i = i + 1;
        }
    }
    let start: usize = if starts {
        assert(name@.subrange(0, prefix@.len() as int) =~= prefix@);
        prefix.len()
    } else {
        0
    };
    let mut r: Vec<u8> = Vec::new();
    let mut k: usize = start;
    while k < name.len()
        invariant
            start <= k <= name@.len(),
            r@ =~= name@.subrange(start as int, k as int),
        decreases name@.len() - k,
    {
        r.push(name[k]);
        k = k + 1;
    }
    assert(name@.subrange(0, name@.len() as int) =~= name@);
    r
}

/// The refs named by their short names, in the order given.
pub open spec fn short_refs_spec(refs: Seq<(Vec<u8>, Oid)>, prefix: Seq<u8>) -> Seq<(Seq<u8>, Seq<u8>)> {
    refs.map_values(|r: (Vec<u8>, Oid)| (strip_prefix_spec(r.0@, prefix), r.1@))
}

/// The view of a list of refs: (short name, target id) pairs.
pub open spec fn refs_view(refs: Seq<RefEntry>) -> Seq<(Seq<u8>, Seq<u8>)> {
    refs.map_values(|r: RefEntry| (r.name@, r.target@))
}

/// Names in non-decreasing lexicographic order.
pub open spec fn sorted_by_name(s: Seq<(Seq<u8>, Seq<u8>)>) -> bool {
    forall|i: int, j: int| 0 <= i < j < s.len() ==> lex_le(#[trigger] s[i].0, #[trigger] s[j].0)
}

pub open spec fn ref_view(r: RefEntry) -> (Seq<u8>, Seq<u8>) {
    (r.name@, r.target@)
}

pub fn clone_ref(r: &RefEntry) -> (c: RefEntry)
    ensures
        ref_view(c) == ref_view(*r),
        c.target.wf() == r.target.wf(),
{
    RefEntry { name: r.name.clone(), target: r.target.clone_oid() }
}

/// Sort refs by name: the result holds the same refs, ordered by name.
pub fn sort_refs(refs: Vec<RefEntry>) -> (r: Vec<RefEntry>)
    ensures
        sorted_by_name(refs_view(r@)),
        refs_view(r@).to_multiset() == refs_view(refs@).to_multiset(),
        r@.len() == refs@.len(),
        (forall|i: int| 0 <= i < refs@.len() ==> (#[trigger] refs@[i]).target.wf()) ==> (forall|
            i: int,
        | 0 <= i < r@.len() ==> (#[trigger] r@[i]).target.wf()),
{
    broadcast use vstd::seq_lib::group_to_multiset_ensures;

    let ghost all_wf = forall|i: int| 0 <= i < refs@.len() ==> (#[trigger] refs@[i]).target.wf();
    let mut out: Vec<RefEntry> = Vec::new();
    let mut i: usize = 0;
    while i < refs.len()
        invariant
            i <= refs@.len(),
            out@.len() == i,
            sorted_by_name(refs_view(out@)),
            refs_view(out@).to_multiset() == refs_view(refs@.subrange(0, i as int)).to_multiset(),
            all_wf == forall|k: int| 0 <= k < refs@.len() ==> (#[trigger] refs@[k]).target.wf(),
            all_wf ==> forall|k: int| 0 <= k < out@.len() ==> (#[trigger] out@[k]).target.wf(),
        decreases refs@.len() - i,
    {
        let item = clone_ref(&refs[i]);
        let mut p: usize = 0;
        let mut placed = false;
        while p < out.len() && !placed
            invariant
                p <= out@.len(),
                forall|k: int| 0 <= k < p ==> lex_le(#[trigger] out@[k].name@, item.name@),
                placed ==> p < out@.len() && lex_lt(item.name@, out@[p as int].name@),
            decreases out@.len() - p + (if placed { 0int } else { 1int }),
        {
            if compare_bytes(item.name.as_slice(), out[p].name.as_slice()) < 0 {
                placed = true;
            } else {
                p = p + 1;
            }
        }
        let ghost old_out = out@;
        proof {
            if placed {
                assert forall|j: int| p <= j < old_out.len() implies lex_lt(
                    item.name@,
                    #[trigger] old_out[j].name@,
                ) by {
                    if j > p {
                        assert(lex_le(old_out[p as int].name@, old_out[j].name@)) by {
                            assert(refs_view(old_out)[p as int].0 == old_out[p as int].name@);
                            assert(refs_view(old_out)[j].0 == old_out[j].name@);
                        }
                        lemma_lex_lt_le_transitive(
                            item.name@,
                            old_out[p as int].name@,
                            old_out[j].name@,
                        );
                    }
                }
            }
        }
        out.insert(p, item);
        proof {
            let v = refs_view(out@);
            assert(v =~= refs_view(old_out).insert(p as int, ref_view(refs@[i as int])));
            assert forall|a: int, b: int| 0 <= a < b < v.len() implies lex_le(
                #[trigger] v[a].0,
                #[trigger] v[b].0,
            ) by {
                let ov = refs_view(old_out);
                if b < p {
                    assert(v[a] == ov[a] && v[b] == ov[b]);
                } else if a > p {
                    assert(v[a] == ov[a - 1] && v[b] == ov[b - 1]);
                } else if a == p {
                    assert(v[b] == ov[b - 1]);
                    assert(lex_lt(item.name@, old_out[b - 1].name@));
                } else {
                    assert(v[a] == ov[a]);
                    if b == p {
                        assert(lex_le(old_out[a].name@, item.name@));
                    } else {
                        assert(v[b] == ov[b - 1]);
                    }
                }
            }
            assert(refs@.subrange(0, i + 1) =~= refs@.subrange(0, i as int).push(refs@[i as int]));
            assert(refs_view(refs@.subrange(0, i + 1)) =~= refs_view(refs@.subrange(0, i as int)).push(
                ref_view(refs@[i as int]),
            ));
            vstd::seq_lib::to_multiset_insert(refs_view(old_out), p as int, ref_view(refs@[i as int]));
            vstd::seq_lib::to_multiset_build(
                refs_view(refs@.subrange(0, i as int)),
                ref_view(refs@[i as int]),
            );
            if all_wf {
                assert(refs@[i as int].target.wf());
                assert forall|k: int| 0 <= k < out@.len() implies (#[trigger] out@[k]).target.wf() by {
                    if k < p {
                        assert(out@[k] == old_out[k]);
                    } else if k > p {
                        assert(out@[k] == old_out[k - 1]);
                    }
                }
            }
        }
        i = i + 1;
    }
    assert(refs@.subrange(0, i as int) =~= refs@);
    out
}

/// Relies on itertools' `unique`: the first of each set of equal items, in their order.
#[verifier::external_body]
fn unique_ids(ids: Vec<Oid>) -> (r: Vec<Oid>)
    ensures
        oids_view(r@) == unique_spec(oids_view(ids@)),
{
    ids.into_iter().map(|id| id.bytes).unique().map(|bytes| Oid { bytes }).collect()
}

/// `refs/heads/`, under which branches are stored.
pub open spec fn branch_prefix_spec() -> Seq<u8> {
    seq![114u8, 101, 102, 115, 47, 104, 101, 97, 100, 115, 47]
}

/// `refs/tags/`, under which tags are stored.
pub open spec fn tag_prefix_spec() -> Seq<u8> {
    seq![114u8, 101, 102, 115, 47, 116, 97, 103, 115, 47]
}

pub fn branch_prefix() -> (r: Vec<u8>)
    ensures
        r@ == branch_prefix_spec(),
{
    let r: Vec<u8> = vec![114u8, 101, 102, 115, 47, 104, 101, 97, 100, 115, 47];
    assert(r@ =~= branch_prefix_spec());
    r
}

pub fn tag_prefix() -> (r: Vec<u8>)
    ensures
        r@ == tag_prefix_spec(),
{
    let r: Vec<u8> = vec![114u8, 101, 102, 115, 47, 116, 97, 103, 115, 47];
    assert(r@ =~= tag_prefix_spec());
    r
}

/// The refs of a namespace: short names and targets, sorted by name.
pub open spec fn collected_refs_spec(r: Seq<RefEntry>, raw: Seq<(Vec<u8>, Oid)>, prefix: Seq<u8>) -> bool {
    &&& sorted_by_name(refs_view(r))
    &&& refs_view(r).to_multiset() == short_refs_spec(raw, prefix).to_multiset()
    &&& r.len() == raw.len()
}

/// Name each ref by its short name (the namespace prefix taken off) and sort them by it.
pub fn collect_refs(raw: Vec<(Vec<u8>, Oid)>, prefix: &[u8]) -> (r: Vec<RefEntry>)
    ensures
        collected_refs_spec(r@, raw@, prefix@),
        (forall|i: int| 0 <= i < raw@.len() ==> (#[trigger] raw@[i]).1.wf()) ==> (forall|i: int|
            0 <= i < r@.len() ==> (#[trigger] r@[i]).target.wf()),
{
    let mut named: Vec<RefEntry> = Vec::new();
    let mut i: usize = 0;
    while i < raw.len()
        invariant
            i <= raw@.len(),
            refs_view(named@) =~= short_refs_spec(raw@.subrange(0, i as int), prefix@),
            named@.len() == i,
            forall|k: int| 0 <= k < i ==> (#[trigger] named@[k]).target.wf() == raw@[k].1.wf(),
        decreases raw@.len() - i,
    {
        let name = strip_prefix(raw[i].0.as_slice(), prefix);
        let target = raw[i].1.clone_oid();
        let ghost before = named@;
        named.push(RefEntry { name, target });
        proof {
            let a = refs_view(named@);
            let b = short_refs_spec(raw@.subrange(0, i + 1), prefix@);
            assert forall|k: int| 0 <= k <= i implies a[k] == b[k] by {
                if k < i {
                    assert(named@[k] == before[k]);
                    assert(refs_view(before)[k] == short_refs_spec(raw@.subrange(0, i as int), prefix@)[k]);
                }
            }
            assert(a =~= b);
        }
        i = i + 1;
    }
    assert(raw@.subrange(0, i as int) =~= raw@);
    sort_refs(named)
}

/// The ids of a list, seen through their bytes.
pub open spec fn oids_view(ids: Seq<Oid>) -> Seq<Seq<u8>> {
    ids.map_values(|id: Oid| id@)
}

/// `s` with every element that already occurred earlier taken out; the first of
/// each set of equal elements stays, in its place.
pub open spec fn unique_spec(s: Seq<Seq<u8>>) -> Seq<Seq<u8>>
    decreases s.len(),
{
    if s.len() == 0 {
        Seq::empty()
    } else if s.drop_last().contains(s.last()) {
        unique_spec(s.drop_last())
    } else {
        unique_spec(s.drop_last()).push(s.last())
    }
}

/// No element occurs twice.
pub open spec fn no_duplicates(s: Seq<Seq<u8>>) -> bool {
    forall|i: int, j: int| 0 <= i < j < s.len() ==> s[i] != s[j]
}

pub proof fn lemma_unique_spec(s: Seq<Seq<u8>>)
    ensures
        no_duplicates(unique_spec(s)),
        forall|x: Seq<u8>| unique_spec(s).contains(x) <==> s.contains(x),
    decreases s.len(),
{
    if s.len() > 0 {
        let init = s.drop_last();
        lemma_unique_spec(init);
        assert forall|x: Seq<u8>| s.contains(x) <==> init.contains(x) || x == s.last() by {
            if s.contains(x) {
                let k = choose|k: int| 0 <= k < s.len() && s[k] == x;
                if k < s.len() - 1 {
                    assert(init[k] == x);
                }
            }
            if init.contains(x) {
                let k = choose|k: int| 0 <= k < init.len() && init[k] == x;
                assert(s[k] == x);
            }
            if x == s.last() {
                assert(s[s.len() - 1] == x);
            }
        }
        if !init.contains(s.last()) {
            let u = unique_spec(init);
            assert forall|x: Seq<u8>| u.push(s.last()).contains(x) <==> u.contains(x) || x == s.last() by {
                if u.push(s.last()).contains(x) {
                    let k = choose|k: int| 0 <= k < u.len() + 1 && u.push(s.last())[k] == x;
                    if k < u.len() {
                        assert(u[k] == x);
                    }
                }
                if u.contains(x) {
                    let k = choose|k: int| 0 <= k < u.len() && u[k] == x;
                    assert(u.push(s.last())[k] == x);
                }
                if x == s.last() {
                    assert(u.push(s.last())[u.len() as int] == x);
                }
            }
            assert forall|i: int, j: int| 0 <= i < j < u.len() + 1 implies u.push(s.last())[i] != u.push(
                s.last(),
            )[j] by {
                if j == u.len() {
                    assert(u.contains(u[i]));
                }
            }
        }
    }
}

/// A handle on a Git repository, shareable between threads.
pub struct Repository {
    inner: gix::ThreadSafeRepository,
}

impl Repository {
    /// Resolve a hex prefix to the one object whose id starts with it. A name that is not
    /// two to forty lowercase hex digits matches nothing.
    pub fn resolve_prefix(&self, hex: &[u8]) -> (r: Result<Oid, RepoError>)
        ensures
            !valid_hex_prefix(hex@) ==> r == Err::<Oid, RepoError>(RepoError::NotFound),
            r matches Ok(id) ==> id.wf() && has_hex_prefix(id@, hex@),
    {
        if !is_valid_hex_prefix(hex) {
            return Err(RepoError::NotFound);
        }
        match self.lookup_prefix(hex) {
            Ok(found) => prefix_result(found),
            Err(e) => Err(e),
        }
    }

    /// Resolve a hex prefix to the full id of a commit: `WrongKind` where the one
    /// object it names is not a commit.
    pub fn resolve_full_commit_id(&self, hex: &[u8]) -> (r: Result<Oid, RepoError>)
        ensures
            !valid_hex_prefix(hex@) ==> r == Err::<Oid, RepoError>(RepoError::NotFound),
            r matches Ok(id) ==> id.wf() && has_hex_prefix(id@, hex@),
    {
        let id = self.resolve_prefix(hex)?;
        let (kind, _) = self.find_header(&id)?;
        expect_commit(kind)?;
        Ok(id)
    }

    /// Resolve HEAD to the commit it points at: `UnbornHead` where it has no target,
    /// `WrongKind` where its target is not a commit.
    pub fn resolve_head(&self) -> (r: Result<Oid, RepoError>)
        ensures
            r matches Ok(id) ==> id.wf(),
    {
        let id = head_commit_result(self.head_target_id()?)?;
        let (kind, _) = self.find_header(&id)?;
        expect_commit(kind)?;
        Ok(id)
    }

    /// The local branches by short name, sorted, each with the id it peels to.
    pub fn list_branches(&self) -> (r: Result<Vec<RefEntry>, RepoError>)
        ensures
            r matches Ok(v) ==> sorted_by_name(refs_view(v@)) && forall|i: int|
                0 <= i < v@.len() ==> (#[trigger] v@[i]).target.wf(),
            r matches Ok(v) ==> exists|raw: Seq<(Vec<u8>, Oid)>|
                #[trigger] collected_refs_spec(v@, raw, branch_prefix_spec()),
    {
        let raw = self.branch_refs()?;
        let prefix = branch_prefix();
        let ghost raw_view = raw@;
        let v = collect_refs(raw, prefix.as_slice());
        assert(collected_refs_spec(v@, raw_view, branch_prefix_spec()));
        let ghost w = v@;
        let r: Result<Vec<RefEntry>, RepoError> = Ok(v);
        assert(r matches Ok(x) && x@ == w);
        r
    }

    /// The tags by short name, sorted, each with the id it peels to.
    pub fn list_tags(&self) -> (r: Result<Vec<RefEntry>, RepoError>)
        ensures
            r matches Ok(v) ==> sorted_by_name(refs_view(v@)) && forall|i: int|
                0 <= i < v@.len() ==> (#[trigger] v@[i]).target.wf(),
            r matches Ok(v) ==> exists|raw: Seq<(Vec<u8>, Oid)>|
                #[trigger] collected_refs_spec(v@, raw, tag_prefix_spec()),
    {
        let raw = self.tag_refs()?;
        let prefix = tag_prefix();
        let ghost raw_view = raw@;
        let v = collect_refs(raw, prefix.as_slice());
        assert(collected_refs_spec(v@, raw_view, tag_prefix_spec()));
        let ghost w = v@;
        let r: Result<Vec<RefEntry>, RepoError> = Ok(v);
        assert(r matches Ok(x) && x@ == w);
        r
    }

    /// Every commit stored in the object database, each once, in the order the
    /// database enumerates them. Objects that cannot be read are left out.
    pub fn list_commits(&self) -> (r: Result<Vec<Oid>, RepoError>)
        ensures
            r matches Ok(v) ==> no_duplicates(oids_view(v@)) && forall|i: int|
                0 <= i < v@.len() ==> (#[trigger] v@[i]).wf(),
    {
        let all = self.all_object_ids()?;
        let mut commits: Vec<Oid> = Vec::new();
        let mut i: usize = 0;
        while i < all.len()
            invariant
                i <= all@.len(),
                forall|k: int| 0 <= k < all@.len() ==> (#[trigger] all@[k] matches Some(id) ==> id.wf()),
                forall|k: int| 0 <= k < commits@.len() ==> (#[trigger] commits@[k]).wf(),
            decreases all@.len() - i,
        {
            if let Some(id) = &all[i] {
                if let Ok((ObjectKind::Commit, _)) = self.find_header(id) {
                    commits.push(id.clone_oid());
                }
            }
            i = i + 1;
        }
        let unique = unique_ids(commits);
        proof {
            lemma_unique_spec(oids_view(commits@));
            assert forall|k: int| 0 <= k < unique@.len() implies (#[trigger] unique@[k]).wf() by {
                let x = oids_view(unique@)[k];
                assert(oids_view(commits@).contains(x));
                let j = choose|j: int| 0 <= j < oids_view(commits@).len() && oids_view(commits@)[j] == x;
                assert(commits@[j].wf());
            }
        }
        Ok(unique)
    }

    /// Recover the object an inode stands for: look up each of its sixteen candidate
    /// prefixes and take the one object found; more than one is an ambiguity.
    pub fn resolve_inode(&self, inode: u64) -> (r: Result<Oid, RepoError>)
        ensures
            r matches Ok(id) ==> id.wf() && exists|c: int|
                0 <= c < 16 && has_hex_prefix(id@, #[trigger] decode_candidates(inode)[c]),
    {
        let prefixes = decode_candidate_prefixes(inode);
        let mut found: Vec<PrefixLookup> = Vec::new();
        let mut c: usize = 0;
        while c < 16
            invariant
                c <= 16,
                prefixes@.len() == 16,
                forall|k: int| 0 <= k < 16 ==> (#[trigger] prefixes@[k])@ == decode_candidates(inode)[k],
                found@.len() == c,
                forall|k: int|
                    0 <= k < c ==> (#[trigger] found@[k] matches PrefixLookup::Unique(id) ==> id.wf()
                        && has_hex_prefix(id@, decode_candidates(inode)[k])),
            decreases 16 - c,
        {
            proof {
                crate::inode::lemma_hex_fixed_digits(
                    (c * TAG_UNIT + inode_low(inode)) as u64 as nat,
                    16,
                );
            }
            let l = self.lookup_prefix(prefixes[c].as_slice())?;
            found.push(l);
            c = c + 1;
        }
        let ghost ls = found@;
        let r = combine_decoded(found);
        proof {
            if r is Ok {
                lemma_count_unique_exists(ls);
                let i = choose|i: int| 0 <= i < ls.len() && #[trigger] ls[i] is Unique;
                assert(has_hex_prefix(r->Ok_0@, decode_candidates(inode)[i]));
            }
        }
        r
    }

    /// Relies on `gix::ThreadSafeRepository::open`: opens a working tree or a bare repository.
    #[verifier::external_body]
    pub fn open(path: &std::path::PathBuf) -> (r: Result<Repository, RepoError>) {
        gix::ThreadSafeRepository::open(path).map(|inner| Repository { inner }).map_err(
            |_| RepoError::Backend,
        )
    }

    /// Relies on gix's object-database `lookup_prefix`: the one object whose id starts
    /// with the prefix, an ambiguity where several do, nothing where none does.
    #[verifier::external_body]
    pub(crate) fn lookup_prefix(&self, hex: &[u8]) -> (r: Result<PrefixLookup, RepoError>)
        requires
            valid_hex_prefix(hex@),
        ensures
            r matches Ok(PrefixLookup::Unique(id)) ==> id.wf() && has_hex_prefix(id@, hex@),
    {
        let text = std::str::from_utf8(hex).map_err(|_| RepoError::NotFound)?;
        let prefix = gix::hash::Prefix::from_hex_nonempty(text).map_err(|_| RepoError::NotFound)?;
        match self.inner.to_thread_local().objects.lookup_prefix(prefix, None) {
            Ok(Some(Ok(id))) => Ok(PrefixLookup::Unique(Oid { bytes: id.as_bytes().to_vec() })),
            Ok(Some(Err(()))) => Ok(PrefixLookup::Ambiguous),
            Ok(None) => Ok(PrefixLookup::Missing),
            Err(_) => Err(RepoError::Backend),
        }
    }

    /// Relies on `gix::Repository::find_header`: the kind and size of a stored object.
    #[verifier::external_body]
    pub(crate) fn find_header(&self, id: &Oid) -> (r: Result<(ObjectKind, u64), RepoError>) {
        let oid = gix::ObjectId::try_from(id.bytes.as_slice()).map_err(|_| RepoError::NotFound)?;
        let header = self.inner.to_thread_local().find_header(oid).map_err(|_| RepoError::NotFound)?;
        let kind = match header.kind() {
            gix::objs::Kind::Commit => ObjectKind::Commit,
            gix::objs::Kind::Tree => ObjectKind::Tree,
            gix::objs::Kind::Blob => ObjectKind::Blob,
            gix::objs::Kind::Tag => ObjectKind::Tag,
        };
        Ok((kind, header.size()))
    }

    /// Relies on `gix::Repository::find_commit` and `Commit::tree_id`: the commit's root tree.
    #[verifier::external_body]
    pub(crate) fn commit_tree(&self, id: &Oid) -> (r: Result<Oid, RepoError>)
        ensures
            r matches Ok(t) ==> t.wf(),
    {
        let oid = gix::ObjectId::try_from(id.bytes.as_slice()).map_err(|_| RepoError::NotFound)?;
        let repo = self.inner.to_thread_local();
        let commit = repo.find_commit(oid).map_err(|_| RepoError::WrongKind)?;
        let tree = commit.tree_id().map_err(|_| RepoError::Backend)?;
        Ok(Oid { bytes: tree.as_bytes().to_vec() })
    }

    /// Relies on gix's object-database `iter`: the id of every stored object, packed ones
    /// first, possibly repeated; `None` where an entry could not be read.
    #[verifier::external_body]
    fn all_object_ids(&self) -> (r: Result<Vec<Option<Oid>>, RepoError>)
        ensures
            r matches Ok(v) ==> forall|i: int| 0 <= i < v@.len() ==> (#[trigger] v@[i] matches Some(id) ==> id.wf()),
    {
        let repo = self.inner.to_thread_local();
        let all = repo.objects.iter().map_err(|_| RepoError::Backend)?;
        Ok(all.map(|r| r.ok().map(|id| Oid { bytes: id.as_bytes().to_vec() })).collect())
    }

    /// Relies on `gix::Commit::time`: the committer's timestamp, in seconds since the epoch.
    #[verifier::external_body]
    pub(crate) fn commit_time(&self, id: &Oid) -> (r: Result<i64, RepoError>) {
        let oid = gix::ObjectId::try_from(id.bytes.as_slice()).map_err(|_| RepoError::NotFound)?;
        let repo = self.inner.to_thread_local();
        let commit = repo.find_commit(oid).map_err(|_| RepoError::WrongKind)?;
        let time = commit.time().map_err(|_| RepoError::Backend)?;
        Ok(time.seconds)
    }

    /// Relies on `gix::Repository::find_tree` and `Tree::iter`: the tree's entries in
    /// the tree's own order, with the kind each entry's mode gives.
    #[verifier::external_body]
    pub(crate) fn tree_entries(&self, id: &Oid) -> (r: Result<Vec<TreeEntry>, RepoError>)
        ensures
            r matches Ok(v) ==> forall|i: int| 0 <= i < v@.len() ==> (#[trigger] v@[i]).oid.wf(),
    {
        let oid = gix::ObjectId::try_from(id.bytes.as_slice()).map_err(|_| RepoError::NotFound)?;
        let repo = self.inner.to_thread_local();
        let tree = repo.find_tree(oid).map_err(|_| RepoError::WrongKind)?;
        tree.iter().map(|e| {
            let e = e.map_err(|_| RepoError::Backend)?;
            let kind = match e.kind() {
                GitEntryKind::Tree => EntryKind::Tree,
                GitEntryKind::Blob => EntryKind::Blob,
                GitEntryKind::BlobExecutable => EntryKind::BlobExecutable,
                GitEntryKind::Link => EntryKind::Link,
                GitEntryKind::Commit => EntryKind::Commit,
            };
            Ok(TreeEntry { name: e.filename().to_vec(), kind, oid: Oid { bytes: e.oid().as_bytes().to_vec() } })
        }).collect()
    }

    /// Relies on `gix::Repository::find_blob`: the blob's contents.
    #[verifier::external_body]
    pub(crate) fn blob_data(&self, id: &Oid) -> (r: Result<Vec<u8>, RepoError>) {
        let oid = gix::ObjectId::try_from(id.bytes.as_slice()).map_err(|_| RepoError::NotFound)?;
        let repo = self.inner.to_thread_local();
        let mut blob = repo.find_blob(oid).map_err(|_| RepoError::WrongKind)?;
        Ok(blob.take_data())
    }

    /// Relies on `gix::Head::try_peel_to_id`: HEAD's target peeled to an object id,
    /// `None` where HEAD is unborn.
    #[verifier::external_body]
    fn head_target_id(&self) -> (r: Result<Option<Oid>, RepoError>)
        ensures
            r matches Ok(Some(id)) ==> id.wf(),
    {
        let repo = self.inner.to_thread_local();
        let mut head = repo.head().map_err(|_| RepoError::Backend)?;
        let id = head.try_peel_to_id().map_err(|_| RepoError::Backend)?;
        Ok(id.map(|id| Oid { bytes: id.as_bytes().to_vec() }))
    }

    /// Relies on gix's `local_branches()` reference iterator with `peeled()`: every ref
    /// under `refs/heads/`, by full name, with the id it peels to.
    #[verifier::external_body]
    fn branch_refs(&self) -> (r: Result<Vec<(Vec<u8>, Oid)>, RepoError>)
        ensures
            r matches Ok(v) ==> forall|i: int| 0 <= i < v@.len() ==> (#[trigger] v@[i]).1.wf(),
    {
        let repo = self.inner.to_thread_local();
        let platform = repo.references().map_err(|_| RepoError::Backend)?;
        let refs = platform.local_branches().and_then(|i| i.peeled()).map_err(|_| RepoError::Backend)?;
        refs.map(|r| {
            let mut r = r.map_err(|_| RepoError::Backend)?;
            let id = r.peel_to_id().map_err(|_| RepoError::Backend)?;
            Ok((r.name().as_bstr().to_vec(), Oid { bytes: id.as_bytes().to_vec() }))
        }).collect()
    }

    /// Relies on gix's `tags()` reference iterator with `peeled()`: every ref under
    /// `refs/tags/`, by full name, with the id it peels to.
    #[verifier::external_body]
    fn tag_refs(&self) -> (r: Result<Vec<(Vec<u8>, Oid)>, RepoError>)
        ensures
            r matches Ok(v) ==> forall|i: int| 0 <= i < v@.len() ==> (#[trigger] v@[i]).1.wf(),
    {
        let repo = self.inner.to_thread_local();
        let platform = repo.references().map_err(|_| RepoError::Backend)?;
        let refs = platform.tags().and_then(|i| i.peeled()).map_err(|_| RepoError::Backend)?;
        refs.map(|r| {
            let mut r = r.map_err(|_| RepoError::Backend)?;
            let id = r.peel_to_id().map_err(|_| RepoError::Backend)?;
            Ok((r.name().as_bstr().to_vec(), Oid { bytes: id.as_bytes().to_vec() }))
        }).collect()
    }
}

} // verus!
