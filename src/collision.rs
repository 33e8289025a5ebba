//! The inode table: for each inode, the first object it was seen for, and every
//! different object that later produced the same inode.
use vstd::prelude::*;
use std::collections::HashMap;
use crate::inode::NodeKind;
use crate::oid::{bytes_eq, Oid};

verus! {

/// An object as the table knows it: its id and the kind of node it appeared as.
#[derive(Debug)]
pub struct Claim {
    pub oid: Vec<u8>,
    pub kind: NodeKind,
}

/// One inode's record: the first claim on it, and each competing claim after it.
#[derive(Debug)]
pub struct InodeSlot {
    pub first: Claim,
    pub collisions: Vec<Claim>,
}

pub open spec fn claim_view(c: Claim) -> (Seq<u8>, NodeKind) {
    (c.oid@, c.kind)
}

pub open spec fn claims_view(cs: Seq<Claim>) -> Seq<(Seq<u8>, NodeKind)> {
    cs.map_values(|c: Claim| claim_view(c))
}

pub open spec fn slot_view(s: InodeSlot) -> ((Seq<u8>, NodeKind), Seq<(Seq<u8>, NodeKind)>) {
    (claim_view(s.first), claims_view(s.collisions@))
}

/// Two different objects produced the same inode.
#[derive(Clone, Copy, Debug, PartialEq, Eq, Structural)]
pub struct InodeCollision {
    pub inode: u64,
}

/// The inodes handed out so far, each with the object it stands for.
pub struct InodeTable {
    pub slots: HashMap<u64, InodeSlot>,
}

fn clone_claim(c: &Claim) -> (r: Claim)
    ensures
        claim_view(r) == claim_view(*c),
{
    Claim { oid: c.oid.clone(), kind: c.kind }
}

fn clone_claims(cs: &Vec<Claim>) -> (r: Vec<Claim>)
    ensures
        claims_view(r@) == claims_view(cs@),
{
    let mut r: Vec<Claim> = Vec::new();
    let mut i: usize = 0;
    while i < cs.len()
        invariant
            i <= cs@.len(),
            r@.len() == i,
            claims_view(r@) =~= claims_view(cs@.subrange(0, i as int)),
        decreases cs@.len() - i,
    {
        let ghost prev = r@;
        r.push(clone_claim(&cs[i]));
        proof {
            let want = claims_view(cs@.subrange(0, i + 1));
            assert forall|k: int| 0 <= k <= i implies claims_view(r@)[k] == want[k] by {
                if k < i {
                    assert(r@[k] == prev[k]);
                    assert(claims_view(prev)[k] == claims_view(cs@.subrange(0, i as int))[k]);
                }
            }
            assert(claims_view(r@) =~= want);
        }
        i = i + 1;
    }
    assert(cs@.subrange(0, i as int) =~= cs@);
    r
}

impl InodeTable {
    pub open spec fn view(&self) -> Map<u64, ((Seq<u8>, NodeKind), Seq<(Seq<u8>, NodeKind)>)> {
        Map::new(|k: u64| self.slots@.contains_key(k), |k: u64| slot_view(self.slots@[k]))
    }

    pub fn new() -> (r: InodeTable)
        ensures
            r@ == Map::<u64, ((Seq<u8>, NodeKind), Seq<(Seq<u8>, NodeKind)>)>::empty(),
    {
        let r = InodeTable { slots: HashMap::new() };
        assert(r@ =~= Map::<u64, ((Seq<u8>, NodeKind), Seq<(Seq<u8>, NodeKind)>)>::empty());
        r
    }

    /// Record that `inode` stands for `oid` as a node of kind `kind`. The first claim on
    /// an inode stands; the same claim again changes nothing; a different one is kept
    /// among the inode's collisions and reported.
    pub fn register(&mut self, inode: u64, oid: &Oid, kind: NodeKind) -> (r: Result<(), InodeCollision>)
        ensures
            !old(self)@.contains_key(inode) ==> r is Ok && final(self)@ == old(self)@.insert(
                inode,
                ((oid@, kind), Seq::empty()),
            ),
            old(self)@.contains_key(inode) && old(self)@[inode].0 == (oid@, kind) ==> r is Ok
                && final(self)@ == old(self)@,
            old(self)@.contains_key(inode) && old(self)@[inode].0 != (oid@, kind) ==> r == Err::<
                (),
                InodeCollision,
            >(InodeCollision { inode }) && final(self)@ == old(self)@.insert(
                inode,
                (old(self)@[inode].0, old(self)@[inode].1.push((oid@, kind))),
            ),
    {
        broadcast use vstd::std_specs::hash::group_hash_axioms;

        let ghost before = self@;
        let (first, mut collisions) = match self.slots.get(&inode) {
            None => {
                let slot = InodeSlot { first: Claim { oid: oid.bytes.clone(), kind }, collisions: Vec::new() };
                self.slots.insert(inode, slot);
                proof {
                    assert(claims_view(Seq::<Claim>::empty()) =~= Seq::empty());
                    assert(self@ =~= before.insert(inode, ((oid@, kind), Seq::empty())));
                }
                return Ok(());
            },
            Some(slot) => {
                if slot.first.kind == kind && bytes_eq(slot.first.oid.as_slice(), oid.bytes.as_slice()) {
                    return Ok(());
                }
                let f = clone_claim(&slot.first);
                let c = clone_claims(&slot.collisions);
                assert(self.slots@[inode] == *slot);
                assert(claim_view(f) == before[inode].0 && claims_view(c@) == before[inode].1);
                (f, c)
            },
        };
        let ghost old_collisions = collisions@;
        let latest = Claim { oid: oid.bytes.clone(), kind };
        assert(claim_view(latest) == (oid@, kind));
        collisions.push(latest);
        assert(claims_view(collisions@) =~= claims_view(old_collisions).push((oid@, kind)));
        let ghost slot_now = (claim_view(first), claims_view(collisions@));
        assert(slot_now == (before[inode].0, before[inode].1.push((oid@, kind))));
        self.slots.insert(inode, InodeSlot { first, collisions });
        proof {
            assert(self@ =~= before.insert(inode, slot_now));
        }
        Err(InodeCollision { inode })
    }
}

} // verus!
