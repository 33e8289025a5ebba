//! Lexicographic order on byte strings.
use vstd::prelude::*;

verus! {

/// `a` and `b` agree on their first `i` bytes, and at `i` either `a` has ended while
/// `b` goes on, or both go on and `a`'s byte is the smaller.
pub open spec fn lex_witness(a: Seq<u8>, b: Seq<u8>, i: int) -> bool {
    &&& 0 <= i <= a.len()
    &&& i <= b.len()
    &&& forall|j: int| 0 <= j < i ==> a[j] == b[j]
    &&& ((i == a.len() && i < b.len()) || (i < a.len() && i < b.len() && a[i] < b[i]))
}

/// `a` sorts strictly before `b`, byte by byte, a proper prefix first.
pub open spec fn lex_lt(a: Seq<u8>, b: Seq<u8>) -> bool {
    exists|i: int| #[trigger] lex_witness(a, b, i)
}

pub open spec fn lex_le(a: Seq<u8>, b: Seq<u8>) -> bool {
    lex_lt(a, b) || a == b
}

pub proof fn lemma_lex_lt_irreflexive(a: Seq<u8>)
    ensures
        !lex_lt(a, a),
{
}

pub proof fn lemma_lex_lt_asymmetric(a: Seq<u8>, b: Seq<u8>)
    requires
        lex_lt(a, b),
    ensures
        !lex_lt(b, a),
        a != b,
{
    let i = choose|i: int| lex_witness(a, b, i);
    if lex_lt(b, a) {
        let j = choose|j: int| lex_witness(b, a, j);
        if i < j {
            assert(a[i] == b[i] || i == a.len());
        } else if j < i {
            assert(a[j] == b[j]);
        }
    }
}

pub proof fn lemma_lex_lt_transitive(a: Seq<u8>, b: Seq<u8>, c: Seq<u8>)
    requires
        lex_lt(a, b),
        lex_lt(b, c),
    ensures
        lex_lt(a, c),
{
    let i = choose|i: int| lex_witness(a, b, i);
    let j = choose|j: int| lex_witness(b, c, j);
    if i < j {
        assert(lex_witness(a, c, i));
    } else if j < i {
        assert(b[j] == a[j]);
        assert(lex_witness(a, c, j));
    } else {
        assert(lex_witness(a, c, i));
    }
}

pub proof fn lemma_lex_lt_le_transitive(a: Seq<u8>, b: Seq<u8>, c: Seq<u8>)
    requires
        lex_lt(a, b),
        lex_le(b, c),
    ensures
        lex_lt(a, c),
{
    if b != c {
        lemma_lex_lt_transitive(a, b, c);
    }
}

/// Three-way comparison: negative, zero or positive as `a` sorts before, equal to or after `b`.
pub fn compare_bytes(a: &[u8], b: &[u8]) -> (r: i8)
    ensures
        r < 0 <==> lex_lt(a@, b@),
        r > 0 <==> lex_lt(b@, a@),
        r == 0 <==> a@ == b@,
{
    let mut i: usize = 0;
    while i < a.len() && i < b.len()
        invariant
            i <= a@.len(),
            i <= b@.len(),
            forall|j: int| 0 <= j < i ==> a@[j] == b@[j],
        decreases a@.len() - i,
    {
        if a[i] != b[i] {
            if a[i] < b[i] {
                assert(lex_witness(a@, b@, i as int));
                proof {
                    lemma_lex_lt_asymmetric(a@, b@);
                }
                return -1;
            } else {
                assert(lex_witness(b@, a@, i as int));
                proof {
                    lemma_lex_lt_asymmetric(b@, a@);
                }
                return 1;
            }
        }
        i = i + 1;
    }
    if i == a.len() && i == b.len() {
        assert(a@ =~= b@);
        proof {
            lemma_lex_lt_irreflexive(a@);
        }
        0
    } else if i == a.len() {
        assert(lex_witness(a@, b@, i as int));
        proof {
            lemma_lex_lt_asymmetric(a@, b@);
        }
        -1
    } else {
        assert(lex_witness(b@, a@, i as int));
        proof {
            lemma_lex_lt_asymmetric(b@, a@);
        }
        1
    }
}

} // verus!
