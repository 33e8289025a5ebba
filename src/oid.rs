//! Object ids and their hexadecimal rendering.
use vstd::prelude::*;

verus! {

/// The lowercase ASCII hex digit for a value below sixteen.
pub open spec fn hex_digit_spec(n: u8) -> u8 {
    if n < 10 {
        (48 + n) as u8
    } else {
        (87 + n) as u8
    }
}

/// The lowercase hexadecimal rendering of `b`, two digits per byte, high nibble first.
pub open spec fn hex_of(b: Seq<u8>) -> Seq<u8> {
    Seq::new(
        2 * b.len(),
        |i: int|
            if i % 2 == 0 {
                hex_digit_spec(b[i / 2] / 16)
            } else {
                hex_digit_spec(b[i / 2] % 16)
            },
    )
}

/// A lowercase ASCII hex digit.
pub open spec fn is_hex_digit(c: u8) -> bool {
    (48 <= c && c <= 57) || (97 <= c && c <= 102)
}

pub fn hex_digit(n: u8) -> (r: u8)
    requires
        n < 16,
    ensures
        r == hex_digit_spec(n),
        is_hex_digit(r),
{
    if n < 10 {
        48 + n
    } else {
        87 + n
    }
}

/// The id of a Git object: a SHA-1 (20 bytes) or SHA-256 (32 bytes) content hash.
#[derive(Clone, Debug, PartialEq, Eq, Hash)]
pub struct Oid {
    pub bytes: Vec<u8>,
}

impl Oid {
    pub open spec fn view(&self) -> Seq<u8> {
        self.bytes@
    }

    /// A well-formed id has the length of one of Git's two hash kinds.
    pub open spec fn wf(&self) -> bool {
        self.bytes@.len() == 20 || self.bytes@.len() == 32
    }

    /// Wraps raw hash bytes; `None` unless they have the length of a Git hash.
    pub fn from_bytes(bytes: Vec<u8>) -> (r: Option<Oid>)
        ensures
            r.is_some() <==> (bytes@.len() == 20 || bytes@.len() == 32),
            r.is_some() ==> r.unwrap().bytes@ == bytes@,
    {
        if bytes.len() == 20 || bytes.len() == 32 {
            Some(Oid { bytes })
        } else {
            None
        }
    }

    pub fn clone_oid(&self) -> (r: Oid)
        ensures
            r.bytes@ == self.bytes@,
    {
        Oid { bytes: self.bytes.clone() }
    }

    /// The full lowercase hexadecimal form of the id (40 or 64 digits).
    pub fn to_hex(&self) -> (r: Vec<u8>)
        ensures
            r@ == hex_of(self.bytes@),
    {
        let mut r: Vec<u8> = Vec::new();
        let mut i: usize = 0;
        while i < self.bytes.len()
            invariant
                i <= self.bytes@.len(),
                r@ =~= hex_of(self.bytes@.subrange(0, i as int)),
            decreases self.bytes@.len() - i,
        {
            let b = self.bytes[i];
            r.push(hex_digit(b / 16));
            r.push(hex_digit(b % 16));
            i = i + 1;
            assert(r@ =~= hex_of(self.bytes@.subrange(0, i as int)));
        }
        assert(self.bytes@.subrange(0, i as int) =~= self.bytes@);
        r
    }
}

/// Whether two byte strings are equal, byte for byte.
pub fn bytes_eq(a: &[u8], b: &[u8]) -> (r: bool)
    ensures
        r == (a@ == b@),
{
    if a.len() != b.len() {
        return false;
    }
    let mut i: usize = 0;
    while i < a.len()
        invariant
            a@.len() == b@.len(),
            i <= a@.len(),
            a@.subrange(0, i as int) =~= b@.subrange(0, i as int),
        decreases a@.len() - i,
    {
        if a[i] != b[i] {
            assert(a@[i as int] != b@[i as int]);
            return false;
        }
        i = i + 1;
        assert(a@.subrange(0, i as int) =~= b@.subrange(0, i as int));
    }
    assert(a@ =~= a@.subrange(0, i as int));
    assert(b@ =~= b@.subrange(0, i as int));
    true
}

} // verus!
