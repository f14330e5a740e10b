//! Commit identifiers and their canonical byte encoding.
use vstd::prelude::*;

verus! {

broadcast use vstd::array::group_array_axioms;

/// Number of bytes in a commit identifier.
pub const COMMIT_ID_LEN: usize = 32;

/// An opaque, content-derived commit identifier.
#[derive(Clone, Copy, Debug, PartialEq, Eq, Hash)]
pub struct CommitId {
    pub hash: [u8; 32],
}

impl View for CommitId {
    type V = Seq<u8>;

    open spec fn view(&self) -> Seq<u8> {
        self.hash@
    }
}

/// Two identifiers are equal exactly when their byte views are.
pub proof fn lemma_view_injective(a: CommitId, b: CommitId)
    ensures
        a@ == b@ <==> a == b,
{
    if a@ == b@ {
        assert(a.hash == b.hash);
    }
}

impl CommitId {
    pub fn from_array(hash: [u8; 32]) -> (r: CommitId)
        ensures
            r.hash == hash,
    {
        CommitId { hash }
    }

    /// Compares two identifiers byte by byte.
    pub fn same_as(&self, other: &CommitId) -> (r: bool)
        ensures
            r == (*self == *other),
    {
        let mut i: usize = 0;
        while i < COMMIT_ID_LEN
            invariant
                i <= COMMIT_ID_LEN,
                self@.len() == COMMIT_ID_LEN,
                other@.len() == COMMIT_ID_LEN,
                forall|j: int| 0 <= j < i ==> self@[j] == other@[j],
            decreases COMMIT_ID_LEN - i,
        {
            if self.hash[i] != other.hash[i] {
                proof {
                    lemma_view_injective(*self, *other);
                }
                return false;
            }
            i = i + 1;
        }
        proof {
            assert(self@ =~= other@);
            lemma_view_injective(*self, *other);
        }
        true
    }

    /// The canonical encoding: the identifier's bytes, in order.
    pub fn to_bytes(&self) -> (r: Vec<u8>)
        ensures
            r@ == self@,
    {
        let mut out: Vec<u8> = Vec::new();
        let mut i: usize = 0;
        while i < COMMIT_ID_LEN
            invariant
                i <= COMMIT_ID_LEN,
                self@.len() == COMMIT_ID_LEN,
                out@ == self@.take(i as int),
            decreases COMMIT_ID_LEN - i,
        {
            out.push(self.hash[i]);
            i = i + 1;
            assert(out@ =~= self@.take(i as int));
        }
        assert(self@.take(COMMIT_ID_LEN as int) =~= self@);
        out
    }

    /// Reads an identifier back from its canonical encoding; `None` unless the
    /// input is exactly one identifier long.
    pub fn from_bytes(bytes: &[u8]) -> (r: Option<CommitId>)
        ensures
            r.is_some() <==> bytes@.len() == COMMIT_ID_LEN,
            r.is_some() ==> r.unwrap()@ == bytes@,
    {
        if bytes.len() != COMMIT_ID_LEN {
            return None;
        }
        let mut hash: [u8; 32] = [0u8; 32];
        let mut i: usize = 0;
        while i < COMMIT_ID_LEN
            invariant
                i <= COMMIT_ID_LEN,
                bytes@.len() == COMMIT_ID_LEN,
                hash@.len() == COMMIT_ID_LEN,
                forall|j: int| 0 <= j < i ==> hash@[j] == bytes@[j],
            decreases COMMIT_ID_LEN - i,
        {
            hash[i] = bytes[i];
            i = i + 1;
        }
        assert(hash@ =~= bytes@);
        Some(CommitId { hash })
    }
}

} // verus!
