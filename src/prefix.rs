//! Key namespacing over a key-value store: a fixed prefix is put in front of
//! every key going in and taken off every key coming out.
use vstd::prelude::*;
use crate::text::{concat, strip_prefix};

verus! {

/// A layer over a store `T` that prepends a fixed string to each key.
pub struct PrefixBlobstore<T> {
    pub prefix: String,
    pub blobstore: T,
}

/// Bounds of a key enumeration; an empty bound leaves that side open.
pub struct KeyRange {
    pub begin_key: String,
    pub end_key: String,
}

/// Where a key enumeration starts.
pub enum KeyParam {
    Start(KeyRange),
    /// A token handed back by an earlier enumeration; passed through as is.
    Continuation(String),
}

/// A bound as the inner store sees it: prefixed unless empty.
pub open spec fn inner_bound(prefix: Seq<char>, bound: Seq<char>) -> Seq<char> {
    if bound.len() == 0 { bound } else { prefix + bound }
}

impl<T> PrefixBlobstore<T> {
    pub fn new(blobstore: T, prefix: String) -> (r: Self)
        ensures
            r.prefix == prefix,
            r.blobstore == blobstore,
    {
        PrefixBlobstore { prefix, blobstore }
    }

    pub fn into_inner(self) -> (r: T)
        ensures
            r == self.blobstore,
    {
        self.blobstore
    }

    pub fn as_inner(&self) -> (r: &T)
        ensures
            *r == self.blobstore,
    {
        &self.blobstore
    }

    pub fn prefix(&self) -> (r: String)
        ensures
            r@ == self.prefix@,
    {
        self.prefix.clone()
    }

    /// The key under which the inner store holds `key`.
    pub fn prepend(&self, key: &str) -> (r: String)
        ensures
            r@ == self.prefix@ + key@,
    {
        concat(self.prefix.as_str(), key)
    }

    /// The key that `key` of the inner store stands for; `None` when `key`
    /// does not start with the prefix.
    pub fn unprepend(&self, key: &str) -> (r: Option<String>)
        ensures
            r.is_some() <==> self.prefix@.is_prefix_of(key@),
            r.is_some() ==> self.prefix@ + r.unwrap()@ == key@,
    {
        let r = strip_prefix(key, self.prefix.as_str());
        proof {
            if r.is_some() {
                assert(self.prefix@ + r.unwrap()@ =~= key@);
            }
        }
        r
    }

    /// Takes the prefix off every key of an enumeration; `None` when one of
    /// them does not start with it.
    pub fn unprepend_keys(&self, keys: &Vec<String>) -> (r: Option<Vec<String>>)
        ensures
            r.is_some() <==> forall|i: int| 0 <= i < keys@.len()
                ==> self.prefix@.is_prefix_of((#[trigger] keys@[i])@),
            r.is_some() ==> r.unwrap()@.len() == keys@.len()
                && forall|i: int| 0 <= i < keys@.len()
                    ==> self.prefix@ + (#[trigger] r.unwrap()@[i])@ == keys@[i]@,
    {
        let mut out: Vec<String> = Vec::new();
        let mut i: usize = 0;
        while i < keys.len()
            invariant
                i <= keys@.len(),
                out@.len() == i,
                forall|j: int| 0 <= j < i ==> self.prefix@.is_prefix_of((#[trigger] keys@[j])@),
                forall|j: int| 0 <= j < i ==> self.prefix@ + (#[trigger] out@[j])@ == keys@[j]@,
            decreases keys@.len() - i,
        {
            match self.unprepend(keys[i].as_str()) {
                Some(k) => out.push(k),
                None => return None,
            }
            i = i + 1;
        }
        Some(out)
    }

    /// The enumeration bounds as the inner store sees them: non-empty bounds
    /// are prefixed, a continuation token is passed through.
    pub fn inner_param(&self, param: &KeyParam) -> (r: KeyParam)
        ensures
            param matches KeyParam::Start(range) ==> (r matches KeyParam::Start(inner)
                && inner.begin_key@ == inner_bound(self.prefix@, range.begin_key@)
                && inner.end_key@ == inner_bound(self.prefix@, range.end_key@)),
            param matches KeyParam::Continuation(token) ==> (r matches KeyParam::Continuation(t)
                && t@ == token@),
    {
        match param {
            KeyParam::Start(range) => {
                let begin_key = if range.begin_key.as_str().is_empty() {
                    String::new()
                } else {
                    self.prepend(range.begin_key.as_str())
                };
                let end_key = if range.end_key.as_str().is_empty() {
                    String::new()
                } else {
                    self.prepend(range.end_key.as_str())
                };
                KeyParam::Start(KeyRange { begin_key, end_key })
            },
            KeyParam::Continuation(token) => KeyParam::Continuation(token.clone()),
        }
    }
}

} // verus!
