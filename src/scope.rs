//! The request context: a protocol identifier and a set of shared values,
//! at most one per type.
use crate::any_arc::{type_key, AnyArc};
use crate::table::{
    entries_of, has_key, keys_unique, lemma_entry_at, lemma_push_entry, lemma_remove_entry,
    lemma_set_entry, lookup,
};
use std::any::{Any, TypeId};
use std::borrow::Cow;
use std::sync::Arc;
use vstd::prelude::*;

verus! {

/// What a `Scope` holds: its protocol identifier and the value stored under
/// each type identity.
pub struct ScopeView {
    pub protocol: Seq<char>,
    pub entries: Map<TypeId, AnyArc>,
}

/// A copy of `c` with the same text.
pub(crate) fn copy_text(c: &Cow<'static, str>) -> (r: Cow<'static, str>)
    ensures
        r@ == c@,
{
    match c {
        Cow::Borrowed(b) => Cow::Borrowed(*b),
        Cow::Owned(o) => Cow::Owned(o.clone()),
    }
}

/// The text that `c` holds.
pub(crate) fn text_of<'a>(c: &'a Cow<'static, str>) -> (r: &'a str)
    ensures
        r@ == c@,
{
    match c {
        Cow::Borrowed(b) => b,
        Cow::Owned(o) => o.as_str(),
    }
}

/// Request metadata: a protocol identifier and a set of shared values, each
/// stored under the identity of its type.
pub struct Scope {
    protocol: Cow<'static, str>,
    entries: Vec<(TypeId, AnyArc)>,
}

impl View for Scope {
    type V = ScopeView;

    closed spec fn view(&self) -> ScopeView {
        ScopeView { protocol: self.protocol@, entries: entries_of(self.entries@) }
    }
}

impl Clone for Scope {
    fn clone(&self) -> (r: Scope)
        ensures
            r@ == self@,
            self.wf() ==> r.wf(),
    {
        let protocol = copy_text(&self.protocol);
        let mut entries: Vec<(TypeId, AnyArc)> = Vec::new();
        let mut i: usize = 0;
        while i < self.entries.len()
            invariant
                i <= self.entries@.len(),
                entries@ == self.entries@.subrange(0, i as int),
            decreases self.entries@.len() - i,
        {
            entries.push((self.entries[i].0, self.entries[i].1.share()));
            i = i + 1;
            assert(entries@ =~= self.entries@.subrange(0, i as int));
        }
        assert(entries@ =~= self.entries@);
        Scope { protocol, entries }
    }
}

impl Scope {
    /// Each type identity occurs at most once among the stored pairs.
    pub closed spec fn wf(&self) -> bool {
        keys_unique(self.entries@)
    }

    /// Creates a `Scope` with the given protocol identifier and no values.
    pub fn new(protocol: Cow<'static, str>) -> (r: Scope)
        ensures
            r@.protocol == protocol@,
            r@.entries == Map::<TypeId, AnyArc>::empty(),
            r.wf(),
    {
        let r = Scope { protocol, entries: Vec::new() };
        assert(r@.entries =~= Map::<TypeId, AnyArc>::empty());
        r
    }

    /// The protocol identifier.
    pub fn protocol(&self) -> (r: &str)
        ensures
            r@ == self@.protocol,
    {
        text_of(&self.protocol)
    }

    /// Replaces the protocol identifier and keeps every stored value.
    pub fn with_protocol(self, protocol: Cow<'static, str>) -> (r: Scope)
        requires
            self.wf(),
        ensures
            r.wf(),
            r@.protocol == protocol@,
            r@.entries == self@.entries,
    {
        Scope { protocol, entries: self.entries }
    }

    /// The position of the pair stored under `key`.
    fn find(&self, key: &TypeId) -> (r: Option<usize>)
        ensures
            match r {
                Some(i) => i < self.entries@.len() && self.entries@[i as int].0 == *key,
                None => !has_key(self.entries@, *key),
            },
    {
        let mut i: usize = 0;
        while i < self.entries.len()
            invariant
                i <= self.entries@.len(),
                forall|j: int| 0 <= j < i ==> self.entries@[j].0 != *key,
            decreases self.entries@.len() - i,
        {
            if self.entries[i].0 == *key {
                return Some(i);
            }
            i = i + 1;
        }
        None
    }

    /// The value stored under `key`.
    pub(crate) fn get_entry(&self, key: &TypeId) -> (r: Option<AnyArc>)
        requires
            self.wf(),
        ensures
            r == lookup(self@.entries, *key),
    {
        match self.find(key) {
            Some(i) => {
                proof {
                    lemma_entry_at(self.entries@, i as int);
                }
                Some(self.entries[i].1.share())
            },
            None => None,
        }
    }

    /// Stores `value` under `key` and returns what was stored there before.
    pub(crate) fn insert_entry(&mut self, key: TypeId, value: AnyArc) -> (r: Option<AnyArc>)
        requires
            old(self).wf(),
        ensures
            final(self).wf(),
            final(self)@.protocol == old(self)@.protocol,
            final(self)@.entries == old(self)@.entries.insert(key, value),
            r == lookup(old(self)@.entries, key),
    {
        let ghost s = self.entries@;
        match self.find(&key) {
            Some(i) => {
                proof {
                    lemma_entry_at(s, i as int);
                }
                let prev = self.entries[i].1.share();
                proof {
                    lemma_set_entry(s, i as int, key, value);
                }
                self.entries.set(i, (key, value));
                Some(prev)
            },
            None => {
                proof {
                    lemma_push_entry(s, key, value);
                }
                self.entries.push((key, value));
                None
            },
        }
    }

    /// Removes what is stored under `key` and returns it.
    pub(crate) fn remove_entry(&mut self, key: &TypeId) -> (r: Option<AnyArc>)
        requires
            old(self).wf(),
        ensures
            final(self).wf(),
            final(self)@.protocol == old(self)@.protocol,
            final(self)@.entries == old(self)@.entries.remove(*key),
            r == lookup(old(self)@.entries, *key),
    {
        let ghost s = self.entries@;
        match self.find(key) {
            Some(i) => {
                proof {
                    lemma_entry_at(s, i as int);
                }
                proof {
                    lemma_remove_entry(s, i as int, *key);
                }
                let (_, prev) = self.entries.remove(i);
                Some(prev)
            },
            None => {
                assert(entries_of(s).remove(*key) =~= entries_of(s));
                None
            },
        }
    }

    /// A shared handle to the value of type `T`, if one is stored.
    pub fn get<T: Any + Sync + Send>(&self) -> (r: Option<Arc<T>>)
        requires
            self.wf(),
        ensures
            r is Some ==> exists|k: TypeId| #[trigger] self@.entries.contains_key(k),
            self@.entries == Map::<TypeId, AnyArc>::empty() ==> r is None,
    {
        match self.get_entry(&type_key::<T>()) {
            Some(a) => a.downcast::<T>(),
            None => None,
        }
    }

    /// Stores `value` under the identity of `T` and returns the value of that
    /// type that was stored before, if any.
    pub fn insert<T: Any + Sync + Send>(&mut self, value: T) -> (r: Option<Arc<T>>)
        requires
            old(self).wf(),
        ensures
            final(self).wf(),
            final(self)@.protocol == old(self)@.protocol,
            exists|k: TypeId, v: AnyArc|
                #[trigger] old(self)@.entries.insert(k, v) == final(self)@.entries && (r is Some
                    ==> old(self)@.entries.contains_key(k)),
            old(self)@.entries == Map::<TypeId, AnyArc>::empty() ==> r is None,
    {
        let key = type_key::<T>();
        let prev = self.insert_entry(key, AnyArc::wrap(value));
        match prev {
            Some(a) => a.downcast::<T>(),
            None => None,
        }
    }

    /// Removes the value of type `T` and returns it, if one is stored.
    pub fn remove<T: Any + Sync + Send>(&mut self) -> (r: Option<Arc<T>>)
        requires
            old(self).wf(),
        ensures
            final(self).wf(),
            final(self)@.protocol == old(self)@.protocol,
            exists|k: TypeId|
                #[trigger] old(self)@.entries.remove(k) == final(self)@.entries && (r is Some
                    ==> old(self)@.entries.contains_key(k)),
            old(self)@.entries == Map::<TypeId, AnyArc>::empty() ==> r is None,
    {
        let key = type_key::<T>();
        match self.remove_entry(&key) {
            Some(a) => a.downcast::<T>(),
            None => None,
        }
    }

    /// Builder form of `insert`: stores `value` and returns the scope.
    pub fn with_scope<T: Any + Sync + Send>(self, value: T) -> (r: Scope)
        requires
            self.wf(),
        ensures
            r.wf(),
            r@.protocol == self@.protocol,
            exists|k: TypeId, v: AnyArc| #[trigger] self@.entries.insert(k, v) == r@.entries,
    {
        let mut s = self;
        let _ = s.insert(value);
        s
    }
}

/// Storing a value under one type identity leaves what is stored under any
/// other identity as it was.
pub proof fn insert_keeps_other_types(m: Map<TypeId, AnyArc>, k1: TypeId, k2: TypeId, v: AnyArc)
    requires
        k1 != k2,
    ensures
        lookup(m.insert(k1, v), k2) == lookup(m, k2),
{
}

/// Storing two values in a row under the same type identity keeps the
/// second, and the second store hands back the first.
pub proof fn insert_twice_returns_first(m: Map<TypeId, AnyArc>, k: TypeId, v1: AnyArc, v2: AnyArc)
    ensures
        lookup(m.insert(k, v1), k) == Some(v1),
        m.insert(k, v1).insert(k, v2) == m.insert(k, v2),
{
    assert(m.insert(k, v1).insert(k, v2) =~= m.insert(k, v2));
}

/// Removing twice in a row under the same type identity hands back what was
/// stored, then nothing.
pub proof fn remove_twice(m: Map<TypeId, AnyArc>, k: TypeId)
    ensures
        lookup(m, k) == (if m.contains_key(k) { Some(m[k]) } else { None }),
        lookup(m.remove(k), k) is None,
        m.remove(k).remove(k) == m.remove(k),
{
    assert(m.remove(k).remove(k) =~= m.remove(k));
}

} // verus!
