//! The storage engine: a map from keys to values that never overwrites.
//!
//! A [`Store`] is modelled by the `Map` of its pairs. What each operation
//! does to that map, and what it answers, are the spec functions of this
//! module; the methods of [`Store`] compute them.

use std::collections::HashMap;
use std::hash::Hash;
use vstd::prelude::*;
use vstd::std_specs::hash::obeys_key_model;

verus! {

/// Whether an operation on the store was carried out.
#[derive(Clone, Copy, Debug, PartialEq, Eq, Structural)]
pub enum ExecResult {
    /// The operation was carried out.
    Success,
    /// The operation was refused, and the store is as it was.
    Failed,
}

/// The pairs after `key` was set to `value`: a key that is there keeps its
/// value.
pub open spec fn after_set<A, B>(pairs: Map<A, B>, key: A, value: B) -> Map<A, B> {
    if pairs.contains_key(key) {
        pairs
    } else {
        pairs.insert(key, value)
    }
}

/// What setting `key` answers: it fails exactly where the key is there.
pub open spec fn set_result<A, B>(pairs: Map<A, B>, key: A) -> ExecResult {
    if pairs.contains_key(key) {
        ExecResult::Failed
    } else {
        ExecResult::Success
    }
}

/// The pairs after `key` was deleted.
pub open spec fn after_del<A, B>(pairs: Map<A, B>, key: A) -> Map<A, B> {
    pairs.remove(key)
}

/// What deleting `key` answers: it fails exactly where the key is not there.
pub open spec fn del_result<A, B>(pairs: Map<A, B>, key: A) -> ExecResult {
    if pairs.contains_key(key) {
        ExecResult::Success
    } else {
        ExecResult::Failed
    }
}

/// What is stored under `key`: its value, or a failure where the key is not
/// there.
pub open spec fn stored<A, B>(pairs: Map<A, B>, key: A) -> Result<B, ExecResult> {
    if pairs.contains_key(key) {
        Ok(pairs[key])
    } else {
        Err(ExecResult::Failed)
    }
}

/// Whether `got` is what a read may hand out for `held`: the same failure,
/// or a duplicate of the value.
pub open spec fn duplicates<B: Clone>(
    held: Result<B, ExecResult>,
    got: Result<B, ExecResult>,
) -> bool {
    match (held, got) {
        (Ok(value), Ok(copy)) => cloned(value, copy),
        (Err(e), Err(f)) => e == f,
        _ => false,
    }
}

/// The storage engine: key-value pairs in a hash table.
///
/// What the methods promise, they promise for key types that are sound as
/// keys of a hash table, `obeys_key_model`: keys that `==` calls equal are
/// the same value, and a key always hashes to the same.
pub struct Store<A, B> {
    storage: HashMap<A, B>,
}

impl<A, B> View for Store<A, B> {
    type V = Map<A, B>;

    closed spec fn view(&self) -> Map<A, B> {
        self.storage@
    }
}

impl<A: Hash + Eq, B: Clone> Store<A, B> {
    /// An empty store.
    pub fn new() -> (store: Self)
        ensures
            store@ == Map::<A, B>::empty(),
    {
        Self { storage: HashMap::new() }
    }

    /// Stores `value` under `key`, unless the key is in use: then nothing
    /// changes and the call fails.
    pub fn set(&mut self, key: A, value: B) -> (result: ExecResult)
        ensures
            obeys_key_model::<A>() ==> final(self)@ == after_set(old(self)@, key, value),
            obeys_key_model::<A>() ==> result == set_result(old(self)@, key),
    {
        broadcast use vstd::std_specs::hash::group_hash_axioms;

        if self.storage.contains_key(&key) {
            ExecResult::Failed
        } else {
            self.storage.insert(key, value);
            ExecResult::Success
        }
    }

    /// A duplicate of the value under `key`; fails where the key is not in
    /// use.
    pub fn get(&self, key: A) -> (result: Result<B, ExecResult>)
        ensures
            obeys_key_model::<A>() ==> duplicates(stored(self@, key), result),
    {
        broadcast use vstd::std_specs::hash::group_hash_axioms;

        match self.storage.get(&key) {
            None => Err(ExecResult::Failed),
            Some(value) => Ok(value.clone()),
        }
    }

    /// Removes `key` and its value; fails where the key is not in use.
    pub fn del(&mut self, key: A) -> (result: ExecResult)
        ensures
            obeys_key_model::<A>() ==> final(self)@ == after_del(old(self)@, key),
            obeys_key_model::<A>() ==> result == del_result(old(self)@, key),
    {
        broadcast use vstd::std_specs::hash::group_hash_axioms;

        match self.storage.remove(&key) {
            Some(_) => ExecResult::Success,
            None => ExecResult::Failed,
        }
    }
}

/// Whether a duplicate of a `B` always equals what it was made from.
pub open spec fn duplicates_exactly<B: Clone>() -> bool {
    forall|value: B, copy: B| #[trigger] cloned(value, copy) ==> value == copy
}

/// Nothing can be read from an empty store: every read fails.
pub proof fn lemma_empty_store_holds_nothing<A, B: Clone>(key: A, got: Result<B, ExecResult>)
    requires
        duplicates(stored(Map::<A, B>::empty(), key), got),
    ensures
        got == Err::<B, ExecResult>(ExecResult::Failed),
{
}

/// Setting a key touches no pair that is there: every key in use keeps its
/// value, and no key but the one set comes into use.
pub proof fn lemma_set_keeps_pairs<A, B>(pairs: Map<A, B>, key: A, value: B, other: A)
    ensures
        pairs.contains_key(other) ==> after_set(pairs, key, value).contains_key(other)
            && after_set(pairs, key, value)[other] == pairs[other],
        other != key ==> (after_set(pairs, key, value).contains_key(other) <==> pairs.contains_key(
            other,
        )),
        after_set(pairs, key, value).contains_key(key),
{
}

/// A key is set once: setting a free key succeeds, setting it again fails
/// and changes nothing, and a read then hands out the first value.
pub proof fn lemma_set_never_overwrites<A, B: Clone>(
    pairs: Map<A, B>,
    key: A,
    first: B,
    second: B,
    got: Result<B, ExecResult>,
)
    requires
        !pairs.contains_key(key),
        duplicates(stored(after_set(after_set(pairs, key, first), key, second), key), got),
    ensures
        set_result(pairs, key) == ExecResult::Success,
        set_result(after_set(pairs, key, first), key) == ExecResult::Failed,
        after_set(after_set(pairs, key, first), key, second) == after_set(pairs, key, first),
        stored(after_set(pairs, key, first), key) == Ok::<B, ExecResult>(first),
        got matches Ok(copy) && cloned(first, copy),
        duplicates_exactly::<B>() ==> got == Ok::<B, ExecResult>(first),
{
}

/// Deleting a key that is not in use fails and changes nothing.
pub proof fn lemma_del_of_free_key_fails<A, B>(pairs: Map<A, B>, key: A)
    requires
        !pairs.contains_key(key),
    ensures
        del_result(pairs, key) == ExecResult::Failed,
        after_del(pairs, key) == pairs,
{
}

/// Deleting undoes setting: after a free key was set, deleting it succeeds
/// and leaves the pairs as they were, and a read of the key then fails.
pub proof fn lemma_del_undoes_set<A, B: Clone>(
    pairs: Map<A, B>,
    key: A,
    value: B,
    got: Result<B, ExecResult>,
)
    requires
        !pairs.contains_key(key),
        duplicates(stored(after_del(after_set(pairs, key, value), key), key), got),
    ensures
        set_result(pairs, key) == ExecResult::Success,
        del_result(after_set(pairs, key, value), key) == ExecResult::Success,
        after_del(after_set(pairs, key, value), key) == pairs,
        got == Err::<B, ExecResult>(ExecResult::Failed),
{
}

/// Deleting a key leaves every other pair as it was.
pub proof fn lemma_del_keeps_other_pairs<A, B>(pairs: Map<A, B>, key: A, other: A)
    requires
        other != key,
    ensures
        after_del(pairs, key).contains_key(other) <==> pairs.contains_key(other),
        pairs.contains_key(other) ==> after_del(pairs, key)[other] == pairs[other],
        !after_del(pairs, key).contains_key(key),
{
}

/// Reading is repeatable: two reads of a key from the same pairs both fail,
/// or both hand out a duplicate of the one value; where duplicates are
/// exact, the two reads hand out the same.
pub proof fn lemma_get_is_repeatable<A, B: Clone>(
    pairs: Map<A, B>,
    key: A,
    first: Result<B, ExecResult>,
    second: Result<B, ExecResult>,
)
    requires
        duplicates(stored(pairs, key), first),
        duplicates(stored(pairs, key), second),
    ensures
        first is Ok <==> pairs.contains_key(key),
        first is Ok <==> second is Ok,
        first is Err ==> first == second,
        first matches Ok(copy) ==> cloned(pairs[key], copy),
        second matches Ok(copy) ==> cloned(pairs[key], copy),
        duplicates_exactly::<B>() ==> first == second,
{
}

} // verus!
