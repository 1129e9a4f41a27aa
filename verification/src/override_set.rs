use crate::errors::OFTError;
use crate::keys::OverrideKey;
use vstd::prelude::*;

verus! {

/// What a batch asks for one key.
#[derive(Clone, Copy, Debug, PartialEq, Eq, Structural)]
pub enum RateLimitOverrideAction {
    Add,
    Remove,
}

/// The list that results from adding `key` to `entries` under a limit of
/// `capacity` entries, or the reason why nothing is added. A full list is
/// reported before a duplicate.
pub open spec fn add_outcome<K>(entries: Seq<K>, capacity: nat, key: K) -> Result<Seq<K>, OFTError> {
    if entries.len() >= capacity {
        Err(OFTError::RateLimitOverrideListFull)
    } else if entries.contains(key) {
        Err(OFTError::AlreadyInOverrideList)
    } else {
        Ok(entries.push(key))
    }
}

/// The list that results from removing `key` from `entries`: the last entry
/// moves into the place of `key` and the list loses its last slot.
pub open spec fn remove_outcome<K>(entries: Seq<K>, key: K) -> Result<Seq<K>, OFTError> {
    if entries.contains(key) {
        Ok(entries.update(entries.index_of(key), entries.last()).drop_last())
    } else {
        Err(OFTError::NotInOverrideList)
    }
}

/// The outcome of one action on one key.
pub open spec fn step_outcome<K>(
    entries: Seq<K>,
    capacity: nat,
    action: RateLimitOverrideAction,
    key: K,
) -> Result<Seq<K>, OFTError> {
    match action {
        RateLimitOverrideAction::Add => add_outcome(entries, capacity, key),
        RateLimitOverrideAction::Remove => remove_outcome(entries, key),
    }
}

/// The outcome of a batch: `actions[i]` is applied to `keys[i]`, in order,
/// each step on the list that the steps before it left. The first step that
/// fails decides the error, and no later step is looked at.
pub open spec fn batch_outcome<K>(
    entries: Seq<K>,
    capacity: nat,
    actions: Seq<RateLimitOverrideAction>,
    keys: Seq<K>,
) -> Result<Seq<K>, OFTError>
    recommends
        actions.len() == keys.len(),
    decreases actions.len(),
{
    if actions.len() == 0 {
        Ok(entries)
    } else {
        match batch_outcome(entries, capacity, actions.drop_last(), keys.drop_last()) {
            Ok(reached) => step_outcome(reached, capacity, actions.last(), keys.last()),
            Err(e) => Err(e),
        }
    }
}

/// The list after one addition for each of `keys`, in order, where an addition
/// that is turned down leaves the list as it was.
pub open spec fn after_adds<K>(entries: Seq<K>, capacity: nat, keys: Seq<K>) -> Seq<K>
    decreases keys.len(),
{
    if keys.len() == 0 {
        entries
    } else {
        let reached = after_adds(entries, capacity, keys.drop_last());
        match add_outcome(reached, capacity, keys.last()) {
            Ok(next) => next,
            Err(_) => reached,
        }
    }
}

/// A bounded collection of distinct override keys. The order of its entries
/// carries no meaning.
pub struct OverrideSet<K> {
    entries: Vec<K>,
    capacity: u8,
}

impl<K> View for OverrideSet<K> {
    type V = Seq<K>;

    closed spec fn view(&self) -> Seq<K> {
        self.entries@
    }
}

impl<K> OverrideSet<K> {
    /// The limit on the number of entries, fixed when the set is made.
    pub closed spec fn spec_capacity(&self) -> nat {
        self.capacity as nat
    }

    /// The set stays within its capacity and holds no key twice.
    pub open spec fn wf(&self) -> bool {
        &&& self@.len() <= self.spec_capacity()
        &&& self@.no_duplicates()
    }

    /// The keys of the set, without their order.
    pub open spec fn keys(&self) -> Set<K> {
        self@.to_set()
    }
}

impl<K: OverrideKey> OverrideSet<K> {
    /// An empty set that may grow to `capacity` entries.
    pub fn new(capacity: u8) -> (set: Self)
        ensures
            set@ == Seq::<K>::empty(),
            set.spec_capacity() == capacity,
            set.wf(),
    {
        OverrideSet { entries: Vec::new(), capacity }
    }

    /// The largest number of entries the set may hold.
    pub fn capacity(&self) -> (capacity: u8)
        ensures
            capacity == self.spec_capacity(),
    {
        self.capacity
    }

    /// The number of entries the set holds.
    pub fn len(&self) -> (len: usize)
        ensures
            len == self@.len(),
    {
        self.entries.len()
    }

    /// The entries in the order in which the set holds them.
    pub fn entries(&self) -> (entries: &Vec<K>)
        ensures
            entries@ == self@,
    {
        &self.entries
    }

    /// The index of the first entry equal to `key`.
    fn position(&self, key: &K) -> (found: Option<usize>)
        ensures
            match found {
                Some(i) => i < self@.len() && self@[i as int] == *key && forall|j: int|
                    0 <= j < i ==> self@[j] != *key,
                None => !self@.contains(*key),
            },
    {
        let mut i: usize = 0;
        while i < self.entries.len()
            invariant
                i <= self.entries@.len(),
                forall|j: int| 0 <= j < i ==> self.entries@[j] != *key,
            decreases self.entries@.len() - i,
        {
            if self.entries[i].same(key) {
                return Some(i);
            }
            i += 1;
        }
        None
    }

    /// Exact membership test.
    pub fn contains(&self, key: &K) -> (found: bool)
        ensures
            found == self@.contains(*key),
    {
        self.position(key).is_some()
    }

    /// Adds `key`, unless the set is full or already holds it; a failed
    /// addition changes nothing.
    pub fn add(&mut self, key: K) -> (result: Result<(), OFTError>)
        requires
            old(self).wf(),
        ensures
            final(self).wf(),
            final(self).spec_capacity() == old(self).spec_capacity(),
            match add_outcome(old(self)@, old(self).spec_capacity(), key) {
                Ok(entries) => result == Ok::<(), OFTError>(()) && final(self)@ == entries,
                Err(e) => result == Err::<(), OFTError>(e) && *final(self) == *old(self),
            },
            result.is_ok() ==> final(self).keys() == old(self).keys().insert(key),
            result.is_ok() ==> final(self)@.len() == old(self)@.len() + 1,
    {
        if self.entries.len() >= self.capacity as usize {
            return Err(OFTError::RateLimitOverrideListFull);
        }
        if self.contains(&key) {
            return Err(OFTError::AlreadyInOverrideList);
        }
        self.entries.push(key);
        proof {
            lemma_push_fresh(old(self)@, key);
        }
        Ok(())
    }

    /// Removes `key` by moving the last entry into its place; a removal of
    /// an absent key changes nothing.
    pub fn remove(&mut self, key: &K) -> (result: Result<(), OFTError>)
        requires
            old(self).wf(),
        ensures
            final(self).wf(),
            final(self).spec_capacity() == old(self).spec_capacity(),
            match remove_outcome(old(self)@, *key) {
                Ok(entries) => result == Ok::<(), OFTError>(()) && final(self)@ == entries,
                Err(e) => result == Err::<(), OFTError>(e) && *final(self) == *old(self),
            },
            result.is_ok() ==> final(self).keys() == old(self).keys().remove(*key),
            result.is_ok() ==> final(self)@.len() == old(self)@.len() - 1,
            result.is_ok() ==> !final(self)@.contains(*key),
    {
        match self.position(key) {
            None => Err(OFTError::NotInOverrideList),
            Some(index) => {
                proof {
                    lemma_swap_remove(old(self)@, *key);
                    assert(old(self)@.index_of(*key) == index);
                }
                self.entries.swap_remove(index);
                Ok(())
            },
        }
    }

    /// A copy of the set, entry by entry.
    pub fn snapshot(&self) -> (copy: Self)
        ensures
            copy@ == self@,
            copy.spec_capacity() == self.spec_capacity(),
    {
        let mut entries: Vec<K> = Vec::new();
        let mut i: usize = 0;
        while i < self.entries.len()
            invariant
                i <= self.entries@.len(),
                entries@ == self.entries@.take(i as int),
            decreases self.entries@.len() - i,
        {
            entries.push(self.entries[i]);
            assert(entries@ =~= self.entries@.take(i + 1));
            i += 1;
        }
        assert(entries@ =~= self.entries@);
        OverrideSet { entries, capacity: self.capacity }
    }
}

/// Appending a key that a duplicate-free list lacks keeps it duplicate-free
/// and adds exactly that key to its key set.
pub proof fn lemma_push_fresh<K>(entries: Seq<K>, key: K)
    requires
        entries.no_duplicates(),
        !entries.contains(key),
    ensures
        entries.push(key).no_duplicates(),
        entries.push(key).to_set() == entries.to_set().insert(key),
        entries.push(key).contains(key),
{
    let pushed = entries.push(key);
    assert(pushed[entries.len() as int] == key);
    assert forall|i: int, j: int| 0 <= i < pushed.len() && 0 <= j < pushed.len() && i != j implies pushed[i] != pushed[j] by {
        if i < entries.len() {
            assert(entries.contains(pushed[i]));
        }
        if j < entries.len() {
            assert(entries.contains(pushed[j]));
        }
    }
    assert forall|k: K| pushed.to_set().contains(k) <==> entries.to_set().insert(key).contains(k) by {
        if pushed.contains(k) {
            let i = choose|i: int| 0 <= i < pushed.len() && pushed[i] == k;
            if i < entries.len() {
                assert(entries[i] == k);
            }
        }
        if entries.contains(k) {
            let i = choose|i: int| 0 <= i < entries.len() && entries[i] == k;
            assert(pushed[i] == k);
        }
    }
    assert(pushed.to_set() =~= entries.to_set().insert(key));
}

/// Removing a present key from a duplicate-free list by moving the last
/// entry into its place keeps the list duplicate-free, takes exactly that key
/// out of its key set and shortens it by one.
pub proof fn lemma_swap_remove<K>(entries: Seq<K>, key: K)
    requires
        entries.no_duplicates(),
        entries.contains(key),
    ensures
        0 <= entries.index_of(key) < entries.len(),
        entries[entries.index_of(key)] == key,
        forall|i: int| 0 <= i < entries.len() && entries[i] == key ==> i == entries.index_of(key),
        remove_outcome(entries, key).is_ok(),
        remove_outcome(entries, key).unwrap().no_duplicates(),
        remove_outcome(entries, key).unwrap().len() == entries.len() - 1,
        !remove_outcome(entries, key).unwrap().contains(key),
        remove_outcome(entries, key).unwrap().to_set() == entries.to_set().remove(key),
{
    let at = entries.index_of(key);
    let last = entries.len() - 1;
    let rest = entries.update(at, entries.last()).drop_last();
    assert(remove_outcome(entries, key) == Ok::<Seq<K>, OFTError>(rest));
    assert forall|i: int| 0 <= i < rest.len() implies rest[i] == (if i == at {
        entries[last]
    } else {
        entries[i]
    }) by {}
    assert forall|i: int, j: int| 0 <= i < rest.len() && 0 <= j < rest.len() && i != j implies rest[i] != rest[j] by {}
    assert forall|i: int| 0 <= i < rest.len() implies rest[i] != key by {}
    assert forall|k: K| rest.to_set().contains(k) <==> entries.to_set().remove(key).contains(k) by {
        if rest.contains(k) {
            let i = choose|i: int| 0 <= i < rest.len() && rest[i] == k;
            if i == at {
                assert(entries[last] == k);
            } else {
                assert(entries[i] == k);
            }
        }
        if entries.contains(k) && k != key {
            let i = choose|i: int| 0 <= i < entries.len() && entries[i] == k;
            if i == last {
                assert(rest[at] == k);
            } else {
                assert(rest[i] == k);
            }
        }
    }
    assert(rest.to_set() =~= entries.to_set().remove(key));
}

/// One step keeps a well-formed list well-formed.
pub proof fn lemma_step_keeps_wf<K>(
    entries: Seq<K>,
    capacity: nat,
    action: RateLimitOverrideAction,
    key: K,
)
    requires
        entries.len() <= capacity,
        entries.no_duplicates(),
    ensures
        match step_outcome(entries, capacity, action, key) {
            Ok(next) => next.len() <= capacity && next.no_duplicates(),
            Err(_) => true,
        },
{
    match action {
        RateLimitOverrideAction::Add => {
            if entries.len() < capacity && !entries.contains(key) {
                lemma_push_fresh(entries, key);
            }
        },
        RateLimitOverrideAction::Remove => {
            if entries.contains(key) {
                lemma_swap_remove(entries, key);
            }
        },
    }
}

/// Every list that a batch can reach from a well-formed list is well-formed:
/// within capacity and free of duplicates.
pub proof fn lemma_batch_keeps_wf<K>(
    entries: Seq<K>,
    capacity: nat,
    actions: Seq<RateLimitOverrideAction>,
    keys: Seq<K>,
)
    requires
        entries.len() <= capacity,
        entries.no_duplicates(),
        actions.len() == keys.len(),
    ensures
        match batch_outcome(entries, capacity, actions, keys) {
            Ok(reached) => reached.len() <= capacity && reached.no_duplicates(),
            Err(_) => true,
        },
    decreases actions.len(),
{
    if actions.len() > 0 {
        lemma_batch_keeps_wf(entries, capacity, actions.drop_last(), keys.drop_last());
        match batch_outcome(entries, capacity, actions.drop_last(), keys.drop_last()) {
            Ok(reached) => lemma_step_keeps_wf(reached, capacity, actions.last(), keys.last()),
            Err(_) => {},
        }
    }
}

/// The outcome of the first `n + 1` steps is the outcome of the first `n`
/// followed by step `n`.
pub proof fn lemma_batch_next<K>(
    entries: Seq<K>,
    capacity: nat,
    actions: Seq<RateLimitOverrideAction>,
    keys: Seq<K>,
    n: int,
)
    requires
        actions.len() == keys.len(),
        0 <= n < actions.len(),
    ensures
        batch_outcome(entries, capacity, actions.take(n + 1), keys.take(n + 1)) == (match batch_outcome(
            entries,
            capacity,
            actions.take(n),
            keys.take(n),
        ) {
            Ok(reached) => step_outcome(reached, capacity, actions[n], keys[n]),
            Err(e) => Err(e),
        }),
{
    assert(actions.take(n + 1).drop_last() =~= actions.take(n));
    assert(keys.take(n + 1).drop_last() =~= keys.take(n));
}

/// A batch fails with the error of its first failing step: once a prefix of
/// the batch has failed, the whole batch fails in the same way.
pub proof fn lemma_batch_fails_with_prefix<K>(
    entries: Seq<K>,
    capacity: nat,
    actions: Seq<RateLimitOverrideAction>,
    keys: Seq<K>,
    n: int,
)
    requires
        actions.len() == keys.len(),
        0 <= n <= actions.len(),
        batch_outcome(entries, capacity, actions.take(n), keys.take(n)).is_err(),
    ensures
        batch_outcome(entries, capacity, actions, keys) == batch_outcome(
            entries,
            capacity,
            actions.take(n),
            keys.take(n),
        ),
    decreases actions.len() - n,
{
    if n == actions.len() {
        assert(actions.take(n) =~= actions);
        assert(keys.take(n) =~= keys);
    } else {
        lemma_batch_next(entries, capacity, actions, keys, n);
        lemma_batch_fails_with_prefix(entries, capacity, actions, keys, n + 1);
    }
}

/// A step that fails after the steps before it went through fails the whole
/// batch, with the error of that step.
pub proof fn lemma_failed_step_fails_batch<K>(
    entries: Seq<K>,
    capacity: nat,
    actions: Seq<RateLimitOverrideAction>,
    keys: Seq<K>,
    n: int,
)
    requires
        actions.len() == keys.len(),
        0 <= n < actions.len(),
        batch_outcome(entries, capacity, actions.take(n), keys.take(n)).is_ok(),
        step_outcome(
            batch_outcome(entries, capacity, actions.take(n), keys.take(n)).unwrap(),
            capacity,
            actions[n],
            keys[n],
        ).is_err(),
    ensures
        batch_outcome(entries, capacity, actions, keys) == step_outcome(
            batch_outcome(entries, capacity, actions.take(n), keys.take(n)).unwrap(),
            capacity,
            actions[n],
            keys[n],
        ),
{
    lemma_batch_next(entries, capacity, actions, keys, n);
    lemma_batch_fails_with_prefix(entries, capacity, actions, keys, n + 1);
}

/// A batch that goes through has gone through at every step: each of its
/// prefixes succeeds.
pub proof fn lemma_batch_ok_at_every_step<K>(
    entries: Seq<K>,
    capacity: nat,
    actions: Seq<RateLimitOverrideAction>,
    keys: Seq<K>,
    n: int,
)
    requires
        actions.len() == keys.len(),
        0 <= n <= actions.len(),
        batch_outcome(entries, capacity, actions, keys).is_ok(),
    ensures
        batch_outcome(entries, capacity, actions.take(n), keys.take(n)).is_ok(),
{
    if batch_outcome(entries, capacity, actions.take(n), keys.take(n)).is_err() {
        lemma_batch_fails_with_prefix(entries, capacity, actions, keys, n);
    }
}

/// Adding keys that are distinct from each other and from the entries
/// already held, as long as all of them fit, succeeds and appends them in
/// order: the list grows by the number of keys and holds each of them.
pub proof fn lemma_adds_up_to_capacity<K>(
    entries: Seq<K>,
    capacity: nat,
    actions: Seq<RateLimitOverrideAction>,
    keys: Seq<K>,
)
    requires
        actions.len() == keys.len(),
        forall|i: int| 0 <= i < actions.len() ==> actions[i] == RateLimitOverrideAction::Add,
        (entries + keys).no_duplicates(),
        entries.len() + keys.len() <= capacity,
    ensures
        batch_outcome(entries, capacity, actions, keys) == Ok::<Seq<K>, OFTError>(entries + keys),
        (entries + keys).len() == entries.len() + keys.len(),
        forall|i: int| 0 <= i < keys.len() ==> (entries + keys).contains(#[trigger] keys[i]),
    decreases actions.len(),
{
    let all = entries + keys;
    assert forall|i: int| 0 <= i < keys.len() implies all.contains(#[trigger] keys[i]) by {
        assert(all[entries.len() + i] == keys[i]);
    }
    if actions.len() == 0 {
        assert(all =~= entries);
    } else {
        let fewer = keys.drop_last();
        let before = entries + fewer;
        assert(before =~= all.drop_last());
        assert forall|i: int, j: int| 0 <= i < before.len() && 0 <= j < before.len() && i != j implies before[i] != before[j] by {
            assert(before[i] == all[i] && before[j] == all[j]);
        }
        lemma_adds_up_to_capacity(entries, capacity, actions.drop_last(), fewer);
        assert(!before.contains(keys.last())) by {
            if before.contains(keys.last()) {
                let i = choose|i: int| 0 <= i < before.len() && before[i] == keys.last();
                assert(all[i] == all[all.len() - 1]);
            }
        }
        assert(before.push(keys.last()) =~= all);
    }
}

/// However often a key is named, additions count each key once: as long as
/// the distinct keys fit, the list ends up holding exactly the keys it held
/// before and the keys added, each of them once.
pub proof fn lemma_adds_count_unique_keys<K>(entries: Seq<K>, capacity: nat, keys: Seq<K>)
    requires
        entries.no_duplicates(),
        entries.to_set().union(keys.to_set()).len() <= capacity,
    ensures
        after_adds(entries, capacity, keys).no_duplicates(),
        after_adds(entries, capacity, keys).to_set() == entries.to_set().union(keys.to_set()),
        after_adds(entries, capacity, keys).len() == entries.to_set().union(keys.to_set()).len(),
        forall|i: int|
            0 <= i < keys.len() ==> after_adds(entries, capacity, keys).contains(#[trigger] keys[i]),
    decreases keys.len(),
{
    broadcast use vstd::set::group_set_axioms, vstd::seq_lib::seq_to_set_is_finite;

    let all = entries.to_set().union(keys.to_set());
    let after = after_adds(entries, capacity, keys);
    if keys.len() == 0 {
        assert(keys.to_set() =~= Set::<K>::empty());
        assert(all =~= entries.to_set());
    } else {
        let fewer = keys.drop_last();
        let key = keys.last();
        let sofar = entries.to_set().union(fewer.to_set());
        let reached = after_adds(entries, capacity, fewer);
        assert(keys.to_set() =~= fewer.to_set().insert(key)) by {
            assert forall|k: K| keys.to_set().contains(k) <==> fewer.to_set().insert(key).contains(
                k,
            ) by {
                if keys.contains(k) {
                    let i = choose|i: int| 0 <= i < keys.len() && keys[i] == k;
                    if i < fewer.len() {
                        assert(fewer[i] == k);
                    }
                }
                if fewer.contains(k) {
                    let i = choose|i: int| 0 <= i < fewer.len() && fewer[i] == k;
                    assert(keys[i] == k);
                }
                assert(keys[keys.len() - 1] == key);
            }
        }
        assert(all =~= sofar.insert(key));
        assert(sofar.subset_of(all));
        vstd::set_lib::lemma_len_subset(sofar, all);
        lemma_adds_count_unique_keys(entries, capacity, fewer);
        if reached.contains(key) {
            assert(all =~= sofar);
        } else {
            assert(all.len() == sofar.len() + 1);
            lemma_push_fresh(reached, key);
            assert(after == reached.push(key));
        }
    }
    after.unique_seq_to_set();
    assert forall|i: int| 0 <= i < keys.len() implies after.contains(#[trigger] keys[i]) by {
        assert(keys.contains(keys[i]));
        assert(all.contains(keys[i]));
        assert(after.to_set().contains(keys[i]));
    }
}

} // verus!
