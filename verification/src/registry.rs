//! The script registry: script sources by identifier, each with the time of
//! its last use. Entries that were not used for longer than the registry's
//! time to live leave when the next script is stored.

use crate::clock::{millis_to_nanos, Clock};
use crate::ident::ScriptId;
use std::collections::HashMap;
use vstd::prelude::*;
use vstd::std_specs::hash::*;
use vstd::std_specs::iter::IteratorSpec;

verus! {

/// A script's source and the clock reading of its last use.
pub struct StoredScript {
    pub source: String,
    pub last_accessed: u128,
}

/// What the registry holds of one script.
pub ghost struct Entry {
    pub source: Seq<char>,
    pub last_accessed: nat,
}

/// An entry last used at `last_accessed` is stale at `now` when more than
/// `ttl` has passed since.
pub open spec fn is_stale(last_accessed: nat, ttl: nat, now: nat) -> bool {
    last_accessed + ttl < now
}

/// The registry as a value: its time to live in nanoseconds and its entries
/// by identifier.
pub ghost struct RegistryView {
    pub ttl: nat,
    pub entries: Map<u128, Entry>,
}

impl RegistryView {
    /// The source stored under `id`, if any.
    pub open spec fn source_of(self, id: u128) -> Option<Seq<char>> {
        if self.entries.contains_key(id) {
            Some(self.entries[id].source)
        } else {
            None
        }
    }

    /// The registry without the entries that are stale at `now`.
    pub open spec fn evicted(self, now: nat) -> RegistryView {
        RegistryView {
            ttl: self.ttl,
            entries: Map::new(
                |k: u128|
                    self.entries.contains_key(k) && !is_stale(
                        self.entries[k].last_accessed,
                        self.ttl,
                        now,
                    ),
                |k: u128| self.entries[k],
            ),
        }
    }

    /// The registry after `source` was stored under `id` at `now`: the stale
    /// entries are gone and the new one is in.
    pub open spec fn stored(self, id: u128, source: Seq<char>, now: nat) -> RegistryView {
        RegistryView {
            ttl: self.ttl,
            entries: self.evicted(now).entries.insert(id, Entry { source, last_accessed: now }),
        }
    }

    /// The registry after `id` was looked up at `now`: an entry under `id`
    /// counts as used at `now`, and nothing else changes.
    pub open spec fn touched(self, id: u128, now: nat) -> RegistryView {
        if self.entries.contains_key(id) {
            RegistryView {
                ttl: self.ttl,
                entries: self.entries.insert(
                    id,
                    Entry { source: self.entries[id].source, last_accessed: now },
                ),
            }
        } else {
            self
        }
    }

    /// The registry without the entry under `id`.
    pub open spec fn removed(self, id: u128) -> RegistryView {
        RegistryView { ttl: self.ttl, entries: self.entries.remove(id) }
    }
}

/// The entry that stands for a stored script.
pub open spec fn entry_of(script: StoredScript) -> Entry {
    Entry { source: script.source@, last_accessed: script.last_accessed as nat }
}

/// The registry: its time to live in nanoseconds, the clock it reads, and
/// the scripts by the value of their identifier.
pub struct ScriptRegistry {
    ttl: u128,
    clock: Clock,
    scripts: HashMap<u128, StoredScript>,
}

impl View for ScriptRegistry {
    type V = RegistryView;

    closed spec fn view(&self) -> RegistryView {
        RegistryView {
            ttl: self.ttl as nat,
            entries: self.scripts@.map_values(|s: StoredScript| entry_of(s)),
        }
    }
}

fn stale(last_accessed: u128, ttl: u128, now: u128) -> (b: bool)
    ensures
        b == is_stale(last_accessed as nat, ttl as nat, now as nat),
{
    now > last_accessed && now - last_accessed > ttl
}

impl ScriptRegistry {
    /// An empty registry whose entries live `ttl_millis` milliseconds after
    /// their last use.
    pub fn new(ttl_millis: u64) -> (registry: ScriptRegistry)
        ensures
            registry@.ttl == ttl_millis * 1_000_000,
            registry@.entries == Map::<u128, Entry>::empty(),
    {
        let registry = ScriptRegistry {
            ttl: millis_to_nanos(ttl_millis),
            clock: Clock::start(),
            scripts: HashMap::new(),
        };
        assert(registry@.entries =~= Map::<u128, Entry>::empty());
        registry
    }

    /// Stores `script` under `id` at the clock reading `now`. Entries that
    /// are stale at `now` leave first; an entry that `id` already had is
    /// replaced.
    pub fn store_at(&mut self, id: ScriptId, script: String, now: u128)
        ensures
            final(self)@ == old(self)@.stored(id.value, script@, now as nat),
    {
        broadcast use group_hash_axioms;

        let victims = self.stale_ids(now);
        let ghost start = self.scripts@;
        assert forall|k: u128|
            victims@.contains(k) <==> start.contains_key(k) && is_stale(
                start[k].last_accessed as nat,
                self.ttl as nat,
                now as nat,
            ) by {
            assert(self@.entries.contains_key(k) <==> start.contains_key(k));
        }
        let mut i: usize = 0;
        while i < victims.len()
            invariant
                i <= victims.len(),
                self.ttl == old(self).ttl,
                start == old(self).scripts@,
                forall|k: u128|
                    victims@.contains(k) <==> start.contains_key(k) && is_stale(
                        start[k].last_accessed as nat,
                        self.ttl as nat,
                        now as nat,
                    ),
                forall|k: u128|
                    self.scripts@.contains_key(k) <==> start.contains_key(k)
                        && !victims@.take(i as int).contains(k),
                forall|k: u128| self.scripts@.contains_key(k) ==> self.scripts@[k] == start[k],
            decreases victims.len() - i,
        {
            let key = victims[i];
            let ghost gone = victims@.take(i as int);
            let ghost prev = self.scripts@;
            let _ = self.scripts.remove(&key);
            i += 1;
            proof {
                let next = victims@.take(i as int);
                assert(next =~= gone.push(key));
                assert(self.scripts@ == prev.remove(key));
                assert forall|k: u128|
                    self.scripts@.contains_key(k) <==> start.contains_key(k) && !next.contains(
                        k,
                    ) by {
                    assert(prev.contains_key(k) <==> start.contains_key(k) && !gone.contains(k));
                    assert(self.scripts@.contains_key(k) <==> prev.contains_key(k) && k != key);
                    if next.contains(k) {
                        let j = choose|j: int| 0 <= j < next.len() && next[j] == k;
                        if j < gone.len() {
                            assert(gone[j] == k);
                        }
                    }
                    if gone.contains(k) {
                        let j = choose|j: int| 0 <= j < gone.len() && gone[j] == k;
                        assert(next[j] == k);
                    }
                    assert(next[gone.len() as int] == key);
                }
            }
        }
        proof {
            assert(victims@.take(victims.len() as int) =~= victims@);
            let kept = old(self)@.evicted(now as nat).entries;
            assert forall|k: u128| self@.entries.contains_key(k) <==> kept.contains_key(k) by {
                assert(self@.entries.contains_key(k) <==> self.scripts@.contains_key(k));
                assert(old(self)@.entries.contains_key(k) <==> start.contains_key(k));
            }
            assert(self@.entries =~= kept);
        }
        let _ = self.scripts.insert(id.value, StoredScript { source: script, last_accessed: now });
        assert(self@.entries =~= old(self)@.stored(id.value, script@, now as nat).entries);
    }

    /// Looks `id` up at the clock reading `now`. What is found counts as
    /// used at `now`.
    pub fn get_at(&mut self, id: &ScriptId, now: u128) -> (source: Option<String>)
        ensures
            source.is_some() == old(self)@.entries.contains_key(id.value),
            source matches Some(text) ==> text@ == old(self)@.entries[id.value].source,
            final(self)@ == old(self)@.touched(id.value, now as nat),
    {
        broadcast use group_hash_axioms;

        match self.scripts.remove(&id.value) {
            Some(found) => {
                let source = found.source.clone();
                let _ = self.scripts.insert(
                    id.value,
                    StoredScript { source: found.source, last_accessed: now },
                );
                assert(self@.entries =~= old(self)@.touched(id.value, now as nat).entries);
                Some(source)
            },
            None => {
                assert(self.scripts@ =~= old(self).scripts@);
                None
            },
        }
    }

    /// Removes the entry under `id`, if there is one.
    pub fn remove(&mut self, id: &ScriptId)
        ensures
            final(self)@ == old(self)@.removed(id.value),
            !old(self)@.entries.contains_key(id.value) ==> final(self)@ == old(self)@,
    {
        broadcast use group_hash_axioms;

        let _ = self.scripts.remove(&id.value);
        assert(self@.entries =~= old(self)@.removed(id.value).entries);
        assert(!old(self)@.entries.contains_key(id.value) ==> self@.entries =~= old(self)@.entries);
    }

    /// Stores `script` under a new random identifier, at the present reading
    /// of the registry's clock, and returns the identifier. That reading is
    /// afterwards the time of the new entry's last use.
    pub fn store(&mut self, script: String) -> (id: ScriptId)
        ensures
            final(self)@.source_of(id.value) == Some(script@),
            final(self)@ == old(self)@.stored(
                id.value,
                script@,
                final(self)@.entries[id.value].last_accessed,
            ),
    {
        let id = ScriptId::fresh();
        let now = self.clock.now();
        self.store_at(id, script, now);
        id
    }

    /// Looks `id` up at the present reading of the registry's clock. What is
    /// found counts as used at that reading.
    pub fn get(&mut self, id: &ScriptId) -> (source: Option<String>)
        ensures
            source.is_some() == old(self)@.entries.contains_key(id.value),
            source matches Some(text) ==> text@ == old(self)@.entries[id.value].source,
            !old(self)@.entries.contains_key(id.value) ==> final(self)@ == old(self)@,
            old(self)@.entries.contains_key(id.value) ==> final(self)@ == old(self)@.touched(
                id.value,
                final(self)@.entries[id.value].last_accessed,
            ),
    {
        let now = self.clock.now();
        self.get_at(id, now)
    }

    /// The present reading of the registry's clock.
    pub fn now(&self) -> u128 {
        self.clock.now()
    }

    /// The number of entries.
    pub fn len(&self) -> (n: usize)
        ensures
            n == self@.entries.dom().len(),
    {
        broadcast use group_hash_axioms;

        assert(self@.entries.dom() =~= self.scripts@.dom());
        self.scripts.len()
    }

    /// The identifiers of the entries that are stale at `now`.
    fn stale_ids(&self, now: u128) -> (ids: Vec<u128>)
        ensures
            forall|k: u128|
                ids@.contains(k) <==> self@.entries.contains_key(k) && is_stale(
                    self@.entries[k].last_accessed,
                    self@.ttl,
                    now as nat,
                ),
    {
        broadcast use group_hash_axioms;

        let mut ids: Vec<u128> = Vec::new();
        let ttl = self.ttl;
        let ghost all: Seq<u128> = spec_keys_iter(&self.scripts).remaining().unref();
        let ghost mut done: int = 0;
        for k in it: self.scripts.keys()
            invariant
                ttl == self.ttl,
                it.seq().unref() == all,
                done == it.index(),
                all.to_set() == self.scripts@.dom(),
                forall|j: u128|
                    ids@.contains(j) <==> it.seq().unref().take(it.index() as int).contains(j)
                        && is_stale(
                        self.scripts@[j].last_accessed as nat,
                        ttl as nat,
                        now as nat,
                    ),
        {
            let ghost before = ids@;
            let ghost seen = it.seq().unref().take(it.index() as int);
            assert(it.seq().unref()[it.index() as int] == *k);
            assert(it.seq().unref().to_set().contains(*k));
            let key: u128 = *k;
            match self.scripts.get(&key) {
                Some(script) => {
                    if stale(script.last_accessed, ttl, now) {
                        ids.push(key);
                    }
                },
                None => {},
            }
            proof {
                let next = it.seq().unref().take(it.index() + 1);
                assert(next =~= seen.push(key));
                assert forall|j: u128|
                    ids@.contains(j) <==> next.contains(j) && is_stale(
                        self.scripts@[j].last_accessed as nat,
                        ttl as nat,
                        now as nat,
                    ) by {
                    if ids@.len() > before.len() {
                        assert(ids@ =~= before.push(key));
                        assert(ids@[before.len() as int] == key);
                    }
                    if next.contains(j) {
                        let i = choose|i: int| 0 <= i < next.len() && next[i] == j;
                        if i < seen.len() {
                            assert(seen[i] == j);
                        }
                    }
                    if seen.contains(j) {
                        let i = choose|i: int| 0 <= i < seen.len() && seen[i] == j;
                        assert(next[i] == j);
                    }
                    if j == key {
                        assert(next[seen.len() as int] == key);
                    }
                    if before.contains(j) {
                        let i = choose|i: int| 0 <= i < before.len() && before[i] == j;
                        assert(ids@[i] == j);
                    }
                }
                done = done + 1;
            }
        }
        proof {
            assert(done == all.len());
            assert(all.take(all.len() as int) =~= all);
            assert forall|k: u128|
                ids@.contains(k) <==> self@.entries.contains_key(k) && is_stale(
                    self@.entries[k].last_accessed,
                    self@.ttl,
                    now as nat,
                ) by {
                assert(all.contains(k) <==> all.to_set().contains(k));
            }
        }
        ids
    }
}

/// One operation on the registry, with the clock reading it was made at.
pub ghost enum RegistryOp {
    Store { id: u128, source: Seq<char>, now: nat },
    Get { id: u128, now: nat },
    Remove { id: u128 },
}

impl RegistryView {
    /// The registry after `op`.
    pub open spec fn apply(self, op: RegistryOp) -> RegistryView {
        match op {
            RegistryOp::Store { id, source, now } => self.stored(id, source, now),
            RegistryOp::Get { id, now } => self.touched(id, now),
            RegistryOp::Remove { id } => self.removed(id),
        }
    }

    /// The registry after the operations `ops`, the first of them first.
    pub open spec fn run(self, ops: Seq<RegistryOp>) -> RegistryView
        decreases ops.len(),
    {
        if ops.len() == 0 {
            self
        } else {
            self.run(ops.drop_last()).apply(ops.last())
        }
    }
}

/// The time of the last use of `id` after the operations `ops`, for an entry
/// that was stored at `stored_at` before them: the reading of the latest
/// lookup of `id` among them, or `stored_at` if there is none.
pub open spec fn last_use(stored_at: nat, id: u128, ops: Seq<RegistryOp>) -> nat
    decreases ops.len(),
{
    if ops.len() == 0 {
        stored_at
    } else {
        match ops.last() {
            RegistryOp::Get { id: other, now } if other == id => now,
            _ => last_use(stored_at, id, ops.drop_last()),
        }
    }
}

/// Whether the `j`-th of `ops` leaves alone an entry under `id` that was
/// stored at `stored_at` before them: it does not remove `id`, it stores
/// nothing else under `id`, and if it stores, then at a reading at which the
/// entry is not stale.
pub open spec fn leaves_alone(
    ops: Seq<RegistryOp>,
    j: int,
    id: u128,
    stored_at: nat,
    ttl: nat,
) -> bool {
    match ops[j] {
        RegistryOp::Store { id: other, source, now } => other != id && !is_stale(
            last_use(stored_at, id, ops.take(j)),
            ttl,
            now,
        ),
        RegistryOp::Get { id: other, now } => true,
        RegistryOp::Remove { id: other } => other != id,
    }
}

/// A stored script is found under its identifier, with the source it was
/// stored with, after any operations that neither remove it nor store under
/// its identifier again, as long as every store among them comes no later
/// than the time to live after the last use of the script.
pub proof fn lemma_stored_script_is_kept(
    registry: RegistryView,
    id: u128,
    source: Seq<char>,
    stored_at: nat,
    ops: Seq<RegistryOp>,
)
    requires
        forall|j: int| 0 <= j < ops.len() ==> leaves_alone(ops, j, id, stored_at, registry.ttl),
    ensures
        registry.stored(id, source, stored_at).run(ops).source_of(id) == Some(source),
        registry.stored(id, source, stored_at).run(ops).entries[id].last_accessed == last_use(
            stored_at,
            id,
            ops,
        ),
        registry.stored(id, source, stored_at).run(ops).ttl == registry.ttl,
    decreases ops.len(),
{
    if ops.len() > 0 {
        let before = ops.drop_last();
        let j = ops.len() - 1;
        assert forall|i: int| 0 <= i < before.len() implies leaves_alone(
            before,
            i,
            id,
            stored_at,
            registry.ttl,
        ) by {
            assert(leaves_alone(ops, i, id, stored_at, registry.ttl));
            assert(before.take(i) =~= ops.take(i));
        }
        lemma_stored_script_is_kept(registry, id, source, stored_at, before);
        assert(leaves_alone(ops, j, id, stored_at, registry.ttl));
        assert(ops.take(j) =~= before);
    }
}

/// A script that was removed is not found.
pub proof fn lemma_removed_script_is_gone(registry: RegistryView, id: u128)
    ensures
        registry.removed(id).source_of(id).is_none(),
{
}

/// A script that was not used for longer than the time to live is not found
/// once another script has been stored.
pub proof fn lemma_stale_script_is_evicted(
    registry: RegistryView,
    id: u128,
    other: u128,
    source: Seq<char>,
    now: nat,
)
    requires
        registry.entries.contains_key(id),
        is_stale(registry.entries[id].last_accessed, registry.ttl, now),
        other != id,
    ensures
        registry.stored(other, source, now).source_of(id).is_none(),
{
}

/// Looking up or removing an identifier that the registry does not hold
/// changes nothing, and the lookup finds nothing.
pub proof fn lemma_unknown_id(registry: RegistryView, id: u128, now: nat)
    requires
        !registry.entries.contains_key(id),
    ensures
        registry.source_of(id).is_none(),
        registry.touched(id, now) == registry,
        registry.removed(id) == registry,
{
    assert(registry.entries.remove(id) =~= registry.entries);
}

} // verus!
