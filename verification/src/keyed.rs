//! Tables keyed by text identifiers, at most one entry per key.

use vstd::prelude::*;
use crate::types::BlsPublicKey;

verus! {

/// No two entries have the same key.
pub open spec fn unique_keys<V>(entries: Seq<(String, V)>) -> bool {
    forall|i: int, j: int|
        0 <= i < entries.len() && 0 <= j < entries.len() && i != j ==>
            #[trigger] entries[i].0@ != #[trigger] entries[j].0@
}

/// Some entry has key `key`.
pub open spec fn contains_key<V>(entries: Seq<(String, V)>, key: Seq<char>) -> bool {
    exists|i: int| 0 <= i < entries.len() && #[trigger] entries[i].0@ == key
}

/// Position of the entry with key `key`.
pub open spec fn position_of<V>(entries: Seq<(String, V)>, key: Seq<char>) -> int {
    choose|i: int| 0 <= i < entries.len() && #[trigger] entries[i].0@ == key
}

/// The map the entries stand for.
pub open spec fn as_map<V>(entries: Seq<(String, V)>) -> Map<Seq<char>, V> {
    Map::new(|k: Seq<char>| contains_key(entries, k), |k: Seq<char>| entries[position_of(entries, k)].1)
}

/// With unique keys, entry `i` is the one its key finds.
pub proof fn lemma_position<V>(entries: Seq<(String, V)>, i: int)
    requires
        unique_keys(entries),
        0 <= i < entries.len(),
    ensures
        contains_key(entries, entries[i].0@),
        position_of(entries, entries[i].0@) == i,
{
    let k = entries[i].0@;
    assert(entries[i].0@ == k);
    let j = position_of(entries, k);
    assert(0 <= j < entries.len() && entries[j].0@ == k);
}

/// Unique keys give a finite domain of the same size.
pub proof fn lemma_map_len<V>(entries: Seq<(String, V)>)
    requires
        unique_keys(entries),
    ensures
        as_map(entries).dom().finite(),
        as_map(entries).dom().len() == entries.len(),
    decreases entries.len(),
{
    if entries.len() == 0 {
        assert(as_map(entries).dom() =~= Set::<Seq<char>>::empty());
    } else {
        let prefix = entries.drop_last();
        let last = entries.last();
        assert(unique_keys(prefix)) by {
            assert forall|i: int, j: int|
                0 <= i < prefix.len() && 0 <= j < prefix.len() && i != j implies
                #[trigger] prefix[i].0@ != #[trigger] prefix[j].0@ by {
                assert(entries[i].0@ != entries[j].0@);
            }
        }
        lemma_map_len(prefix);
        assert forall|k: Seq<char>| #[trigger] contains_key(entries, k) == (k == last.0@ || contains_key(prefix, k)) by {
            if contains_key(entries, k) {
                let w = choose|w: int| 0 <= w < entries.len() && #[trigger] entries[w].0@ == k;
                if w < prefix.len() {
                    assert(prefix[w].0@ == k);
                }
            }
            if contains_key(prefix, k) {
                let w = choose|w: int| 0 <= w < prefix.len() && #[trigger] prefix[w].0@ == k;
                assert(entries[w].0@ == k);
            }
            if k == last.0@ {
                assert(entries[entries.len() - 1].0@ == k);
            }
        }
        assert(!contains_key(prefix, last.0@)) by {
            if contains_key(prefix, last.0@) {
                let w = choose|w: int| 0 <= w < prefix.len() && #[trigger] prefix[w].0@ == last.0@;
                assert(entries[w].0@ != entries[entries.len() - 1].0@);
            }
        }
        assert(as_map(entries).dom() =~= as_map(prefix).dom().insert(last.0@));
    }
}

/// A table from text keys to values.
#[derive(Debug)]
pub struct StrTable<V> {
    entries: Vec<(String, V)>,
}

impl<V> View for StrTable<V> {
    type V = Map<Seq<char>, V>;

    closed spec fn view(&self) -> Map<Seq<char>, V> {
        as_map(self.entries@)
    }
}

/// The position of `key` in `entries`, if present.
fn find<V>(entries: &Vec<(String, V)>, key: &str) -> (position: Option<usize>)
    ensures
        match position {
            Some(i) => i < entries@.len() && entries@[i as int].0@ == key@,
            None => !contains_key(entries@, key@),
        },
{
    let wanted = key.to_owned();
    let mut i: usize = 0;
    while i < entries.len()
        invariant
            i <= entries@.len(),
            wanted@ == key@,
            forall|j: int| 0 <= j < i ==> #[trigger] entries@[j].0@ != key@,
        decreases entries@.len() - i,
    {
        if entries[i].0 == wanted {
            return Some(i);
        }
        i = i + 1;
    }
    None
}

impl<V> StrTable<V> {
    #[verifier::type_invariant]
    closed spec fn unique(&self) -> bool {
        unique_keys(self.entries@)
    }

    /// An empty table.
    pub fn new() -> (table: StrTable<V>)
        ensures
            table@ == Map::<Seq<char>, V>::empty(),
    {
        let table = StrTable { entries: Vec::new() };
        assert(table@ =~= Map::<Seq<char>, V>::empty());
        table
    }

    /// Number of entries.
    pub fn len(&self) -> (n: usize)
        ensures
            self@.dom().finite(),
            n == self@.dom().len(),
    {
        proof {
            use_type_invariant(self);
            lemma_map_len(self.entries@);
        }
        self.entries.len()
    }

    /// The value stored under `key`.
    pub fn get(&self, key: &str) -> (found: Option<&V>)
        ensures
            found.is_some() == self@.dom().contains(key@),
            found.is_some() ==> *found.unwrap() == self@[key@],
    {
        proof { use_type_invariant(self); }
        match find(&self.entries, key) {
            Some(i) => {
                proof { lemma_position(self.entries@, i as int); }
                Some(&self.entries[i].1)
            },
            None => None,
        }
    }

    /// Stores `value` under `key`, replacing any earlier value.
    pub fn insert(&mut self, key: String, value: V)
        ensures
            final(self)@ == old(self)@.insert(key@, value),
    {
        proof { use_type_invariant(&*self); }
        let ghost old_entries = self.entries@;
        let ghost k0 = key@;
        let position = find(&self.entries, key.as_str());
        let mut entries: Vec<(String, V)> = Vec::new();
        std::mem::swap(&mut entries, &mut self.entries);
        match position {
            Some(i) => {
                let ghost idx = i as int;
                entries.set(i, (key, value));
                proof {
                    let new_entries = entries@;
                    assert forall|a: int, b: int|
                        0 <= a < new_entries.len() && 0 <= b < new_entries.len() && a != b
                        implies #[trigger] new_entries[a].0@ != #[trigger] new_entries[b].0@ by {
                        if a != idx && b != idx {
                            assert(old_entries[a].0@ != old_entries[b].0@);
                        } else if a == idx {
                            assert(old_entries[idx].0@ != old_entries[b].0@);
                        } else {
                            assert(old_entries[a].0@ != old_entries[idx].0@);
                        }
                    }
                    assert forall|k: Seq<char>| #[trigger] contains_key(new_entries, k) == (k == k0 || contains_key(old_entries, k)) by {
                        if contains_key(old_entries, k) {
                            let w = choose|w: int| 0 <= w < old_entries.len() && #[trigger] old_entries[w].0@ == k;
                            assert(new_entries[w].0@ == k);
                        }
                        if contains_key(new_entries, k) {
                            let w = choose|w: int| 0 <= w < new_entries.len() && #[trigger] new_entries[w].0@ == k;
                            assert(old_entries[w].0@ == k);
                        }
                        if k == k0 {
                            assert(new_entries[idx].0@ == k);
                        }
                    }
                    assert forall|k: Seq<char>| contains_key(new_entries, k) && k != k0 implies
                        #[trigger] new_entries[position_of(new_entries, k)].1 == old_entries[position_of(old_entries, k)].1 by {
                        let w = position_of(new_entries, k);
                        lemma_position(new_entries, w);
                        lemma_position(old_entries, w);
                    }
                    lemma_position(new_entries, idx);
                    assert(as_map(new_entries) =~= as_map(old_entries).insert(k0, value));
                }
            },
            None => {
                entries.push((key, value));
                proof {
                    let new_entries = entries@;
                    let idx = old_entries.len() as int;
                    assert forall|k: Seq<char>| #[trigger] contains_key(new_entries, k) == (k == k0 || contains_key(old_entries, k)) by {
                        if contains_key(old_entries, k) {
                            let w = choose|w: int| 0 <= w < old_entries.len() && #[trigger] old_entries[w].0@ == k;
                            assert(new_entries[w].0@ == k);
                        }
                        if contains_key(new_entries, k) {
                            let w = choose|w: int| 0 <= w < new_entries.len() && #[trigger] new_entries[w].0@ == k;
                            if w < idx {
                                assert(old_entries[w].0@ == k);
                            }
                        }
                        if k == k0 {
                            assert(new_entries[idx].0@ == k);
                        }
                    }
                    assert forall|a: int, b: int|
                        0 <= a < new_entries.len() && 0 <= b < new_entries.len() && a != b
                        implies #[trigger] new_entries[a].0@ != #[trigger] new_entries[b].0@ by {
                        if a < idx && b < idx {
                            assert(old_entries[a].0@ != old_entries[b].0@);
                        }
                    }
                    lemma_position(new_entries, idx);
                    assert forall|k: Seq<char>| contains_key(new_entries, k) && k != k0 implies
                        #[trigger] new_entries[position_of(new_entries, k)].1 == old_entries[position_of(old_entries, k)].1 by {
                        let w = position_of(new_entries, k);
                        lemma_position(new_entries, w);
                        lemma_position(old_entries, w);
                    }
                    assert(as_map(new_entries) =~= as_map(old_entries).insert(k0, value));
                }
            },
        }
        self.entries = entries;
    }

    /// Removes the entry of `key`, giving back its value.
    pub fn remove(&mut self, key: &str) -> (removed: Option<V>)
        ensures
            removed.is_some() == old(self)@.dom().contains(key@),
            removed.is_some() ==> removed.unwrap() == old(self)@[key@],
            final(self)@ == old(self)@.remove(key@),
    {
        proof { use_type_invariant(&*self); }
        let ghost old_entries = self.entries@;
        let ghost k0 = key@;
        let position = find(&self.entries, key);
        match position {
            None => {
                assert(as_map(old_entries) =~= as_map(old_entries).remove(k0));
                None
            },
            Some(i) => {
                let mut entries: Vec<(String, V)> = Vec::new();
                std::mem::swap(&mut entries, &mut self.entries);
                let (_, value) = entries.remove(i);
                proof {
                    let idx = i as int;
                    let new_entries = entries@;
                    assert(new_entries =~= old_entries.remove(idx));
                    lemma_position(old_entries, idx);
                    assert forall|a: int, b: int|
                        0 <= a < new_entries.len() && 0 <= b < new_entries.len() && a != b
                        implies #[trigger] new_entries[a].0@ != #[trigger] new_entries[b].0@ by {
                        let oa = if a < idx { a } else { a + 1 };
                        let ob = if b < idx { b } else { b + 1 };
                        assert(new_entries[a] == old_entries[oa]);
                        assert(new_entries[b] == old_entries[ob]);
                        assert(old_entries[oa].0@ != old_entries[ob].0@);
                    }
                    assert forall|k: Seq<char>| #[trigger] contains_key(new_entries, k) == (k != k0 && contains_key(old_entries, k)) by {
                        if contains_key(old_entries, k) && k != k0 {
                            let w = choose|w: int| 0 <= w < old_entries.len() && #[trigger] old_entries[w].0@ == k;
                            assert(w != idx);
                            let nw = if w < idx { w } else { w - 1 };
                            assert(new_entries[nw] == old_entries[w]);
                        }
                        if contains_key(new_entries, k) {
                            let w = choose|w: int| 0 <= w < new_entries.len() && #[trigger] new_entries[w].0@ == k;
                            let ow = if w < idx { w } else { w + 1 };
                            assert(new_entries[w] == old_entries[ow]);
                            assert(old_entries[ow].0@ != old_entries[idx].0@);
                        }
                    }
                    assert forall|k: Seq<char>| contains_key(new_entries, k) implies
                        #[trigger] new_entries[position_of(new_entries, k)].1 == old_entries[position_of(old_entries, k)].1 by {
                        let w = position_of(new_entries, k);
                        lemma_position(new_entries, w);
                        let ow = if w < idx { w } else { w + 1 };
                        assert(new_entries[w] == old_entries[ow]);
                        lemma_position(old_entries, ow);
                    }
                    assert(as_map(new_entries) =~= as_map(old_entries).remove(k0));
                }
                self.entries = entries;
                Some(value)
            },
        }
    }

    /// The key at position `i` of the table's internal order.
    pub fn key_at(&self, i: usize) -> (key: &String)
        requires
            i < self@.dom().len(),
        ensures
            self@.dom().contains(key@),
    {
        proof {
            use_type_invariant(self);
            lemma_map_len(self.entries@);
            lemma_position(self.entries@, i as int);
        }
        &self.entries[i].0
    }

    /// Every key, each once.
    pub fn keys(&self) -> (keys: Vec<String>)
        ensures
            keys@.len() == self@.dom().len(),
            forall|i: int| 0 <= i < keys@.len() ==> self@.dom().contains(#[trigger] keys@[i]@),
            forall|k: Seq<char>| #[trigger] self@.dom().contains(k) ==> exists|i: int| 0 <= i < keys@.len() && #[trigger] keys@[i]@ == k,
            forall|i: int, j: int| 0 <= i < keys@.len() && 0 <= j < keys@.len() && i != j ==> #[trigger] keys@[i]@ != #[trigger] keys@[j]@,
    {
        proof {
            use_type_invariant(self);
            lemma_map_len(self.entries@);
        }
        let mut keys: Vec<String> = Vec::new();
        let mut i: usize = 0;
        while i < self.entries.len()
            invariant
                i <= self.entries@.len(),
                keys@.len() == i,
                unique_keys(self.entries@),
                forall|j: int| 0 <= j < i ==> #[trigger] keys@[j]@ == self.entries@[j].0@,
            decreases self.entries@.len() - i,
        {
            let k = self.entries[i].0.clone();
            keys.push(k);
            assert(keys@[i as int]@ == self.entries@[i as int].0@);
            i = i + 1;
        }
        proof {
            assert forall|j: int| 0 <= j < keys@.len() implies self@.dom().contains(#[trigger] keys@[j]@) by {
                lemma_position(self.entries@, j);
            }
            assert forall|k: Seq<char>| #[trigger] self@.dom().contains(k) implies exists|j: int| 0 <= j < keys@.len() && #[trigger] keys@[j]@ == k by {
                let w = position_of(self.entries@, k);
                assert(keys@[w]@ == k);
            }
            assert forall|a: int, b: int| 0 <= a < keys@.len() && 0 <= b < keys@.len() && a != b implies #[trigger] keys@[a]@ != #[trigger] keys@[b]@ by {
                assert(self.entries@[a].0@ != self.entries@[b].0@);
            }
        }
        keys
    }
}

/// No two entries have the same key.
pub open spec fn unique_pubkeys<V>(entries: Seq<(BlsPublicKey, V)>) -> bool {
    forall|i: int, j: int|
        0 <= i < entries.len() && 0 <= j < entries.len() && i != j ==>
            #[trigger] entries[i].0 != #[trigger] entries[j].0
}

/// Some entry has key `key`.
pub open spec fn contains_pubkey<V>(entries: Seq<(BlsPublicKey, V)>, key: BlsPublicKey) -> bool {
    exists|i: int| 0 <= i < entries.len() && #[trigger] entries[i].0 == key
}

/// Position of the entry with key `key`.
pub open spec fn pubkey_position<V>(entries: Seq<(BlsPublicKey, V)>, key: BlsPublicKey) -> int {
    choose|i: int| 0 <= i < entries.len() && #[trigger] entries[i].0 == key
}

/// The map the entries stand for.
pub open spec fn pubkey_map<V>(entries: Seq<(BlsPublicKey, V)>) -> Map<BlsPublicKey, V> {
    Map::new(|k: BlsPublicKey| contains_pubkey(entries, k), |k: BlsPublicKey| entries[pubkey_position(entries, k)].1)
}

/// With unique keys, entry `i` is the one its key finds.
pub proof fn lemma_pubkey_position<V>(entries: Seq<(BlsPublicKey, V)>, i: int)
    requires
        unique_pubkeys(entries),
        0 <= i < entries.len(),
    ensures
        contains_pubkey(entries, entries[i].0),
        pubkey_position(entries, entries[i].0) == i,
{
    let k = entries[i].0;
    assert(entries[i].0 == k);
    let j = pubkey_position(entries, k);
    assert(0 <= j < entries.len() && entries[j].0 == k);
}

/// Unique keys give a finite domain of the same size.
pub proof fn lemma_pubkey_map_len<V>(entries: Seq<(BlsPublicKey, V)>)
    requires
        unique_pubkeys(entries),
    ensures
        pubkey_map(entries).dom().finite(),
        pubkey_map(entries).dom().len() == entries.len(),
    decreases entries.len(),
{
    if entries.len() == 0 {
        assert(pubkey_map(entries).dom() =~= Set::<BlsPublicKey>::empty());
    } else {
        let prefix = entries.drop_last();
        let last = entries.last();
        assert(unique_pubkeys(prefix)) by {
            assert forall|i: int, j: int|
                0 <= i < prefix.len() && 0 <= j < prefix.len() && i != j implies
                #[trigger] prefix[i].0 != #[trigger] prefix[j].0 by {
                assert(entries[i].0 != entries[j].0);
            }
        }
        lemma_pubkey_map_len(prefix);
        assert forall|k: BlsPublicKey| #[trigger] contains_pubkey(entries, k) == (k == last.0 || contains_pubkey(prefix, k)) by {
            if contains_pubkey(entries, k) {
                let w = choose|w: int| 0 <= w < entries.len() && #[trigger] entries[w].0 == k;
                if w < prefix.len() {
                    assert(prefix[w].0 == k);
                }
            }
            if contains_pubkey(prefix, k) {
                let w = choose|w: int| 0 <= w < prefix.len() && #[trigger] prefix[w].0 == k;
                assert(entries[w].0 == k);
            }
            if k == last.0 {
                assert(entries[entries.len() - 1].0 == k);
            }
        }
        assert(!contains_pubkey(prefix, last.0)) by {
            if contains_pubkey(prefix, last.0) {
                let w = choose|w: int| 0 <= w < prefix.len() && #[trigger] prefix[w].0 == last.0;
                assert(entries[w].0 != entries[entries.len() - 1].0);
            }
        }
        assert(pubkey_map(entries).dom() =~= pubkey_map(prefix).dom().insert(last.0));
    }
}

/// A table from text keys to values.
#[derive(Debug)]
pub struct PubkeyTable<V> {
    entries: Vec<(BlsPublicKey, V)>,
}

impl<V> View for PubkeyTable<V> {
    type V = Map<BlsPublicKey, V>;

    closed spec fn view(&self) -> Map<BlsPublicKey, V> {
        pubkey_map(self.entries@)
    }
}

/// The position of `key` in `entries`, if present.
fn find_pubkey<V>(entries: &Vec<(BlsPublicKey, V)>, key: &BlsPublicKey) -> (position: Option<usize>)
    ensures
        match position {
            Some(i) => i < entries@.len() && entries@[i as int].0 == *key,
            None => !contains_pubkey(entries@, *key),
        },
{
    let wanted = *key;
    let mut i: usize = 0;
    while i < entries.len()
        invariant
            i <= entries@.len(),
            wanted == *key,
            forall|j: int| 0 <= j < i ==> #[trigger] entries@[j].0 != *key,
        decreases entries@.len() - i,
    {
        if entries[i].0 == wanted {
            return Some(i);
        }
        i = i + 1;
    }
    None
}

impl<V> PubkeyTable<V> {
    #[verifier::type_invariant]
    closed spec fn unique(&self) -> bool {
        unique_pubkeys(self.entries@)
    }

    /// An empty table.
    pub fn new() -> (table: PubkeyTable<V>)
        ensures
            table@ == Map::<BlsPublicKey, V>::empty(),
    {
        let table = PubkeyTable { entries: Vec::new() };
        assert(table@ =~= Map::<BlsPublicKey, V>::empty());
        table
    }

    /// Number of entries.
    pub fn len(&self) -> (n: usize)
        ensures
            self@.dom().finite(),
            n == self@.dom().len(),
    {
        proof {
            use_type_invariant(self);
            lemma_pubkey_map_len(self.entries@);
        }
        self.entries.len()
    }

    /// The value stored under `key`.
    pub fn get(&self, key: &BlsPublicKey) -> (found: Option<&V>)
        ensures
            found.is_some() == self@.dom().contains(*key),
            found.is_some() ==> *found.unwrap() == self@[*key],
    {
        proof { use_type_invariant(self); }
        match find_pubkey(&self.entries, key) {
            Some(i) => {
                proof { lemma_pubkey_position(self.entries@, i as int); }
                Some(&self.entries[i].1)
            },
            None => None,
        }
    }

    /// Stores `value` under `key`, replacing any earlier value.
    pub fn insert(&mut self, key: BlsPublicKey, value: V)
        ensures
            final(self)@ == old(self)@.insert(key, value),
    {
        proof { use_type_invariant(&*self); }
        let ghost old_entries = self.entries@;
        let ghost k0 = key;
        let position = find_pubkey(&self.entries, &key);
        let mut entries: Vec<(BlsPublicKey, V)> = Vec::new();
        std::mem::swap(&mut entries, &mut self.entries);
        match position {
            Some(i) => {
                let ghost idx = i as int;
                entries.set(i, (key, value));
                proof {
                    let new_entries = entries@;
                    assert forall|a: int, b: int|
                        0 <= a < new_entries.len() && 0 <= b < new_entries.len() && a != b
                        implies #[trigger] new_entries[a].0 != #[trigger] new_entries[b].0 by {
                        if a != idx && b != idx {
                            assert(old_entries[a].0 != old_entries[b].0);
                        } else if a == idx {
                            assert(old_entries[idx].0 != old_entries[b].0);
                        } else {
                            assert(old_entries[a].0 != old_entries[idx].0);
                        }
                    }
                    assert forall|k: BlsPublicKey| #[trigger] contains_pubkey(new_entries, k) == (k == k0 || contains_pubkey(old_entries, k)) by {
                        if contains_pubkey(old_entries, k) {
                            let w = choose|w: int| 0 <= w < old_entries.len() && #[trigger] old_entries[w].0 == k;
                            assert(new_entries[w].0 == k);
                        }
                        if contains_pubkey(new_entries, k) {
                            let w = choose|w: int| 0 <= w < new_entries.len() && #[trigger] new_entries[w].0 == k;
                            assert(old_entries[w].0 == k);
                        }
                        if k == k0 {
                            assert(new_entries[idx].0 == k);
                        }
                    }
                    assert forall|k: BlsPublicKey| contains_pubkey(new_entries, k) && k != k0 implies
                        #[trigger] new_entries[pubkey_position(new_entries, k)].1 == old_entries[pubkey_position(old_entries, k)].1 by {
                        let w = pubkey_position(new_entries, k);
                        lemma_pubkey_position(new_entries, w);
                        lemma_pubkey_position(old_entries, w);
                    }
                    lemma_pubkey_position(new_entries, idx);
                    assert(pubkey_map(new_entries) =~= pubkey_map(old_entries).insert(k0, value));
                }
            },
            None => {
                entries.push((key, value));
                proof {
                    let new_entries = entries@;
                    let idx = old_entries.len() as int;
                    assert forall|k: BlsPublicKey| #[trigger] contains_pubkey(new_entries, k) == (k == k0 || contains_pubkey(old_entries, k)) by {
                        if contains_pubkey(old_entries, k) {
                            let w = choose|w: int| 0 <= w < old_entries.len() && #[trigger] old_entries[w].0 == k;
                            assert(new_entries[w].0 == k);
                        }
                        if contains_pubkey(new_entries, k) {
                            let w = choose|w: int| 0 <= w < new_entries.len() && #[trigger] new_entries[w].0 == k;
                            if w < idx {
                                assert(old_entries[w].0 == k);
                            }
                        }
                        if k == k0 {
                            assert(new_entries[idx].0 == k);
                        }
                    }
                    assert forall|a: int, b: int|
                        0 <= a < new_entries.len() && 0 <= b < new_entries.len() && a != b
                        implies #[trigger] new_entries[a].0 != #[trigger] new_entries[b].0 by {
                        if a < idx && b < idx {
                            assert(old_entries[a].0 != old_entries[b].0);
                        }
                    }
                    lemma_pubkey_position(new_entries, idx);
                    assert forall|k: BlsPublicKey| contains_pubkey(new_entries, k) && k != k0 implies
                        #[trigger] new_entries[pubkey_position(new_entries, k)].1 == old_entries[pubkey_position(old_entries, k)].1 by {
                        let w = pubkey_position(new_entries, k);
                        lemma_pubkey_position(new_entries, w);
                        lemma_pubkey_position(old_entries, w);
                    }
                    assert(pubkey_map(new_entries) =~= pubkey_map(old_entries).insert(k0, value));
                }
            },
        }
        self.entries = entries;
    }

    /// Removes the entry of `key`, giving back its value.
    pub fn remove(&mut self, key: &BlsPublicKey) -> (removed: Option<V>)
        ensures
            removed.is_some() == old(self)@.dom().contains(*key),
            removed.is_some() ==> removed.unwrap() == old(self)@[*key],
            final(self)@ == old(self)@.remove(*key),
    {
        proof { use_type_invariant(&*self); }
        let ghost old_entries = self.entries@;
        let ghost k0 = *key;
        let position = find_pubkey(&self.entries, key);
        match position {
            None => {
                assert(pubkey_map(old_entries) =~= pubkey_map(old_entries).remove(k0));
                None
            },
            Some(i) => {
                let mut entries: Vec<(BlsPublicKey, V)> = Vec::new();
                std::mem::swap(&mut entries, &mut self.entries);
                let (_, value) = entries.remove(i);
                proof {
                    let idx = i as int;
                    let new_entries = entries@;
                    assert(new_entries =~= old_entries.remove(idx));
                    lemma_pubkey_position(old_entries, idx);
                    assert forall|a: int, b: int|
                        0 <= a < new_entries.len() && 0 <= b < new_entries.len() && a != b
                        implies #[trigger] new_entries[a].0 != #[trigger] new_entries[b].0 by {
                        let oa = if a < idx { a } else { a + 1 };
                        let ob = if b < idx { b } else { b + 1 };
                        assert(new_entries[a] == old_entries[oa]);
                        assert(new_entries[b] == old_entries[ob]);
                        assert(old_entries[oa].0 != old_entries[ob].0);
                    }
                    assert forall|k: BlsPublicKey| #[trigger] contains_pubkey(new_entries, k) == (k != k0 && contains_pubkey(old_entries, k)) by {
                        if contains_pubkey(old_entries, k) && k != k0 {
                            let w = choose|w: int| 0 <= w < old_entries.len() && #[trigger] old_entries[w].0 == k;
                            assert(w != idx);
                            let nw = if w < idx { w } else { w - 1 };
                            assert(new_entries[nw] == old_entries[w]);
                        }
                        if contains_pubkey(new_entries, k) {
                            let w = choose|w: int| 0 <= w < new_entries.len() && #[trigger] new_entries[w].0 == k;
                            let ow = if w < idx { w } else { w + 1 };
                            assert(new_entries[w] == old_entries[ow]);
                            assert(old_entries[ow].0 != old_entries[idx].0);
                        }
                    }
                    assert forall|k: BlsPublicKey| contains_pubkey(new_entries, k) implies
                        #[trigger] new_entries[pubkey_position(new_entries, k)].1 == old_entries[pubkey_position(old_entries, k)].1 by {
                        let w = pubkey_position(new_entries, k);
                        lemma_pubkey_position(new_entries, w);
                        let ow = if w < idx { w } else { w + 1 };
                        assert(new_entries[w] == old_entries[ow]);
                        lemma_pubkey_position(old_entries, ow);
                    }
                    assert(pubkey_map(new_entries) =~= pubkey_map(old_entries).remove(k0));
                }
                self.entries = entries;
                Some(value)
            },
        }
    }

    /// The key at position `i` of the table's internal order.
    pub fn key_at(&self, i: usize) -> (key: &BlsPublicKey)
        requires
            i < self@.dom().len(),
        ensures
            self@.dom().contains(*key),
    {
        proof {
            use_type_invariant(self);
            lemma_pubkey_map_len(self.entries@);
            lemma_pubkey_position(self.entries@, i as int);
        }
        &self.entries[i].0
    }

    /// Every key, each once.
    pub fn keys(&self) -> (keys: Vec<BlsPublicKey>)
        ensures
            keys@.len() == self@.dom().len(),
            forall|i: int| 0 <= i < keys@.len() ==> self@.dom().contains(#[trigger] keys@[i]),
            forall|k: BlsPublicKey| #[trigger] self@.dom().contains(k) ==> exists|i: int| 0 <= i < keys@.len() && #[trigger] keys@[i] == k,
            forall|i: int, j: int| 0 <= i < keys@.len() && 0 <= j < keys@.len() && i != j ==> #[trigger] keys@[i] != #[trigger] keys@[j],
    {
        proof {
            use_type_invariant(self);
            lemma_pubkey_map_len(self.entries@);
        }
        let mut keys: Vec<BlsPublicKey> = Vec::new();
        let mut i: usize = 0;
        while i < self.entries.len()
            invariant
                i <= self.entries@.len(),
                keys@.len() == i,
                unique_pubkeys(self.entries@),
                forall|j: int| 0 <= j < i ==> #[trigger] keys@[j] == self.entries@[j].0,
            decreases self.entries@.len() - i,
        {
            let k = self.entries[i].0;
            keys.push(k);
            assert(keys@[i as int] == self.entries@[i as int].0);
            i = i + 1;
        }
        proof {
            assert forall|j: int| 0 <= j < keys@.len() implies self@.dom().contains(#[trigger] keys@[j]) by {
                lemma_pubkey_position(self.entries@, j);
            }
            assert forall|k: BlsPublicKey| #[trigger] self@.dom().contains(k) implies exists|j: int| 0 <= j < keys@.len() && #[trigger] keys@[j] == k by {
                let w = pubkey_position(self.entries@, k);
                assert(keys@[w] == k);
            }
            assert forall|a: int, b: int| 0 <= a < keys@.len() && 0 <= b < keys@.len() && a != b implies #[trigger] keys@[a] != #[trigger] keys@[b] by {
                assert(self.entries@[a].0 != self.entries@[b].0);
            }
        }
        keys
    }
}

} // verus!
