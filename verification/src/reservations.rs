//! Per-relay gas reservations, keyed by relay identifier.

use vstd::prelude::*;

verus! {

/// What a reservation records, apart from the relay it belongs to.
#[derive(Debug, Clone, Copy, PartialEq, Eq, Structural)]
pub struct ReservationRecord {
    pub reserved_gas: u64,
    pub last_updated: u64,
    pub min_gas_limit: Option<u64>,
}

/// Gas reserved for one relay.
#[derive(Debug)]
pub struct GasReservation {
    /// Reserved gas amount for this relay.
    pub reserved_gas: u64,
    /// When the reservation was last written, in milliseconds.
    pub last_updated: u64,
    /// The relay this reservation is for.
    pub relay_id: String,
    /// Smallest block gas limit the relay accepts, if it stated one.
    pub min_gas_limit: Option<u64>,
}

impl View for GasReservation {
    type V = ReservationRecord;

    open spec fn view(&self) -> ReservationRecord {
        ReservationRecord {
            reserved_gas: self.reserved_gas,
            last_updated: self.last_updated,
            min_gas_limit: self.min_gas_limit,
        }
    }
}

impl GasReservation {
    /// A copy of this reservation.
    pub fn duplicate(&self) -> (copy: GasReservation)
        ensures
            copy@ == self@,
            copy.relay_id@ == self.relay_id@,
    {
        GasReservation {
            reserved_gas: self.reserved_gas,
            last_updated: self.last_updated,
            relay_id: self.relay_id.clone(),
            min_gas_limit: self.min_gas_limit,
        }
    }
}

/// Reservations with at most one entry per relay identifier.
#[derive(Debug)]
pub struct ReservationTable {
    entries: Vec<GasReservation>,
}

/// No two entries of `entries` name the same relay.
pub open spec fn keys_unique(entries: Seq<GasReservation>) -> bool {
    forall|i: int, j: int|
        0 <= i < entries.len() && 0 <= j < entries.len() && i != j ==>
            #[trigger] entries[i].relay_id@ != #[trigger] entries[j].relay_id@
}

/// Some entry of `entries` names `key`.
pub open spec fn has_key(entries: Seq<GasReservation>, key: Seq<char>) -> bool {
    exists|i: int| 0 <= i < entries.len() && #[trigger] entries[i].relay_id@ == key
}

/// The position of the entry that names `key`.
pub open spec fn key_index(entries: Seq<GasReservation>, key: Seq<char>) -> int {
    choose|i: int| 0 <= i < entries.len() && #[trigger] entries[i].relay_id@ == key
}

/// The map from relay identifier to reservation that `entries` stands for.
pub open spec fn entries_map(entries: Seq<GasReservation>) -> Map<Seq<char>, ReservationRecord> {
    Map::new(|k: Seq<char>| has_key(entries, k), |k: Seq<char>| entries[key_index(entries, k)]@)
}

/// With unique keys, the entry at `i` is the one `entries_map` shows for its key.
pub proof fn lemma_key_index(entries: Seq<GasReservation>, i: int)
    requires
        keys_unique(entries),
        0 <= i < entries.len(),
    ensures
        has_key(entries, entries[i].relay_id@),
        key_index(entries, entries[i].relay_id@) == i,
{
    let k = entries[i].relay_id@;
    assert(entries[i].relay_id@ == k);
    let j = key_index(entries, k);
    assert(0 <= j < entries.len() && entries[j].relay_id@ == k);
}

impl View for ReservationTable {
    type V = Map<Seq<char>, ReservationRecord>;

    closed spec fn view(&self) -> Map<Seq<char>, ReservationRecord> {
        entries_map(self.entries@)
    }
}

impl ReservationTable {
    #[verifier::type_invariant]
    closed spec fn unique(&self) -> bool {
        keys_unique(self.entries@)
    }

    /// The reserved amounts, in the table's order.
    pub closed spec fn amounts(&self) -> Seq<u64> {
        self.entries@.map_values(|e: GasReservation| e.reserved_gas)
    }

    /// An empty table.
    pub fn new() -> (table: ReservationTable)
        ensures
            table@ == Map::<Seq<char>, ReservationRecord>::empty(),
    {
        let table = ReservationTable { entries: Vec::new() };
        assert(table@ =~= Map::<Seq<char>, ReservationRecord>::empty());
        table
    }

    /// Number of reservations.
    pub fn len(&self) -> (n: usize)
        ensures
            self@.dom().finite(),
            n == self@.dom().len(),
    {
        proof {
            use_type_invariant(self);
            lemma_dom_len(self.entries@);
        }
        self.entries.len()
    }

    /// The reservation of `relay_id`, if there is one.
    pub fn get(&self, relay_id: &str) -> (found: Option<&GasReservation>)
        ensures
            found.is_some() == self@.dom().contains(relay_id@),
            found.is_some() ==> found.unwrap()@ == self@[relay_id@] && found.unwrap().relay_id@ == relay_id@,
    {
        proof { use_type_invariant(self); }
        let key = relay_id.to_owned();
        let mut i: usize = 0;
        while i < self.entries.len()
            invariant
                i <= self.entries@.len(),
                key@ == relay_id@,
                keys_unique(self.entries@),
                forall|j: int| 0 <= j < i ==> #[trigger] self.entries@[j].relay_id@ != relay_id@,
            decreases self.entries@.len() - i,
        {
            if self.entries[i].relay_id == key {
                proof { lemma_key_index(self.entries@, i as int); }
                return Some(&self.entries[i]);
            }
            i = i + 1;
        }
        None
    }

    /// Stores `reservation` under its relay identifier, replacing any earlier one.
    pub fn upsert(&mut self, reservation: GasReservation)
        ensures
            final(self)@ == old(self)@.insert(reservation.relay_id@, reservation@),
    {
        proof { use_type_invariant(&*self); }
        let ghost old_entries = self.entries@;
        let ghost key = reservation.relay_id@;
        let position = find_position(&self.entries, &reservation.relay_id);
        let mut entries: Vec<GasReservation> = Vec::new();
        std::mem::swap(&mut entries, &mut self.entries);
        match position {
            Some(i) => {
                let ghost idx = i as int;
                entries.set(i, reservation);
                proof {
                    let new_entries = entries@;
                    assert forall|a: int, b: int|
                        0 <= a < new_entries.len() && 0 <= b < new_entries.len() && a != b
                        implies #[trigger] new_entries[a].relay_id@ != #[trigger] new_entries[b].relay_id@ by {
                        if a != idx && b != idx {
                            assert(old_entries[a].relay_id@ != old_entries[b].relay_id@);
                        } else if a == idx {
                            assert(old_entries[idx].relay_id@ != old_entries[b].relay_id@);
                        } else {
                            assert(old_entries[a].relay_id@ != old_entries[idx].relay_id@);
                        }
                    }
                    lemma_key_index(old_entries, idx);
                    assert forall|k: Seq<char>| #[trigger] has_key(new_entries, k) == (k == key || has_key(old_entries, k)) by {
                        if has_key(old_entries, k) {
                            let w = choose|w: int| 0 <= w < old_entries.len() && #[trigger] old_entries[w].relay_id@ == k;
                            assert(new_entries[w].relay_id@ == k);
                        }
                        if has_key(new_entries, k) {
                            let w = choose|w: int| 0 <= w < new_entries.len() && #[trigger] new_entries[w].relay_id@ == k;
                            assert(old_entries[w].relay_id@ == k);
                        }
                        if k == key {
                            assert(new_entries[idx].relay_id@ == k);
                        }
                    }
                    assert forall|k: Seq<char>| has_key(new_entries, k) && k != key implies
                        #[trigger] new_entries[key_index(new_entries, k)]@ == old_entries[key_index(old_entries, k)]@ by {
                        let w = key_index(new_entries, k);
                        lemma_key_index(new_entries, w);
                        lemma_key_index(old_entries, w);
                    }
                    lemma_key_index(new_entries, idx);
                    assert(entries_map(new_entries) =~= entries_map(old_entries).insert(key, reservation@));
                }
            },
            None => {
                entries.push(reservation);
                proof {
                    let new_entries = entries@;
                    let idx = old_entries.len() as int;
                    assert forall|k: Seq<char>| #[trigger] has_key(new_entries, k) == (k == key || has_key(old_entries, k)) by {
                        if has_key(old_entries, k) {
                            let w = choose|w: int| 0 <= w < old_entries.len() && #[trigger] old_entries[w].relay_id@ == k;
                            assert(new_entries[w].relay_id@ == k);
                        }
                        if has_key(new_entries, k) {
                            let w = choose|w: int| 0 <= w < new_entries.len() && #[trigger] new_entries[w].relay_id@ == k;
                            if w < idx {
                                assert(old_entries[w].relay_id@ == k);
                            }
                        }
                        if k == key {
                            assert(new_entries[idx].relay_id@ == k);
                        }
                    }
                    assert forall|a: int, b: int|
                        0 <= a < new_entries.len() && 0 <= b < new_entries.len() && a != b
                        implies #[trigger] new_entries[a].relay_id@ != #[trigger] new_entries[b].relay_id@ by {
                        if a < idx && b < idx {
                            assert(old_entries[a].relay_id@ != old_entries[b].relay_id@);
                        }
                    }
                    lemma_key_index(new_entries, idx);
                    assert forall|k: Seq<char>| has_key(new_entries, k) && k != key implies
                        #[trigger] new_entries[key_index(new_entries, k)]@ == old_entries[key_index(old_entries, k)]@ by {
                        let w = key_index(new_entries, k);
                        lemma_key_index(new_entries, w);
                        lemma_key_index(old_entries, w);
                    }
                    assert(entries_map(new_entries) =~= entries_map(old_entries).insert(key, reservation@));
                }
            },
        }
        self.entries = entries;
    }

    /// Every reservation, paired with its relay identifier.
    pub fn to_vec(&self) -> (all: Vec<(String, GasReservation)>)
        ensures
            self@.dom().finite(),
            all@.len() == self@.dom().len(),
            forall|i: int| 0 <= i < all@.len() ==> {
                &&& self@.dom().contains(#[trigger] all@[i].0@)
                &&& all@[i].1@ == self@[all@[i].0@]
                &&& all@[i].1.relay_id@ == all@[i].0@
            },
            forall|i: int, j: int|
                0 <= i < all@.len() && 0 <= j < all@.len() && i != j ==> #[trigger] all@[i].0@ != #[trigger] all@[j].0@,
            forall|k: Seq<char>| #[trigger] self@.dom().contains(k) ==> exists|i: int| 0 <= i < all@.len() && #[trigger] all@[i].0@ == k,
            all@.map_values(|r: (String, GasReservation)| r.1.reserved_gas) == self.amounts(),
    {
        proof {
            use_type_invariant(self);
            lemma_dom_len(self.entries@);
        }
        let mut all: Vec<(String, GasReservation)> = Vec::new();
        let mut i: usize = 0;
        while i < self.entries.len()
            invariant
                i <= self.entries@.len(),
                all@.len() == i,
                keys_unique(self.entries@),
                forall|j: int| 0 <= j < i ==> {
                    &&& #[trigger] all@[j].0@ == self.entries@[j].relay_id@
                    &&& all@[j].1@ == self.entries@[j]@
                    &&& all@[j].1.relay_id@ == self.entries@[j].relay_id@
                },
            decreases self.entries@.len() - i,
        {
            let rec = self.entries[i].duplicate();
            let id = self.entries[i].relay_id.clone();
            all.push((id, rec));
            assert(all@[i as int].0@ == self.entries@[i as int].relay_id@);
            i = i + 1;
        }
        proof {
            assert forall|j: int| 0 <= j < all@.len() implies {
                &&& self@.dom().contains(#[trigger] all@[j].0@)
                &&& all@[j].1@ == self@[all@[j].0@]
                &&& all@[j].1.relay_id@ == all@[j].0@
            } by {
                lemma_key_index(self.entries@, j);
            }
            assert forall|k: Seq<char>| #[trigger] self@.dom().contains(k) implies exists|j: int| 0 <= j < all@.len() && #[trigger] all@[j].0@ == k by {
                let w = key_index(self.entries@, k);
                assert(all@[w].0@ == k);
            }
            assert forall|j: int| 0 <= j < all@.len() implies #[trigger] all@[j].1.reserved_gas == self.entries@[j].reserved_gas by {
                assert(all@[j].0@ == self.entries@[j].relay_id@);
            }
            assert(all@.map_values(|r: (String, GasReservation)| r.1.reserved_gas) =~= self.amounts());
        }
        all
    }
}

/// The position of the entry named `key`, if any.
fn find_position(entries: &Vec<GasReservation>, key: &String) -> (position: Option<usize>)
    requires
        keys_unique(entries@),
    ensures
        match position {
            Some(i) => i < entries@.len() && entries@[i as int].relay_id@ == key@,
            None => !has_key(entries@, key@),
        },
{
    let mut i: usize = 0;
    while i < entries.len()
        invariant
            i <= entries@.len(),
            forall|j: int| 0 <= j < i ==> #[trigger] entries@[j].relay_id@ != key@,
        decreases entries@.len() - i,
    {
        if entries[i].relay_id == *key {
            return Some(i);
        }
        i = i + 1;
    }
    None
}

/// A table of unique keys has a finite domain of its own size.
proof fn lemma_dom_len(entries: Seq<GasReservation>)
    requires
        keys_unique(entries),
    ensures
        entries_map(entries).dom().finite(),
        entries_map(entries).dom().len() == entries.len(),
    decreases entries.len(),
{
    if entries.len() == 0 {
        assert(entries_map(entries).dom() =~= Set::<Seq<char>>::empty());
    } else {
        let prefix = entries.drop_last();
        let last = entries.last();
        assert(keys_unique(prefix)) by {
            assert forall|i: int, j: int|
                0 <= i < prefix.len() && 0 <= j < prefix.len() && i != j implies
                #[trigger] prefix[i].relay_id@ != #[trigger] prefix[j].relay_id@ by {
                assert(entries[i].relay_id@ != entries[j].relay_id@);
            }
        }
        lemma_dom_len(prefix);
        assert forall|k: Seq<char>| #[trigger] has_key(entries, k) == (k == last.relay_id@ || has_key(prefix, k)) by {
            if has_key(entries, k) {
                let w = choose|w: int| 0 <= w < entries.len() && #[trigger] entries[w].relay_id@ == k;
                if w < prefix.len() {
                    assert(prefix[w].relay_id@ == k);
                }
            }
            if has_key(prefix, k) {
                let w = choose|w: int| 0 <= w < prefix.len() && #[trigger] prefix[w].relay_id@ == k;
                assert(entries[w].relay_id@ == k);
            }
            if k == last.relay_id@ {
                assert(entries[entries.len() - 1].relay_id@ == k);
            }
        }
        assert(!has_key(prefix, last.relay_id@)) by {
            if has_key(prefix, last.relay_id@) {
                let w = choose|w: int| 0 <= w < prefix.len() && #[trigger] prefix[w].relay_id@ == last.relay_id@;
                assert(entries[w].relay_id@ != entries[entries.len() - 1].relay_id@);
            }
        }
        assert(entries_map(entries).dom() =~= entries_map(prefix).dom().insert(last.relay_id@));
    }
}

} // verus!
