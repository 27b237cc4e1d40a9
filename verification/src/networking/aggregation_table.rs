//! The table of connections: one entry of running totals for each
//! address:port pair that has been observed.

use crate::assoc::{
    assoc, lemma_assoc_at, lemma_assoc_domain, lemma_assoc_push, lemma_assoc_update,
};
use crate::networking::types::address_port_pair::AddressPortPair;
use crate::networking::types::connection_event::{
    ConnectionEvent, EventError, EventView, TrafficDirection,
};
use crate::networking::types::info_address_port_pair::{share, InfoAddressPortPair, InfoView};
use vstd::prelude::*;

verus! {

/// One connection of the table: its pair and its totals.
#[derive(Debug)]
pub struct TableEntry {
    /// The pair that identifies the connection.
    pub key: AddressPortPair,
    /// What has been observed on it.
    pub info: InfoAddressPortPair,
}

/// Why an observation was not recorded.
#[derive(Clone, Copy, Debug, PartialEq, Eq, Structural, Hash)]
pub enum RecordError {
    /// The ports of the observation do not agree with its protocol.
    Malformed(EventError),
    /// A counter of the connection would leave its 64 bits.
    CounterOverflow,
}

/// The table of connections, in the order in which they were first seen.
pub struct AggregationTable {
    entries: Vec<TableEntry>,
}

/// The pairs of the entries, in order.
pub open spec fn keys_of(entries: Seq<TableEntry>) -> Seq<AddressPortPair> {
    Seq::new(entries.len(), |i: int| entries[i].key)
}

/// The totals of the entries, in order.
pub open spec fn infos_of(entries: Seq<TableEntry>) -> Seq<InfoView> {
    Seq::new(entries.len(), |i: int| entries[i].info@)
}

/// The totals of each pair among the entries.
pub open spec fn totals_of(entries: Seq<TableEntry>) -> Map<AddressPortPair, InfoView> {
    assoc(keys_of(entries), infos_of(entries))
}

/// The table after one more observation: a pair not seen before gets an
/// entry with the totals of that observation; the totals of a pair seen
/// before take the observation in. No other entry changes.
pub open spec fn recorded(table: Map<AddressPortPair, InfoView>, event: EventView) -> Map<
    AddressPortPair,
    InfoView,
> {
    if table.contains_key(event.key) {
        table.insert(event.key, table[event.key].absorbed(event))
    } else {
        table.insert(event.key, InfoView::started(event))
    }
}

/// The table after the given observations, recorded one after the other.
pub open spec fn recorded_all(table: Map<AddressPortPair, InfoView>, events: Seq<EventView>) -> Map<
    AddressPortPair,
    InfoView,
>
    decreases events.len(),
{
    if events.len() == 0 {
        table
    } else {
        recorded(recorded_all(table, events.drop_last()), events.last())
    }
}

/// Among distinct pairs, a pair is found where it stands.
proof fn lemma_index_of_key(entries: Seq<TableEntry>, at: int)
    requires
        keys_of(entries).no_duplicates(),
        0 <= at < entries.len(),
    ensures
        keys_of(entries).contains(entries[at].key),
        keys_of(entries).index_of(entries[at].key) == at,
        totals_of(entries)[entries[at].key] == entries[at].info@,
{
    lemma_assoc_at(keys_of(entries), infos_of(entries), at);
}

/// A new entry with a pair of its own adds that pair to the totals.
proof fn lemma_totals_of_push(entries: Seq<TableEntry>, entry: TableEntry)
    requires
        keys_of(entries).no_duplicates(),
        !keys_of(entries).contains(entry.key),
    ensures
        keys_of(entries.push(entry)) == keys_of(entries).push(entry.key),
        keys_of(entries.push(entry)).no_duplicates(),
        totals_of(entries.push(entry)) == totals_of(entries).insert(entry.key, entry.info@),
{
    lemma_assoc_push(keys_of(entries), infos_of(entries), entry.key, entry.info@);
    assert(keys_of(entries.push(entry)) =~= keys_of(entries).push(entry.key));
    assert(infos_of(entries.push(entry)) =~= infos_of(entries).push(entry.info@));
}

/// An entry that takes the place of one with the same pair changes the
/// totals of that pair alone.
proof fn lemma_totals_of_update(entries: Seq<TableEntry>, at: int, entry: TableEntry)
    requires
        keys_of(entries).no_duplicates(),
        0 <= at < entries.len(),
        entry.key == entries[at].key,
    ensures
        keys_of(entries.update(at, entry)) == keys_of(entries),
        totals_of(entries.update(at, entry)) == totals_of(entries).insert(entry.key, entry.info@),
{
    lemma_assoc_update(keys_of(entries), infos_of(entries), at, entry.info@);
    assert(keys_of(entries.update(at, entry)) =~= keys_of(entries));
    assert(infos_of(entries.update(at, entry)) =~= infos_of(entries).update(at, entry.info@));
}

impl View for AggregationTable {
    type V = Map<AddressPortPair, InfoView>;

    closed spec fn view(&self) -> Map<AddressPortPair, InfoView> {
        totals_of(self.entries@)
    }
}

impl AggregationTable {
    /// The pairs of the table, in the order in which they were first seen.
    pub closed spec fn keys(&self) -> Seq<AddressPortPair> {
        keys_of(self.entries@)
    }

    /// The entries of the table, in the order in which they were first seen.
    pub closed spec fn entries(&self) -> Seq<TableEntry> {
        self.entries@
    }

    /// What holds of every table: no pair stands in it twice, and the ports
    /// of every pair in it agree with its protocol.
    pub closed spec fn wf(&self) -> bool {
        &&& keys_of(self.entries@).no_duplicates()
        &&& forall|i: int| 0 <= i < self.entries@.len() ==> (#[trigger] self.entries@[i]).key.consistent()
    }

    /// The pairs of a table are distinct and consistent, they are the pairs
    /// that have totals, and the totals of each are those of its entry.
    pub proof fn lemma_table(&self)
        requires
            self.wf(),
        ensures
            self.keys() == keys_of(self.entries()),
            self@ == totals_of(self.entries()),
            self.keys().no_duplicates(),
            self@.dom().finite(),
            forall|key: AddressPortPair| self@.contains_key(key) <==> self.keys().contains(key),
            forall|key: AddressPortPair| self@.contains_key(key) ==> key.consistent(),
            forall|i: int|
                0 <= i < self.entries().len() ==> self@[(#[trigger] self.entries()[i]).key]
                    == self.entries()[i].info@,
    {
        let keys = self.keys();
        lemma_assoc_domain(keys, infos_of(self.entries@));
        assert forall|key: AddressPortPair| self@.contains_key(key) implies key.consistent() by {
            let i = keys.index_of(key);
            assert(self.entries@[i].key == key);
        }
        assert forall|i: int| 0 <= i < self.entries().len() implies self@[(
        #[trigger] self.entries()[i]).key] == self.entries()[i].info@ by {
            lemma_index_of_key(self.entries@, i);
        }
    }

    /// The table without any connection.
    pub fn new() -> (table: Self)
        ensures
            table.wf(),
            table@ == Map::<AddressPortPair, InfoView>::empty(),
            table.keys() == Seq::<AddressPortPair>::empty(),
    {
        let table = AggregationTable { entries: Vec::new() };
        assert(table@ =~= Map::<AddressPortPair, InfoView>::empty());
        assert(table.keys() =~= Seq::<AddressPortPair>::empty());
        table
    }

    /// Number of connections in the table.
    pub fn len(&self) -> (count: usize)
        ensures
            count == self.keys().len(),
    {
        self.entries.len()
    }

    /// Tells whether the table holds no connection.
    pub fn is_empty(&self) -> (empty: bool)
        ensures
            empty == (self.keys().len() == 0),
    {
        self.entries.len() == 0
    }

    /// Where in the table the pair stands, if it does.
    fn position(&self, key: &AddressPortPair) -> (found: Option<usize>)
        ensures
            match found {
                Some(at) => at < self.entries@.len() && self.entries@[at as int].key == *key,
                None => !keys_of(self.entries@).contains(*key),
            },
    {
        let mut i: usize = 0;
        while i < self.entries.len()
            invariant
                i <= self.entries.len(),
                forall|j: int| 0 <= j < i ==> self.entries@[j].key != *key,
            decreases self.entries.len() - i,
        {
            if self.entries[i].key == *key {
                return Some(i);
            }
            i += 1;
        }
        assert forall|j: int| 0 <= j < keys_of(self.entries@).len() implies keys_of(
            self.entries@,
        )[j] != *key by {
            assert(self.entries@[j].key != *key);
        }
        None
    }

    /// The totals of the pair, if the table has it.
    pub fn get(&self, key: &AddressPortPair) -> (found: Option<&InfoAddressPortPair>)
        requires
            self.wf(),
        ensures
            found is Some <==> self@.contains_key(*key),
            found matches Some(info) ==> info@ == self@[*key],
    {
        match self.position(key) {
            Some(at) => {
                proof {
                    lemma_index_of_key(self.entries@, at as int);
                }
                Some(&self.entries[at].info)
            },
            None => None,
        }
    }

    /// Tells whether the table has the pair.
    pub fn contains(&self, key: &AddressPortPair) -> (found: bool)
        requires
            self.wf(),
        ensures
            found == self@.contains_key(*key),
    {
        self.get(key).is_some()
    }

    /// Records an observation whose ports agree with its protocol. A pair
    /// seen for the first time gets an entry, at the end of the table, and
    /// the result is `Ok(true)`. The totals of a pair seen before take the
    /// observation in, and the result is `Ok(false)`. Where that would lead
    /// a counter out of its 64 bits, nothing is recorded and the result is
    /// the overflow error.
    pub fn record(&mut self, event: &ConnectionEvent) -> (outcome: Result<bool, RecordError>)
        requires
            old(self).wf(),
            event@.well_formed(),
        ensures
            final(self).wf(),
            outcome is Err <==> old(self)@.contains_key(event@.key) && !old(self)@[event@.key].absorbed(
                event@,
            ).fits(),
            outcome is Err ==> outcome == Err::<bool, RecordError>(RecordError::CounterOverflow)
                && final(self)@ == old(self)@ && final(self).keys() == old(self).keys()
                && final(self).entries() == old(self).entries(),
            outcome matches Ok(first_sight) ==> {
                &&& first_sight == !old(self)@.contains_key(event@.key)
                &&& final(self)@ == recorded(old(self)@, event@)
                &&& final(self).keys() == if first_sight {
                    old(self).keys().push(event@.key)
                } else {
                    old(self).keys()
                }
            },
    {
        let key = event.key();
        match self.position(&key) {
            Some(at) => {
                proof {
                    lemma_index_of_key(self.entries@, at as int);
                }
                if !self.entries[at].info.can_absorb(event) {
                    return Err(RecordError::CounterOverflow);
                }
                let mut info = self.entries[at].info.clone();
                info.absorb(event);
                let entry = TableEntry { key, info };
                proof {
                    lemma_totals_of_update(self.entries@, at as int, entry);
                }
                self.entries.set(at, entry);
                assert forall|i: int| 0 <= i < self.entries@.len() implies (
                #[trigger] self.entries@[i]).key.consistent() by {
                    if i != at {
                        assert(self.entries@[i] == old(self).entries@[i]);
                    }
                }
                Ok(false)
            },
            None => {
                let entry = TableEntry { key, info: InfoAddressPortPair::start(event) };
                proof {
                    lemma_totals_of_push(self.entries@, entry);
                }
                self.entries.push(entry);
                assert forall|i: int| 0 <= i < self.entries@.len() implies (
                #[trigger] self.entries@[i]).key.consistent() by {
                    if i < old(self).entries@.len() {
                        assert(self.entries@[i] == old(self).entries@[i]);
                    }
                }
                Ok(true)
            },
        }
    }

    /// Takes an observation in at the boundary: one whose ports do not
    /// agree with its protocol is turned away and never reaches the table;
    /// any other is recorded.
    pub fn ingest(&mut self, event: &ConnectionEvent) -> (outcome: Result<bool, RecordError>)
        requires
            old(self).wf(),
        ensures
            final(self).wf(),
            outcome is Ok <==> event@.well_formed() && !(old(self)@.contains_key(event@.key)
                && !old(self)@[event@.key].absorbed(event@).fits()),
            outcome matches Err(RecordError::Malformed(error)) ==> !event@.well_formed() && (error
                == EventError::MissingPort <==> event.protocol.has_ports()),
            outcome == Err::<bool, RecordError>(RecordError::CounterOverflow)
                ==> event@.well_formed(),
            outcome is Err ==> final(self)@ == old(self)@ && final(self).keys() == old(self).keys()
                && final(self).entries() == old(self).entries(),
            outcome matches Ok(first_sight) ==> {
                &&& first_sight == !old(self)@.contains_key(event@.key)
                &&& final(self)@ == recorded(old(self)@, event@)
                &&& final(self).keys() == if first_sight {
                    old(self).keys().push(event@.key)
                } else {
                    old(self).keys()
                }
            },
    {
        match event.validate() {
            Err(error) => Err(RecordError::Malformed(error)),
            Ok(()) => self.record(event),
        }
    }

    /// A copy of every entry, in the order in which the pairs were first
    /// seen.
    pub fn snapshot(&self) -> (entries: Vec<TableEntry>)
        ensures
            entries@ == self.entries(),
    {
        let mut entries: Vec<TableEntry> = Vec::new();
        let mut i: usize = 0;
        while i < self.entries.len()
            invariant
                i <= self.entries.len(),
                entries@ == self.entries@.take(i as int),
            decreases self.entries.len() - i,
        {
            let entry = TableEntry { key: self.entries[i].key, info: self.entries[i].info.clone() };
            entries.push(entry);
            assert(entries@ =~= self.entries@.take(i + 1));
            i += 1;
        }
        assert(self.entries@.take(self.entries@.len() as int) == self.entries@);
        entries
    }

    /// Forgets every connection.
    pub fn reset(&mut self)
        ensures
            final(self).wf(),
            final(self)@ == Map::<AddressPortPair, InfoView>::empty(),
            final(self).keys() == Seq::<AddressPortPair>::empty(),
    {
        self.entries.clear();
        assert(self@ =~= Map::<AddressPortPair, InfoView>::empty());
        assert(self.keys() =~= Seq::<AddressPortPair>::empty());
    }
}

/// Bytes that the table counts for the pair in the given direction; none
/// for a pair that it does not have.
pub open spec fn bytes_counted(
    table: Map<AddressPortPair, InfoView>,
    key: AddressPortPair,
    direction: TrafficDirection,
) -> nat {
    if !table.contains_key(key) {
        0
    } else if direction == TrafficDirection::Outgoing {
        table[key].transmitted_bytes
    } else {
        table[key].received_bytes
    }
}

/// Packets that the table counts for the pair in the given direction; none
/// for a pair that it does not have.
pub open spec fn packets_counted(
    table: Map<AddressPortPair, InfoView>,
    key: AddressPortPair,
    direction: TrafficDirection,
) -> nat {
    if !table.contains_key(key) {
        0
    } else if direction == TrafficDirection::Outgoing {
        table[key].transmitted_packets
    } else {
        table[key].received_packets
    }
}

/// Bytes of the observations of the pair in the given direction, added up.
pub open spec fn bytes_observed(
    events: Seq<EventView>,
    key: AddressPortPair,
    direction: TrafficDirection,
) -> nat
    decreases events.len(),
{
    if events.len() == 0 {
        0
    } else if events.last().key == key {
        bytes_observed(events.drop_last(), key, direction) + share(
            direction,
            events.last(),
            events.last().bytes,
        )
    } else {
        bytes_observed(events.drop_last(), key, direction)
    }
}

/// Packets of the observations of the pair in the given direction, added
/// up.
pub open spec fn packets_observed(
    events: Seq<EventView>,
    key: AddressPortPair,
    direction: TrafficDirection,
) -> nat
    decreases events.len(),
{
    if events.len() == 0 {
        0
    } else if events.last().key == key {
        packets_observed(events.drop_last(), key, direction) + share(
            direction,
            events.last(),
            events.last().packets,
        )
    } else {
        packets_observed(events.drop_last(), key, direction)
    }
}

/// The observations of the pair among the given ones, in their order.
pub open spec fn observations_of(events: Seq<EventView>, key: AddressPortPair) -> Seq<EventView>
    decreases events.len(),
{
    if events.len() == 0 {
        events
    } else if events.last().key == key {
        observations_of(events.drop_last(), key).push(events.last())
    } else {
        observations_of(events.drop_last(), key)
    }
}

/// No update is lost: after any observations, recorded one after the
/// other, the table counts for each pair and direction what it counted
/// before and the bytes and packets of all observations of that pair in
/// that direction. A pair has an entry if it had one before or was
/// observed.
pub proof fn lemma_totals_are_sums(
    table: Map<AddressPortPair, InfoView>,
    events: Seq<EventView>,
    key: AddressPortPair,
    direction: TrafficDirection,
)
    ensures
        bytes_counted(recorded_all(table, events), key, direction) == bytes_counted(
            table,
            key,
            direction,
        ) + bytes_observed(events, key, direction),
        packets_counted(recorded_all(table, events), key, direction) == packets_counted(
            table,
            key,
            direction,
        ) + packets_observed(events, key, direction),
        recorded_all(table, events).contains_key(key) <==> table.contains_key(key) || exists|
            i: int,
        |
            0 <= i < events.len() && (#[trigger] events[i]).key == key,
    decreases events.len(),
{
    if events.len() > 0 {
        let before = events.drop_last();
        lemma_totals_are_sums(table, before, key, direction);
        if recorded_all(table, events).contains_key(key) && !table.contains_key(key) {
            if events.last().key == key {
                assert(events[events.len() - 1].key == key);
            } else {
                let i = choose|i: int| 0 <= i < before.len() && (#[trigger] before[i]).key == key;
                assert(events[i].key == key);
            }
        }
        if exists|i: int| 0 <= i < events.len() && (#[trigger] events[i]).key == key {
            let i = choose|i: int| 0 <= i < events.len() && (#[trigger] events[i]).key == key;
            if i < before.len() {
                assert(before[i].key == key);
            }
        }
    }
}

/// The totals of a pair depend on the observations of that pair alone, in
/// their order: observations of other pairs, wherever they stand between
/// them, change nothing for it.
pub proof fn lemma_other_pairs_do_not_matter(
    table: Map<AddressPortPair, InfoView>,
    events: Seq<EventView>,
    key: AddressPortPair,
)
    ensures
        recorded_all(table, events).contains_key(key) == recorded_all(
            table,
            observations_of(events, key),
        ).contains_key(key),
        recorded_all(table, events).contains_key(key) ==> recorded_all(table, events)[key]
            == recorded_all(table, observations_of(events, key))[key],
    decreases events.len(),
{
    if events.len() > 0 {
        lemma_other_pairs_do_not_matter(table, events.drop_last(), key);
        if events.last().key == key {
            let own = observations_of(events.drop_last(), key);
            assert(own.push(events.last()).drop_last() == own);
        }
    }
}

} // verus!
