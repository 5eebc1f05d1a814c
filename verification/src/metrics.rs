//! The metrics store: the latest reading of every published quantity.
//!
//! The set of metrics is fixed. A key names one time series: a metric and,
//! where the metric has one, the value of its label. The store keeps one
//! sample per key and overwrites it on every update; it keeps no history.

use vstd::prelude::*;
use crate::counter::capped;
use crate::payloads::{Monitor, Reading};

verus! {

/// One of the two receiver channels.
#[derive(Clone, Copy, Debug, PartialEq, Eq, Structural)]
pub enum Channel {
    One,
    Two,
}

/// One of the four supply rails.
#[derive(Clone, Copy, Debug, PartialEq, Eq, Structural)]
pub enum Rail {
    Input,
    Analog,
    LnaOne,
    LnaTwo,
}

/// The name of one time series.
#[derive(Clone, Copy, Debug, PartialEq, Eq, Structural)]
pub enum MetricKey {
    /// Board temperature; the metric has no label.
    BoardTemp,
    /// Output power of one channel.
    IfPower(Channel),
    /// Voltage of one rail.
    Voltage(Rail),
    /// Current of one rail.
    Current(Rail),
}

/// The number of keys.
pub const KEY_COUNT: usize = 11;

/// The place of a channel among the channels.
pub open spec fn channel_index(c: Channel) -> int {
    match c {
        Channel::One => 0,
        Channel::Two => 1,
    }
}

/// The place of a rail among the rails.
pub open spec fn rail_index(r: Rail) -> int {
    match r {
        Rail::Input => 0,
        Rail::Analog => 1,
        Rail::LnaOne => 2,
        Rail::LnaTwo => 3,
    }
}

/// The place of a key in the fixed order of keys: board temperature first,
/// then the channels' powers, the rails' voltages and the rails' currents.
pub open spec fn key_index(k: MetricKey) -> int {
    match k {
        MetricKey::BoardTemp => 0,
        MetricKey::IfPower(c) => 1 + channel_index(c),
        MetricKey::Voltage(r) => 3 + rail_index(r),
        MetricKey::Current(r) => 7 + rail_index(r),
    }
}

/// The key at place `i` of the fixed order.
pub open spec fn key_at(i: int) -> MetricKey {
    if i <= 0 {
        MetricKey::BoardTemp
    } else if i == 1 {
        MetricKey::IfPower(Channel::One)
    } else if i == 2 {
        MetricKey::IfPower(Channel::Two)
    } else if i == 3 {
        MetricKey::Voltage(Rail::Input)
    } else if i == 4 {
        MetricKey::Voltage(Rail::Analog)
    } else if i == 5 {
        MetricKey::Voltage(Rail::LnaOne)
    } else if i == 6 {
        MetricKey::Voltage(Rail::LnaTwo)
    } else if i == 7 {
        MetricKey::Current(Rail::Input)
    } else if i == 8 {
        MetricKey::Current(Rail::Analog)
    } else if i == 9 {
        MetricKey::Current(Rail::LnaOne)
    } else {
        MetricKey::Current(Rail::LnaTwo)
    }
}

/// Every key has a place of its own, and every place has its key.
pub proof fn lemma_key_order()
    ensures
        forall|k: MetricKey| 0 <= #[trigger] key_index(k) < KEY_COUNT && key_at(key_index(k)) == k,
        forall|i: int| 0 <= i < KEY_COUNT ==> key_index(#[trigger] key_at(i)) == i,
{
}

impl Channel {
    /// The value of the label `ch` for this channel.
    pub fn label(&self) -> (s: &'static str)
        ensures
            s@ == channel_label(*self),
    {
        match self {
            Channel::One => "ch1",
            Channel::Two => "ch2",
        }
    }
}

impl Rail {
    /// The value of the label `rail` for this rail.
    pub fn label(&self) -> (s: &'static str)
        ensures
            s@ == rail_label(*self),
    {
        match self {
            Rail::Input => "input",
            Rail::Analog => "analog",
            Rail::LnaOne => "ch1",
            Rail::LnaTwo => "ch2",
        }
    }
}

/// The label value under which a channel is published.
pub open spec fn channel_label(c: Channel) -> Seq<char> {
    match c {
        Channel::One => "ch1"@,
        Channel::Two => "ch2"@,
    }
}

/// The label value under which a rail is published.
pub open spec fn rail_label(r: Rail) -> Seq<char> {
    match r {
        Rail::Input => "input"@,
        Rail::Analog => "analog"@,
        Rail::LnaOne => "ch1"@,
        Rail::LnaTwo => "ch2"@,
    }
}

/// The name of the metric that a key belongs to.
pub open spec fn metric_name_of(k: MetricKey) -> Seq<char> {
    match k {
        MetricKey::BoardTemp => "board_temp"@,
        MetricKey::IfPower(_) => "if_power"@,
        MetricKey::Voltage(_) => "voltages"@,
        MetricKey::Current(_) => "currents"@,
    }
}

/// The label of a key, as its name and its value; `None` for the metric
/// without a label.
pub open spec fn label_of(k: MetricKey) -> Option<(Seq<char>, Seq<char>)> {
    match k {
        MetricKey::BoardTemp => None,
        MetricKey::IfPower(c) => Some(("ch"@, channel_label(c))),
        MetricKey::Voltage(r) => Some(("rail"@, rail_label(r))),
        MetricKey::Current(r) => Some(("rail"@, rail_label(r))),
    }
}

impl MetricKey {
    /// The place of the key in the fixed order of keys.
    pub fn index(&self) -> (i: usize)
        ensures
            i == key_index(*self),
            i < KEY_COUNT,
    {
        match self {
            MetricKey::BoardTemp => 0,
            MetricKey::IfPower(Channel::One) => 1,
            MetricKey::IfPower(Channel::Two) => 2,
            MetricKey::Voltage(Rail::Input) => 3,
            MetricKey::Voltage(Rail::Analog) => 4,
            MetricKey::Voltage(Rail::LnaOne) => 5,
            MetricKey::Voltage(Rail::LnaTwo) => 6,
            MetricKey::Current(Rail::Input) => 7,
            MetricKey::Current(Rail::Analog) => 8,
            MetricKey::Current(Rail::LnaOne) => 9,
            MetricKey::Current(Rail::LnaTwo) => 10,
        }
    }

    /// The key at place `i` of the fixed order, if there is one.
    pub fn from_index(i: usize) -> (k: Option<MetricKey>)
        ensures
            k == if i < KEY_COUNT {
                Some(key_at(i as int))
            } else {
                None
            },
    {
        if i == 0 {
            Some(MetricKey::BoardTemp)
        } else if i == 1 {
            Some(MetricKey::IfPower(Channel::One))
        } else if i == 2 {
            Some(MetricKey::IfPower(Channel::Two))
        } else if i == 3 {
            Some(MetricKey::Voltage(Rail::Input))
        } else if i == 4 {
            Some(MetricKey::Voltage(Rail::Analog))
        } else if i == 5 {
            Some(MetricKey::Voltage(Rail::LnaOne))
        } else if i == 6 {
            Some(MetricKey::Voltage(Rail::LnaTwo))
        } else if i == 7 {
            Some(MetricKey::Current(Rail::Input))
        } else if i == 8 {
            Some(MetricKey::Current(Rail::Analog))
        } else if i == 9 {
            Some(MetricKey::Current(Rail::LnaOne))
        } else if i == 10 {
            Some(MetricKey::Current(Rail::LnaTwo))
        } else {
            None
        }
    }

    /// The name of the metric that the key belongs to.
    pub fn metric_name(&self) -> (s: &'static str)
        ensures
            s@ == metric_name_of(*self),
    {
        match self {
            MetricKey::BoardTemp => "board_temp",
            MetricKey::IfPower(_) => "if_power",
            MetricKey::Voltage(_) => "voltages",
            MetricKey::Current(_) => "currents",
        }
    }

    /// The label of the key, as its name and its value; `None` for the metric
    /// without a label.
    pub fn label(&self) -> (l: Option<(&'static str, &'static str)>)
        ensures
            match l {
                Some((name, value)) => label_of(*self) == Some((name@, value@)),
                None => label_of(*self).is_none(),
            },
    {
        match self {
            MetricKey::BoardTemp => None,
            MetricKey::IfPower(c) => Some(("ch", c.label())),
            MetricKey::Voltage(r) => Some(("rail", r.label())),
            MetricKey::Current(r) => Some(("rail", r.label())),
        }
    }
}

/// One stored observation.
#[derive(Clone, Copy, Debug, PartialEq, Eq, Structural)]
pub struct MetricSample {
    /// The series that the observation belongs to.
    pub key: MetricKey,
    /// The value observed.
    pub value: Reading,
    /// The number of the write that stored it, counted from one over all the
    /// writes to the store; the count stops at `u64::MAX`.
    pub updated_at: u64,
}

/// The reading that a telemetry record holds for a key.
pub open spec fn reading_of(record: Monitor, k: MetricKey) -> Reading {
    match k {
        MetricKey::BoardTemp => record.board_temp,
        MetricKey::IfPower(Channel::One) => record.if_power.channel_one,
        MetricKey::IfPower(Channel::Two) => record.if_power.channel_two,
        MetricKey::Voltage(Rail::Input) => record.voltages.raw_input,
        MetricKey::Voltage(Rail::Analog) => record.voltages.analog,
        MetricKey::Voltage(Rail::LnaOne) => record.voltages.lna_one,
        MetricKey::Voltage(Rail::LnaTwo) => record.voltages.lna_two,
        MetricKey::Current(Rail::Input) => record.currents.raw_input,
        MetricKey::Current(Rail::Analog) => record.currents.analog,
        MetricKey::Current(Rail::LnaOne) => record.currents.lna_one,
        MetricKey::Current(Rail::LnaTwo) => record.currents.lna_two,
    }
}

/// What a store holds: its samples and the number of writes made to it.
#[verifier::ext_equal]
pub struct StoreState {
    pub samples: Map<MetricKey, MetricSample>,
    pub writes: nat,
}

/// The state `s` after `value` was stored under `key`: the write is counted,
/// the key holds the new sample, and every other key holds what it held.
pub open spec fn stored(s: StoreState, key: MetricKey, value: Reading) -> StoreState {
    StoreState {
        samples: s.samples.insert(
            key,
            MetricSample { key, value, updated_at: capped(s.writes + 1) as u64 },
        ),
        writes: capped(s.writes + 1),
    }
}

/// The state `s` after `record` was published: one write per key, in the
/// fixed order of keys, each with the reading that the record has for the
/// key.
pub open spec fn published(s: StoreState, record: Monitor) -> StoreState {
    StoreState {
        samples: Map::new(
            |k: MetricKey| true,
            |k: MetricKey|
                MetricSample {
                    key: k,
                    value: reading_of(record, k),
                    updated_at: capped((s.writes + key_index(k) + 1) as nat) as u64,
                },
        ),
        writes: capped(s.writes + KEY_COUNT as nat),
    }
}

/// Publishing a record is storing its eleven readings one after another, in
/// the fixed order of keys.
pub proof fn lemma_published_is_stored_in_order(s: StoreState, record: Monitor)
    ensures
        published(s, record) == stored(
            stored(
                stored(
                    stored(
                        stored(
                            stored(
                                stored(
                                    stored(
                                        stored(
                                            stored(
                                                stored(
                                                    s,
                                                    MetricKey::BoardTemp,
                                                    record.board_temp,
                                                ),
                                                MetricKey::IfPower(Channel::One),
                                                record.if_power.channel_one,
                                            ),
                                            MetricKey::IfPower(Channel::Two),
                                            record.if_power.channel_two,
                                        ),
                                        MetricKey::Voltage(Rail::Input),
                                        record.voltages.raw_input,
                                    ),
                                    MetricKey::Voltage(Rail::Analog),
                                    record.voltages.analog,
                                ),
                                MetricKey::Voltage(Rail::LnaOne),
                                record.voltages.lna_one,
                            ),
                            MetricKey::Voltage(Rail::LnaTwo),
                            record.voltages.lna_two,
                        ),
                        MetricKey::Current(Rail::Input),
                        record.currents.raw_input,
                    ),
                    MetricKey::Current(Rail::Analog),
                    record.currents.analog,
                ),
                MetricKey::Current(Rail::LnaOne),
                record.currents.lna_one,
            ),
            MetricKey::Current(Rail::LnaTwo),
            record.currents.lna_two,
        ),
{
    let s1 = stored(s, MetricKey::BoardTemp, record.board_temp);
    let s2 = stored(s1, MetricKey::IfPower(Channel::One), record.if_power.channel_one);
    let s3 = stored(s2, MetricKey::IfPower(Channel::Two), record.if_power.channel_two);
    let s4 = stored(s3, MetricKey::Voltage(Rail::Input), record.voltages.raw_input);
    let s5 = stored(s4, MetricKey::Voltage(Rail::Analog), record.voltages.analog);
    let s6 = stored(s5, MetricKey::Voltage(Rail::LnaOne), record.voltages.lna_one);
    let s7 = stored(s6, MetricKey::Voltage(Rail::LnaTwo), record.voltages.lna_two);
    let s8 = stored(s7, MetricKey::Current(Rail::Input), record.currents.raw_input);
    let s9 = stored(s8, MetricKey::Current(Rail::Analog), record.currents.analog);
    let s10 = stored(s9, MetricKey::Current(Rail::LnaOne), record.currents.lna_one);
    let s11 = stored(s10, MetricKey::Current(Rail::LnaTwo), record.currents.lna_two);
    assert(published(s, record).samples =~= s11.samples);
    assert(published(s, record) =~= s11);
}

/// The later of two values stored under a key is the one that stays, and no
/// other key is touched. So storing a value a second time leaves every value
/// as it was.
pub proof fn lemma_last_write_wins(s: StoreState, key: MetricKey, first: Reading, second: Reading)
    ensures
        ({
            let twice = stored(stored(s, key, first), key, second).samples;
            &&& twice.dom() == s.samples.dom().insert(key)
            &&& twice[key].value == second
            &&& forall|k: MetricKey|
                k != key && s.samples.contains_key(k) ==> #[trigger] twice[k] == s.samples[k]
        }),
{
    let twice = stored(stored(s, key, first), key, second).samples;
    assert(twice.dom() =~= s.samples.dom().insert(key));
}

/// The samples of `m` from place `from` of the fixed order of keys onwards,
/// in that order.
pub open spec fn listing_from(m: Map<MetricKey, MetricSample>, from: int) -> Seq<MetricSample>
    decreases KEY_COUNT - from,
{
    if from < 0 || from >= KEY_COUNT {
        Seq::empty()
    } else if m.contains_key(key_at(from)) {
        seq![m[key_at(from)]] + listing_from(m, from + 1)
    } else {
        listing_from(m, from + 1)
    }
}

/// The samples of `m` in the fixed order of keys.
pub open spec fn listing(m: Map<MetricKey, MetricSample>) -> Seq<MetricSample> {
    listing_from(m, 0)
}

/// Every sample of `m` carries the key under which `m` holds it.
pub open spec fn keyed(m: Map<MetricKey, MetricSample>) -> bool {
    forall|k: MetricKey| m.contains_key(k) ==> (#[trigger] m[k]).key == k
}

/// What a listing from place `from` onwards holds: samples of `m` only, in
/// rising order of their keys, and the sample of every key of `m` from that
/// place onwards.
pub proof fn lemma_listing_from(m: Map<MetricKey, MetricSample>, from: int)
    requires
        keyed(m),
        0 <= from <= KEY_COUNT,
    ensures
        forall|j: int|
            0 <= j < listing_from(m, from).len() ==> {
                let s = #[trigger] listing_from(m, from)[j];
                from <= key_index(s.key) && m.contains_key(s.key) && m[s.key] == s
            },
        forall|i: int, j: int|
            0 <= i < j < listing_from(m, from).len() ==> key_index(
                (#[trigger] listing_from(m, from)[i]).key,
            ) < key_index((#[trigger] listing_from(m, from)[j]).key),
        forall|k: MetricKey|
            m.contains_key(k) && from <= key_index(k) ==> listing_from(m, from).contains(
                #[trigger] m[k],
            ),
    decreases KEY_COUNT - from,
{
    lemma_key_order();
    if from < KEY_COUNT {
        lemma_listing_from(m, from + 1);
        let rest = listing_from(m, from + 1);
        let all = listing_from(m, from);
        let here = key_at(from);
        if m.contains_key(here) {
            assert(all == seq![m[here]] + rest);
            assert(all[0] == m[here]);
            assert forall|j: int| 1 <= j < all.len() implies all[j] == rest[j - 1] by {}
            assert forall|k: MetricKey|
                m.contains_key(k) && from <= key_index(k) implies all.contains(
                #[trigger] m[k],
            ) by {
                if key_index(k) == from {
                    assert(k == here);
                    assert(all[0] == m[k]);
                } else {
                    assert(rest.contains(m[k]));
                    let j = choose|j: int| 0 <= j < rest.len() && rest[j] == m[k];
                    assert(all[j + 1] == m[k]);
                }
            }
        } else {
            assert(all == rest);
            assert forall|k: MetricKey|
                m.contains_key(k) && from <= key_index(k) implies all.contains(
                #[trigger] m[k],
            ) by {
                assert(key_index(k) != from);
            }
        }
    }
}

/// Where nothing was stored there is nothing to list.
pub proof fn lemma_listing_of_nothing()
    ensures
        listing(Map::<MetricKey, MetricSample>::empty()) == Seq::<MetricSample>::empty(),
{
    reveal_with_fuel(listing_from, 12);
}

/// A listing holds the sample of every key of the map once, and nothing
/// else, in the fixed order of keys.
pub proof fn lemma_listing(m: Map<MetricKey, MetricSample>)
    requires
        keyed(m),
    ensures
        forall|j: int|
            0 <= j < listing(m).len() ==> {
                let s = #[trigger] listing(m)[j];
                m.contains_key(s.key) && m[s.key] == s
            },
        forall|i: int, j: int|
            0 <= i < j < listing(m).len() ==> key_index((#[trigger] listing(m)[i]).key)
                < key_index((#[trigger] listing(m)[j]).key),
        forall|k: MetricKey| m.contains_key(k) ==> listing(m).contains(#[trigger] m[k]),
{
    lemma_listing_from(m, 0);
    lemma_key_order();
}

/// What the store keeps for a key that was written.
#[derive(Clone, Copy)]
struct Slot {
    value: Reading,
    updated_at: u64,
}

/// A store of the latest sample per key.
pub struct MetricsStore {
    slots: Vec<Option<Slot>>,
    writes: u64,
}

impl View for MetricsStore {
    type V = Map<MetricKey, MetricSample>;

    /// The sample held for each key that has been written.
    closed spec fn view(&self) -> Map<MetricKey, MetricSample> {
        Map::new(
            |k: MetricKey| self.slots@[key_index(k)] is Some,
            |k: MetricKey|
                MetricSample {
                    key: k,
                    value: self.slots@[key_index(k)]->0.value,
                    updated_at: self.slots@[key_index(k)]->0.updated_at,
                },
        )
    }
}

impl MetricsStore {
    #[verifier::type_invariant]
    spec fn well_formed(&self) -> bool {
        self.slots@.len() == KEY_COUNT
    }

    /// Every sample of a store carries the key under which the store holds
    /// it.
    pub proof fn lemma_keyed(&self)
        ensures
            keyed(self@),
    {
    }

    /// The number of writes made so far, capped at `u64::MAX`.
    pub closed spec fn written(&self) -> nat {
        self.writes as nat
    }

    /// The samples held and the number of writes made.
    pub open spec fn state(&self) -> StoreState {
        StoreState { samples: self@, writes: self.written() }
    }

    /// A store without samples.
    pub fn new() -> (s: MetricsStore)
        ensures
            s@ == Map::<MetricKey, MetricSample>::empty(),
            s.written() == 0,
    {
        let mut slots: Vec<Option<Slot>> = Vec::new();
        let mut i: usize = 0;
        while i < KEY_COUNT
            invariant
                i <= KEY_COUNT,
                slots@.len() == i,
                forall|j: int| 0 <= j < i ==> slots@[j] is None,
            decreases KEY_COUNT - i,
        {
            slots.push(None);
            i = i + 1;
        }
        let s = MetricsStore { slots, writes: 0 };
        proof {
            lemma_key_order();
            assert(s@ =~= Map::<MetricKey, MetricSample>::empty());
        }
        s
    }

    /// The number of writes made so far.
    pub fn writes(&self) -> (n: u64)
        ensures
            n == self.written(),
    {
        self.writes
    }

    /// Stores `value` as the latest sample of `key`. Every other key keeps
    /// what it had.
    pub fn set(&mut self, key: MetricKey, value: Reading)
        ensures
            final(self).state() == stored(old(self).state(), key, value),
    {
        proof {
            use_type_invariant(&*self);
            lemma_key_order();
        }
        let stamp = self.writes.saturating_add(1);
        let at = key.index();
        self.writes = stamp;
        self.slots[at] = Some(Slot { value, updated_at: stamp });
        assert(self.state().samples =~= stored(old(self).state(), key, value).samples);
    }

    /// The latest sample of `key`, if it was ever written.
    pub fn get(&self, key: MetricKey) -> (s: Option<MetricSample>)
        ensures
            s == if self@.contains_key(key) {
                Some(self@[key])
            } else {
                None
            },
    {
        proof {
            use_type_invariant(self);
        }
        match self.slots[key.index()] {
            Some(slot) => Some(
                MetricSample { key, value: slot.value, updated_at: slot.updated_at },
            ),
            None => None,
        }
    }

    /// The latest value of `key`, if it was ever written.
    pub fn value(&self, key: MetricKey) -> (v: Option<Reading>)
        ensures
            v == if self@.contains_key(key) {
                Some(self@[key].value)
            } else {
                None
            },
    {
        match self.get(key) {
            Some(sample) => Some(sample.value),
            None => None,
        }
    }

    /// Whether nothing was ever written.
    pub fn is_empty(&self) -> (b: bool)
        ensures
            b == (self@ == Map::<MetricKey, MetricSample>::empty()),
    {
        proof {
            use_type_invariant(self);
            lemma_key_order();
        }
        let mut i: usize = 0;
        while i < KEY_COUNT
            invariant
                i <= KEY_COUNT,
                self.slots@.len() == KEY_COUNT,
                forall|j: int| 0 <= j < i ==> self.slots@[j] is None,
            decreases KEY_COUNT - i,
        {
            if self.slots[i].is_some() {
                proof {
                    assert(key_index(key_at(i as int)) == i);
                    assert(self@.contains_key(key_at(i as int)));
                }
                return false;
            }
            i = i + 1;
        }
        assert(self@ =~= Map::<MetricKey, MetricSample>::empty());
        true
    }

    /// Stores every reading of `record` as the latest sample of its key, in
    /// the fixed order of keys. Afterwards every key holds the reading that
    /// the record has for it.
    pub fn publish(&mut self, record: &Monitor)
        ensures
            final(self).state() == published(old(self).state(), *record),
    {
        self.set(MetricKey::BoardTemp, record.board_temp);
        self.set(MetricKey::IfPower(Channel::One), record.if_power.channel_one);
        self.set(MetricKey::IfPower(Channel::Two), record.if_power.channel_two);
        self.set(MetricKey::Voltage(Rail::Input), record.voltages.raw_input);
        self.set(MetricKey::Voltage(Rail::Analog), record.voltages.analog);
        self.set(MetricKey::Voltage(Rail::LnaOne), record.voltages.lna_one);
        self.set(MetricKey::Voltage(Rail::LnaTwo), record.voltages.lna_two);
        self.set(MetricKey::Current(Rail::Input), record.currents.raw_input);
        self.set(MetricKey::Current(Rail::Analog), record.currents.analog);
        self.set(MetricKey::Current(Rail::LnaOne), record.currents.lna_one);
        self.set(MetricKey::Current(Rail::LnaTwo), record.currents.lna_two);
        assert(self.state().samples =~= published(old(self).state(), *record).samples);
    }

    /// The samples held, in the fixed order of keys: for every key that was
    /// ever written its latest sample, and nothing else.
    pub fn snapshot(&self) -> (samples: Vec<MetricSample>)
        ensures
            samples@ == listing(self@),
    {
        proof {
            use_type_invariant(self);
            lemma_key_order();
        }
        let mut samples: Vec<MetricSample> = Vec::new();
        let mut i: usize = 0;
        while i < KEY_COUNT
            invariant
                i <= KEY_COUNT,
                self.slots@.len() == KEY_COUNT,
                listing(self@) == samples@ + listing_from(self@, i as int),
            decreases KEY_COUNT - i,
        {
            let ghost before = samples@;
            if let Some(slot) = self.slots[i] {
                if let Some(key) = MetricKey::from_index(i) {
                    samples.push(
                        MetricSample { key, value: slot.value, updated_at: slot.updated_at },
                    );
                }
            }
            proof {
                assert(key_index(key_at(i as int)) == i);
                assert(before + listing_from(self@, i as int) == samples@ + listing_from(
                    self@,
                    i + 1,
                ));
            }
            i = i + 1;
        }
        assert(samples@ + listing_from(self@, KEY_COUNT as int) == samples@);
        samples
    }
}


} // verus!
