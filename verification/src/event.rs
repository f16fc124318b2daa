//! Events that flow through the agent: log entries and metric samples.

use vstd::prelude::*;

use crate::fields::FieldMap;
use crate::time::{now, Timestamp};

verus! {

#[verifier::external_type_specification]
#[verifier::external_body]
pub struct ExJsonValue(serde_json::Value);

/// Applies each `(key, value)` pair in turn, later pairs overriding earlier ones.
pub open spec fn insert_all<V>(m: Map<Seq<char>, V>, pairs: Seq<(Seq<char>, V)>) -> Map<Seq<char>, V>
    decreases pairs.len(),
{
    if pairs.len() == 0 {
        m
    } else {
        insert_all(m, pairs.drop_last()).insert(pairs.last().0, pairs.last().1)
    }
}

/// The position of the last pair with key `k`, if any.
pub open spec fn last_pair(pairs: Seq<(Seq<char>, String)>, k: Seq<char>) -> Option<int>
    decreases pairs.len(),
{
    if pairs.len() == 0 {
        None
    } else if pairs.last().0 == k {
        Some(pairs.len() - 1)
    } else {
        last_pair(pairs.drop_last(), k)
    }
}

/// Setting several tags at once: for each name, the last pair that names it
/// decides its value; a name no pair mentions keeps its earlier value.
pub proof fn law_last_pair_wins(m: Map<Seq<char>, String>, pairs: Seq<(Seq<char>, String)>, k: Seq<char>)
    ensures
        last_pair(pairs, k) matches Some(i) ==> 0 <= i < pairs.len() && insert_all(m, pairs).contains_key(k)
            && insert_all(m, pairs)[k] == pairs[i].1,
        last_pair(pairs, k) is None ==> (insert_all(m, pairs).contains_key(k) == m.contains_key(k)
            && (m.contains_key(k) ==> insert_all(m, pairs)[k] == m[k])),
    decreases pairs.len(),
{
    if pairs.len() > 0 {
        law_last_pair_wins(m, pairs.drop_last(), k);
        if pairs.last().0 != k {
            if let Some(i) = last_pair(pairs.drop_last(), k) {
                assert(pairs.drop_last()[i] == pairs[i]);
            }
        }
    }
}

/// The keys and values of a list of tag pairs.
pub open spec fn tag_pairs(tags: Seq<(&'static str, String)>) -> Seq<(Seq<char>, String)> {
    tags.map_values(|p: (&'static str, String)| (p.0@, p.1))
}

/// A metric sample.
#[derive(Debug)]
pub struct Metric {
    pub timestamp: Timestamp,
    pub name: String,
    /// Tags, kept in key order.
    pub tags: FieldMap<String>,
    /// The sample value: the bit pattern of an IEEE-754 double
    /// (`f64::to_bits`); it is carried, never computed on.
    pub value_bits: u64,
}

impl Metric {
    /// A sample taken at `timestamp`, without tags.
    pub fn at(timestamp: Timestamp, name: String, value_bits: u64) -> (m: Metric)
        ensures
            m.timestamp == timestamp,
            m.name == name,
            m.value_bits == value_bits,
            m.tags.view() == Map::<Seq<char>, String>::empty(),
            m.tags.entries().len() == 0,
            m.tags.is_sorted(),
    {
        Metric { timestamp, name, tags: FieldMap::new(), value_bits }
    }

    /// A sample taken now, without tags.
    pub fn now(name: String, value_bits: u64) -> (m: Metric)
        ensures
            m.name == name,
            m.value_bits == value_bits,
            m.tags.view() == Map::<Seq<char>, String>::empty(),
            m.tags.entries().len() == 0,
            m.tags.is_sorted(),
            m.timestamp.nanos < 1_000_000_000,
    {
        Metric::at(now(), name, value_bits)
    }

    /// Adds the tag `name` when a value is given; leaves the sample unchanged otherwise.
    pub fn with_optional_tag(self, name: String, value: Option<String>) -> (m: Metric)
        ensures
            m.timestamp == self.timestamp,
            m.name == self.name,
            m.value_bits == self.value_bits,
            m.tags.is_sorted(),
            m.tags.view() == (match value {
                Some(v) => self.tags.view().insert(name@, v),
                None => self.tags.view(),
            }),
    {
        match value {
            Some(inner) => self.with_tag(name, inner),
            None => {
                proof {
                    use_type_invariant(&self.tags);
                }
                self
            },
        }
    }

    /// Sets the tag `name` to `value`, replacing any earlier value.
    pub fn with_tag(self, name: String, value: String) -> (m: Metric)
        ensures
            m.timestamp == self.timestamp,
            m.name == self.name,
            m.value_bits == self.value_bits,
            m.tags.is_sorted(),
            m.tags.view() == self.tags.view().insert(name@, value),
            m.tags.entries().len() == self.tags.entries().len() + (if self.tags.view().contains_key(name@) {
                0int
            } else {
                1int
            }),
    {
        let Metric { timestamp, name: metric_name, tags, value_bits } = self;
        Metric { timestamp, name: metric_name, tags: tags.insert(name, value), value_bits }
    }

    /// Sets each tag in turn; a later pair overrides an earlier one with the same name.
    pub fn with_tags(self, tags: Vec<(&'static str, String)>) -> (m: Metric)
        ensures
            m.timestamp == self.timestamp,
            m.name == self.name,
            m.value_bits == self.value_bits,
            m.tags.is_sorted(),
            m.tags.view() == insert_all(self.tags.view(), tag_pairs(tags@)),
    {
        let Metric { timestamp, name, tags: mut map, value_bits } = self;
        let ghost start = map.view();
        let ghost pairs = tag_pairs(tags@);
        let n = tags.len();
        let mut i: usize = 0;
        proof {
            use_type_invariant(&map);
        }
        while i < n
            invariant
                n == tags@.len(),
                pairs == tag_pairs(tags@),
                i <= n,
                map.is_sorted(),
                map.view() == insert_all(start, pairs.take(i as int)),
            decreases n - i,
        {
            let (key, value) = &tags[i];
            map = map.insert((*key).to_owned(), value.clone());
            assert(pairs.take(i + 1).drop_last() =~= pairs.take(i as int));
            i = i + 1;
        }
        assert(pairs.take(n as int) =~= pairs);
        Metric { timestamp, name, tags: map, value_bits }
    }
}

/// A log entry: named JSON fields, kept in key order.
#[derive(Debug)]
pub struct Log {
    pub inner: FieldMap<serde_json::Value>,
}

impl Default for Log {
    /// A log entry without fields.
    fn default() -> (l: Log)
        ensures
            l.inner.view() == Map::<Seq<char>, serde_json::Value>::empty(),
            l.inner.is_sorted(),
    {
        Log { inner: FieldMap::new() }
    }
}

impl Log {
    /// Sets the field `name` to `value`, replacing any earlier value.
    pub fn with(self, name: String, value: serde_json::Value) -> (l: Log)
        ensures
            l.inner.view() == self.inner.view().insert(name@, value),
            l.inner.is_sorted(),
    {
        Log { inner: self.inner.insert(name, value) }
    }

    /// Sets the `message` field.
    pub fn with_message(self, message: serde_json::Value) -> (l: Log)
        ensures
            l.inner.view() == self.inner.view().insert("message"@, message),
            l.inner.is_sorted(),
    {
        self.with("message".to_owned(), message)
    }
}

/// An event: a log entry or a metric sample.
#[derive(Debug)]
pub enum Event {
    Log(Log),
    Metric(Metric),
}

impl Event {
    /// The event is a log entry.
    pub fn is_log(&self) -> (b: bool)
        ensures
            b == self is Log,
    {
        match self {
            Event::Log(_) => true,
            Event::Metric(_) => false,
        }
    }

    /// The event is a metric sample.
    pub fn is_metric(&self) -> (b: bool)
        ensures
            b == self is Metric,
    {
        match self {
            Event::Log(_) => false,
            Event::Metric(_) => true,
        }
    }
}

impl From<Log> for Event {
    fn from(value: Log) -> (e: Event) {
        Event::Log(value)
    }
}

impl vstd::std_specs::convert::FromSpecImpl<Log> for Event {
    open spec fn obeys_from_spec() -> bool {
        true
    }

    open spec fn from_spec(v: Log) -> Event {
        Event::Log(v)
    }
}

impl From<Metric> for Event {
    fn from(value: Metric) -> (e: Event) {
        Event::Metric(value)
    }
}

impl vstd::std_specs::convert::FromSpecImpl<Metric> for Event {
    open spec fn obeys_from_spec() -> bool {
        true
    }

    open spec fn from_spec(v: Metric) -> Event {
        Event::Metric(v)
    }
}

} // verus!
