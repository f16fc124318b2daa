//! The Datadog sink: where it sends, how it authenticates, and how metric
//! samples are laid out in the series payload.

use vstd::prelude::*;

use vstd::utf8::encode_utf8;

use crate::event::{Event, Log, Metric};
use crate::fields::{lemma_as_map_at, lemma_sorted_determined, lemma_sorted_len};
use crate::order::key_lt;
use crate::time::not_before_epoch;

verus! {

#[verifier::external_type_specification]
#[verifier::external_body]
pub struct ExHeaderValue(reqwest::header::HeaderValue);

#[verifier::external_type_specification]
#[verifier::external_body]
pub struct ExInvalidHeaderValue(reqwest::header::InvalidHeaderValue);

/// A byte that may appear in an HTTP header value: visible ASCII,
/// space, tab, or any byte of 128 and above.
pub open spec fn header_byte_allowed(b: u8) -> bool {
    (b >= 32 && b != 127) || b == 9
}

/// Every byte of `bytes` may appear in a header value.
pub open spec fn header_value_allowed(bytes: Seq<u8>) -> bool {
    forall|i: int| 0 <= i < bytes.len() ==> header_byte_allowed(#[trigger] bytes[i])
}

/// The bytes a header value holds (what `HeaderValue::as_bytes` gives).
pub uninterp spec fn header_value_bytes(h: reqwest::header::HeaderValue) -> Seq<u8>;

/// Trusted: `reqwest::header::HeaderValue::from_str` (the `http` crate's).
/// Its source accepts the string exactly when each of its UTF-8 bytes is
/// allowed, and then copies those bytes unchanged into the value; both are
/// stated.
#[verifier::external_body]
fn header_value_from_str(s: &str) -> (r: Result<reqwest::header::HeaderValue, reqwest::header::InvalidHeaderValue>)
    ensures
        r is Ok <==> header_value_allowed(encode_utf8(s@)),
        r matches Ok(h) ==> header_value_bytes(h) == encode_utf8(s@),
{
    reqwest::header::HeaderValue::from_str(s)
}

/// The Datadog site an account lives on.
#[derive(Debug, Clone, Copy, PartialEq, Eq)]
pub enum DatadogRegion {
    Eu,
    Us1,
    Us3,
}

/// The site's API root.
pub open spec fn spec_base_url(r: DatadogRegion) -> Seq<char> {
    match r {
        DatadogRegion::Eu => "https://api.datadoghq.eu"@,
        DatadogRegion::Us1 => "https://api.datadoghq.com"@,
        DatadogRegion::Us3 => "https://api.us3.datadoghq.com"@,
    }
}

/// Where the site takes metric series.
pub open spec fn spec_metric_url(r: DatadogRegion) -> Seq<char> {
    match r {
        DatadogRegion::Eu => "https://api.datadoghq.eu/api/v2/series"@,
        DatadogRegion::Us1 => "https://api.datadoghq.com/api/v2/series"@,
        DatadogRegion::Us3 => "https://api.us3.datadoghq.com/api/v2/series"@,
    }
}

/// Where the site takes log entries.
pub open spec fn spec_logs_url(r: DatadogRegion) -> Seq<char> {
    match r {
        DatadogRegion::Eu => "https://http-intake.logs.datadoghq.eu/api/v2/logs"@,
        DatadogRegion::Us1 => "https://http-intake.logs.datadoghq.com/api/v2/logs"@,
        DatadogRegion::Us3 => "https://http-intake.logs.us3.datadoghq.com/api/v2/logs"@,
    }
}

/// The path of the series endpoint below the API root.
pub open spec fn series_path() -> Seq<char> {
    "/api/v2/series"@
}

impl DatadogRegion {
    /// The site's API root.
    pub fn base_url(&self) -> (u: &'static str)
        ensures
            u@ == spec_base_url(*self),
    {
        match self {
            DatadogRegion::Eu => "https://api.datadoghq.eu",
            DatadogRegion::Us1 => "https://api.datadoghq.com",
            DatadogRegion::Us3 => "https://api.us3.datadoghq.com",
        }
    }

    /// Where the site takes metric series.
    pub fn metric_url(&self) -> (u: &'static str)
        ensures
            u@ == spec_metric_url(*self),
    {
        match self {
            DatadogRegion::Eu => "https://api.datadoghq.eu/api/v2/series",
            DatadogRegion::Us1 => "https://api.datadoghq.com/api/v2/series",
            DatadogRegion::Us3 => "https://api.us3.datadoghq.com/api/v2/series",
        }
    }

    /// Where the site takes log entries.
    pub fn logs_url(&self) -> (u: &'static str)
        ensures
            u@ == spec_logs_url(*self),
    {
        match self {
            DatadogRegion::Eu => "https://http-intake.logs.datadoghq.eu/api/v2/logs",
            DatadogRegion::Us1 => "https://http-intake.logs.datadoghq.com/api/v2/logs",
            DatadogRegion::Us3 => "https://http-intake.logs.us3.datadoghq.com/api/v2/logs",
        }
    }
}

/// The metric series endpoint of every site is its API root followed by the
/// series path, so the URL built from the root and the fixed URL agree.
pub proof fn law_metric_url_is_base_url_and_series_path(r: DatadogRegion)
    ensures
        spec_metric_url(r) == spec_base_url(r) + series_path(),
{
    reveal_strlit("/api/v2/series");
    match r {
        DatadogRegion::Eu => {
            reveal_strlit("https://api.datadoghq.eu");
            reveal_strlit("https://api.datadoghq.eu/api/v2/series");
            assert(spec_metric_url(r) =~= spec_base_url(r) + series_path());
        },
        DatadogRegion::Us1 => {
            reveal_strlit("https://api.datadoghq.com");
            reveal_strlit("https://api.datadoghq.com/api/v2/series");
            assert(spec_metric_url(r) =~= spec_base_url(r) + series_path());
        },
        DatadogRegion::Us3 => {
            reveal_strlit("https://api.us3.datadoghq.com");
            reveal_strlit("https://api.us3.datadoghq.com/api/v2/series");
            assert(spec_metric_url(r) =~= spec_base_url(r) + series_path());
        },
    }
}

/// The number of events the sink sends in one request at most.
pub const BATCH_SIZE: usize = 10;

/// How the Datadog sink is configured.
#[derive(Debug)]
pub struct DatadogConfig {
    pub region: DatadogRegion,
    /// The API key.
    pub token: String,
}

/// Why a Datadog sink cannot be set up.
#[derive(Debug, Clone, Copy, PartialEq, Eq)]
pub enum DatadogConfigError {
    /// The API key holds a byte that no HTTP header value may hold.
    InvalidToken,
}

/// `headers` are `Accept: application/json` then
/// `Content-Type: application/json`.
pub open spec fn is_json_headers(headers: Seq<(&'static str, &'static str)>) -> bool {
    &&& headers.len() == 2
    &&& headers[0].0@ == "Accept"@
    &&& headers[0].1@ == "application/json"@
    &&& headers[1].0@ == "Content-Type"@
    &&& headers[1].1@ == "application/json"@
}

/// The headers every request of the sink carries besides the API key:
/// both the body sent and the answer wanted are JSON.
pub fn default_headers() -> (h: Vec<(&'static str, &'static str)>)
    ensures
        is_json_headers(h@),
{
    let mut h = Vec::new();
    h.push(("Accept", "application/json"));
    h.push(("Content-Type", "application/json"));
    h
}

/// What a Datadog sink needs to run: its endpoints, the headers of its
/// requests and the size of its batches.
#[derive(Debug)]
pub struct DatadogSettings {
    pub metrics_url: String,
    pub logs_url: String,
    /// The fixed headers of every request.
    pub headers: Vec<(&'static str, &'static str)>,
    /// The name of the header that carries the API key.
    pub api_key_header: &'static str,
    /// The API key, as that header's value.
    pub api_key: reqwest::header::HeaderValue,
    pub batch_size: usize,
}

impl DatadogConfig {
    /// The URL metric series are posted to: the region's API root followed by
    /// the series path.
    pub fn metrics_url(&self) -> (u: String)
        ensures
            u@ == spec_base_url(self.region) + series_path(),
    {
        let mut u = self.region.base_url().to_owned();
        u.append("/api/v2/series");
        u
    }

    /// Everything the sink needs; fails exactly when the API key cannot be
    /// sent as a header value.
    pub fn settings(&self) -> (r: Result<DatadogSettings, DatadogConfigError>)
        ensures
            r is Ok <==> header_value_allowed(encode_utf8(self.token@)),
            r matches Ok(s) ==> {
                &&& is_json_headers(s.headers@)
                &&& s.api_key_header@ == "DD-API-KEY"@
                &&& header_value_bytes(s.api_key) == encode_utf8(self.token@)
                &&& s.metrics_url@ == spec_base_url(self.region) + series_path()
                &&& s.logs_url@ == spec_logs_url(self.region)
                &&& s.batch_size == BATCH_SIZE
            },
            r matches Err(e) ==> e == DatadogConfigError::InvalidToken,
    {
        match header_value_from_str(self.token.as_str()) {
            Ok(api_key) => Ok(
                DatadogSettings {
                    metrics_url: self.metrics_url(),
                    logs_url: self.region.logs_url().to_owned(),
                    headers: default_headers(),
                    api_key_header: "DD-API-KEY",
                    api_key,
                    batch_size: BATCH_SIZE,
                },
            ),
            Err(_) => Err(DatadogConfigError::InvalidToken),
        }
    }
}

/// The metric type the series API calls "gauge".
pub const GAUGE: u8 = 3;

/// One point of a series.
#[derive(Debug, Clone, Copy, PartialEq, Eq)]
pub struct DatadogMetricSeriePoint {
    /// Whole seconds since the Unix epoch.
    pub timestamp: u64,
    /// The bit pattern of the point's `f64` value.
    pub value_bits: u64,
}

/// One series of the series API.
#[derive(Debug)]
pub struct DatadogMetricSerie {
    pub metric: String,
    pub points: Vec<DatadogMetricSeriePoint>,
    /// `key:value`, one per tag.
    pub tags: Vec<String>,
    /// The metric type (sent as `type`).
    pub kind: u8,
}

/// The body of one request to the series API.
#[derive(Debug)]
pub struct DatadogMetricPayload {
    pub series: Vec<DatadogMetricSerie>,
}

/// The contents of a list of strings.
pub open spec fn texts_of(v: Seq<String>) -> Seq<Seq<char>> {
    v.map_values(|t: String| t@)
}

/// A tag as the series API writes it.
pub open spec fn tag_text(key: Seq<char>, value: Seq<char>) -> Seq<char> {
    key + ":"@ + value
}

/// The tags of a sample, in key order, as the series API writes them.
pub open spec fn tag_texts(entries: Seq<(Seq<char>, String)>) -> Seq<Seq<char>> {
    entries.map_values(|e: (Seq<char>, String)| tag_text(e.0, e.1@))
}

/// `serie` is the one-point gauge series of `m`.
pub open spec fn is_serie_of(serie: DatadogMetricSerie, m: Metric) -> bool {
    &&& serie.metric@ == m.name@
    &&& serie.points@ == seq![DatadogMetricSeriePoint { timestamp: m.timestamp.secs, value_bits: m.value_bits }]
    &&& texts_of(serie.tags@) == tag_texts(m.tags.entries())
    &&& serie.kind == GAUGE
}

impl DatadogMetricSerie {
    /// The one-point gauge series of a sample; its tags come in key order.
    pub fn from_metric(value: Metric) -> (serie: DatadogMetricSerie)
        requires
            not_before_epoch(value.timestamp),
        ensures
            is_serie_of(serie, value),
            serie.tags@.len() == value.tags@.dom().len(),
            forall|k: Seq<char>| #[trigger] value.tags@.contains_key(k) ==> exists|i: int|
                0 <= i < serie.tags@.len() && (#[trigger] serie.tags@[i])@ == k + ":"@ + value.tags@[k]@,
            forall|i: int| 0 <= i < serie.tags@.len() ==> is_tag_of(value, (#[trigger] serie.tags@[i])@),
    {
        proof {
            use_type_invariant(&value.tags);
        }
        let ghost whole = value;
        let n = value.tags.len();
        let ghost texts = tag_texts(value.tags.entries());
        let mut tags: Vec<String> = Vec::new();
        let mut i: usize = 0;
        while i < n
            invariant
                n == value.tags.entries().len(),
                texts == tag_texts(value.tags.entries()),
                i <= n,
                texts_of(tags@) == texts.take(i as int),
            decreases n - i,
        {
            let (key, val) = value.tags.entry(i);
            let mut text = key.clone();
            text.append(":");
            text.append(val.as_str());
            tags.push(text);
            assert(texts_of(tags@) =~= texts.take(i + 1)) by {
                assert(texts.take(i + 1) =~= texts.take(i as int).push(text@));
            }
            i = i + 1;
        }
        assert(tag_texts(value.tags.entries()).take(n as int) =~= tag_texts(value.tags.entries()));
        let point = DatadogMetricSeriePoint { timestamp: value.timestamp.secs, value_bits: value.value_bits };
        let mut points = Vec::new();
        points.push(point);
        assert(points@ =~= seq![point]);
        let serie = DatadogMetricSerie { metric: value.name, points, tags, kind: GAUGE };
        proof {
            law_serie_lists_every_tag(whole, serie);
        }
        serie
    }
}

/// `text` is `key:value` for one of the sample's tags.
pub open spec fn is_tag_of(m: Metric, text: Seq<char>) -> bool {
    exists|k: Seq<char>| #[trigger] m.tags@.contains_key(k) && text == k + ":"@ + m.tags@[k]@
}

/// A sample's series carries one `key:value` text per tag of the sample and
/// nothing else: as many texts as the sample has tags, every tag's text among
/// them, and every text that of one of its tags.
pub proof fn law_serie_lists_every_tag(m: Metric, serie: DatadogMetricSerie)
    requires
        m.tags.is_sorted(),
        is_serie_of(serie, m),
    ensures
        serie.tags@.len() == m.tags@.dom().len(),
        forall|k: Seq<char>| #[trigger] m.tags@.contains_key(k) ==> exists|i: int|
            0 <= i < serie.tags@.len() && (#[trigger] serie.tags@[i])@ == k + ":"@ + m.tags@[k]@,
        forall|i: int| 0 <= i < serie.tags@.len() ==> is_tag_of(m, (#[trigger] serie.tags@[i])@),
{
    let e = m.tags.entries();
    lemma_sorted_len(e);
    assert(texts_of(serie.tags@).len() == e.len());
    assert forall|k: Seq<char>| #[trigger] m.tags@.contains_key(k) implies exists|i: int|
        0 <= i < serie.tags@.len() && (#[trigger] serie.tags@[i])@ == k + ":"@ + m.tags@[k]@ by {
        let i = choose|i: int| 0 <= i < e.len() && #[trigger] e[i].0 == k;
        lemma_as_map_at(e, i);
        assert(texts_of(serie.tags@)[i] == serie.tags@[i]@);
        assert(tag_texts(e)[i] == tag_text(e[i].0, e[i].1@));
    }
    assert forall|i: int| 0 <= i < serie.tags@.len() implies is_tag_of(m, (#[trigger] serie.tags@[i])@) by {
        lemma_as_map_at(e, i);
        assert(texts_of(serie.tags@)[i] == serie.tags@[i]@);
        assert(tag_texts(e)[i] == tag_text(e[i].0, e[i].1@));
        assert(m.tags@.contains_key(e[i].0));
        assert(serie.tags@[i]@ == e[i].0 + ":"@ + m.tags@[e[i].0]@);
    }
}

/// A sample's series lists each tag once, as `key:value`, in increasing key
/// order, so it depends only on which tags the sample has and not on the
/// order in which they were set.
pub proof fn law_serie_tags_follow_tag_contents(
    m1: Metric,
    m2: Metric,
    s1: DatadogMetricSerie,
    s2: DatadogMetricSerie,
)
    requires
        m1.tags.is_sorted(),
        m2.tags.is_sorted(),
        is_serie_of(s1, m1),
        is_serie_of(s2, m2),
        m1.tags.view() == m2.tags.view(),
    ensures
        texts_of(s1.tags@) == texts_of(s2.tags@),
        forall|i: int, j: int| 0 <= i < j < m1.tags.entries().len() ==>
            key_lt(#[trigger] m1.tags.entries()[i].0, #[trigger] m1.tags.entries()[j].0),
{
    lemma_sorted_determined(m1.tags.entries(), m2.tags.entries());
}

impl DatadogMetricPayload {
    /// The payload carrying one series per sample, in the samples' order.
    pub fn from_metrics(metrics: Vec<Metric>) -> (p: DatadogMetricPayload)
        requires
            forall|i: int| 0 <= i < metrics@.len() ==> not_before_epoch(#[trigger] metrics@[i].timestamp),
        ensures
            p.series@.len() == metrics@.len(),
            forall|i: int| 0 <= i < metrics@.len() ==> is_serie_of(#[trigger] p.series@[i], metrics@[i]),
    {
        let ghost orig = metrics@;
        let mut metrics = metrics;
        let mut reversed: Vec<DatadogMetricSerie> = Vec::new();
        // take the samples from the back, then restore their order
        while metrics.len() > 0
            invariant
                metrics@ == orig.take(metrics@.len() as int),
                metrics@.len() <= orig.len(),
                reversed@.len() == orig.len() - metrics@.len(),
                forall|i: int| 0 <= i < orig.len() ==> not_before_epoch(#[trigger] orig[i].timestamp),
                forall|i: int| 0 <= i < reversed@.len() ==>
                    is_serie_of(#[trigger] reversed@[i], orig[orig.len() - 1 - i]),
            decreases metrics@.len(),
        {
            assert(metrics@[metrics@.len() - 1] == orig[metrics@.len() - 1]);
            let m = metrics.pop().unwrap();
            reversed.push(DatadogMetricSerie::from_metric(m));
            assert(metrics@ =~= orig.take(metrics@.len() as int));
        }
        let mut series: Vec<DatadogMetricSerie> = Vec::new();
        while reversed.len() > 0
            invariant
                reversed@.len() + series@.len() == orig.len(),
                forall|i: int| 0 <= i < reversed@.len() ==>
                    is_serie_of(#[trigger] reversed@[i], orig[orig.len() - 1 - i]),
                forall|i: int| 0 <= i < series@.len() ==> is_serie_of(#[trigger] series@[i], orig[i]),
            decreases reversed@.len(),
        {
            let s = reversed.pop().unwrap();
            series.push(s);
        }
        DatadogMetricPayload { series }
    }
}

/// The metric samples among `events`, in order.
pub open spec fn metrics_of(events: Seq<Event>) -> Seq<Metric>
    decreases events.len(),
{
    if events.len() == 0 {
        seq![]
    } else {
        match events.last() {
            Event::Metric(m) => metrics_of(events.drop_last()).push(m),
            Event::Log(_) => metrics_of(events.drop_last()),
        }
    }
}

/// The log entries among `events`, in order.
pub open spec fn logs_of(events: Seq<Event>) -> Seq<Log>
    decreases events.len(),
{
    if events.len() == 0 {
        seq![]
    } else {
        match events.last() {
            Event::Log(l) => logs_of(events.drop_last()).push(l),
            Event::Metric(_) => logs_of(events.drop_last()),
        }
    }
}

/// Splits a batch into its metric samples and its log entries. Events are
/// taken from the back of the batch, so each list comes out in the reverse
/// of the order the events arrived in.
pub fn split_batch(inputs: Vec<Event>) -> (r: (Vec<Metric>, Vec<Log>))
    ensures
        r.0@ == metrics_of(inputs@).reverse(),
        r.1@ == logs_of(inputs@).reverse(),
{
    let ghost orig = inputs@;
    let mut inputs = inputs;
    let mut metrics: Vec<Metric> = Vec::new();
    let mut logs: Vec<Log> = Vec::new();
    while inputs.len() > 0
        invariant
            metrics_of(orig) == metrics_of(inputs@) + metrics@.reverse(),
            logs_of(orig) == logs_of(inputs@) + logs@.reverse(),
        decreases inputs@.len(),
    {
        let ghost before = inputs@;
        let ghost before_metrics = metrics@;
        let ghost before_logs = logs@;
        let event = inputs.pop().unwrap();
        assert(inputs@ == before.drop_last());
        match event {
            Event::Metric(inner) => {
                metrics.push(inner);
                assert(metrics@.reverse() =~= seq![inner] + before_metrics.reverse());
                assert(metrics_of(orig) =~= metrics_of(inputs@) + metrics@.reverse());
            },
            Event::Log(inner) => {
                logs.push(inner);
                assert(logs@.reverse() =~= seq![inner] + before_logs.reverse());
                assert(logs_of(orig) =~= logs_of(inputs@) + logs@.reverse());
            },
        }
    }
    assert(metrics_of(orig) =~= metrics@.reverse());
    assert(metrics@ =~= metrics_of(orig).reverse());
    assert(logs@ =~= logs_of(orig).reverse());
    (metrics, logs)
}

/// Splitting a batch loses no event and duplicates none: every event ends up
/// in exactly one of the two lists.
pub proof fn law_split_keeps_every_event(events: Seq<Event>)
    ensures
        metrics_of(events).len() + logs_of(events).len() == events.len(),
    decreases events.len(),
{
    if events.len() > 0 {
        law_split_keeps_every_event(events.drop_last());
    }
}

} // verus!
