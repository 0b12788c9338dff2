//! Prometheus: the configured instances, and what their query API answers.
pub use crate::encoding::urlencode;
use crate::encoding::encoded;
use crate::error::{other, AppResult};
use crate::instances::{
    bare_address, law_bare_address_is_bare, not_found, put_secret, strip_api, with_secret, Auth,
    AuthView,
};
use crate::json::{
    elements, json_of, member, member_texts, members, number_text, number_value, pair_texts,
    string_of, text_members, value_json, Json,
};
use crate::lists::{
    drop_entry, lemma_named_from, lemma_put_then_find, named_at, position, put_entry, text_or_empty,
    with_entry, without_entry, Named, TextMap,
};
use crate::text::{
    cat2, cat3, cat5, copy_opt, dec_i64, dec_int, has_suffix, opt_text, trim, trimmed,
};
use crate::time::{seconds_of, whole_seconds};
use vstd::prelude::*;

verus! {

// ---------------------------------------------------------------------------
// The configured instances
// ---------------------------------------------------------------------------

/// The file of the configured instances.
pub const STORE_FILE: &'static str = "metrics-config.json";

/// A configured Prometheus.
#[derive(Clone, Debug)]
pub struct MetricsConfig {
    pub name: String,
    /// `https://prom.example.com`: no trailing slash, no `/api/v1`.
    pub url: String,
    pub username: String,
    pub password: String,
    pub description: String,
    pub last_error: Option<String>,
    pub last_refreshed: Option<String>,
}

/// A configured Prometheus as stored: without its password.
#[derive(Clone, Debug)]
pub struct MetricsMeta {
    pub name: String,
    pub url: String,
    pub username: String,
    pub description: String,
    pub last_error: Option<String>,
    pub last_refreshed: Option<String>,
}

/// The configured instances, with the passwords apart, by name.
#[derive(Clone, Debug)]
pub struct MetricsFile {
    pub metrics: Vec<MetricsMeta>,
    pub passwords: TextMap,
}

impl Named for MetricsMeta {
    open spec fn key(&self) -> Seq<char> {
        self.name@
    }

    fn key_str(&self) -> (r: &str) {
        self.name.as_str()
    }
}

/// `r` is what is stored as `m`, with its password from `passwords`.
pub open spec fn is_config_of(
    r: MetricsConfig,
    m: MetricsMeta,
    passwords: Map<Seq<char>, Seq<char>>,
) -> bool {
    &&& r.name@ == m.name@
    &&& r.url@ == m.url@
    &&& r.username@ == m.username@
    &&& r.password@ == text_or_empty(passwords, m.name@)
    &&& r.description@ == m.description@
    &&& opt_text(r.last_error) == opt_text(m.last_error)
    &&& opt_text(r.last_refreshed) == opt_text(m.last_refreshed)
}

fn config_of(m: &MetricsMeta, passwords: &TextMap) -> (r: MetricsConfig)
    ensures
        is_config_of(r, *m, passwords@),
{
    MetricsConfig {
        name: m.name.clone(),
        url: m.url.clone(),
        username: m.username.clone(),
        password: passwords.get_or_empty(m.name.as_str()),
        description: m.description.clone(),
        last_error: copy_opt(&m.last_error),
        last_refreshed: copy_opt(&m.last_refreshed),
    }
}

/// The configured instances, each with its password.
pub fn list(f: &MetricsFile) -> (r: Vec<MetricsConfig>)
    ensures
        r@.len() == f.metrics@.len(),
        forall|i: int|
            0 <= i < r@.len() ==> is_config_of(#[trigger] r@[i], f.metrics@[i], f.passwords@),
{
    let mut out: Vec<MetricsConfig> = Vec::new();
    let mut i: usize = 0;
    while i < f.metrics.len()
        invariant
            i <= f.metrics@.len(),
            out@.len() == i,
            forall|k: int|
                0 <= k < i ==> is_config_of(#[trigger] out@[k], f.metrics@[k], f.passwords@),
        decreases f.metrics@.len() - i,
    {
        out.push(config_of(&f.metrics[i], &f.passwords));
        i += 1;
    }
    out
}

/// The base address that a typed address stands for: trimmed, and with neither
/// slashes nor `/api/v1` at its end.
pub open spec fn prometheus_url(url: Seq<char>) -> Seq<char> {
    bare_address(trimmed(url), "/api/v1"@)
}

/// Why an instance cannot be stored under this name and address, if there is a
/// reason.
pub open spec fn prometheus_problem(name: Seq<char>, url: Seq<char>) -> Option<Seq<char>> {
    if trimmed(name).len() == 0 {
        Some("name cannot be empty"@)
    } else if prometheus_url(url).len() == 0 {
        Some("url cannot be empty"@)
    } else {
        None
    }
}

/// The name and address under which an instance is stored, if it can be.
pub fn normalise_prometheus(name: &str, url: &str) -> (r: AppResult<(String, String)>)
    ensures
        match r {
            Ok((n, u)) => prometheus_problem(name@, url@) is None && n@ == trimmed(name@) && u@
                == prometheus_url(url@),
            Err(e) => prometheus_problem(name@, url@) is Some && e.is_other(
                prometheus_problem(name@, url@)->0,
            ),
        },
{
    let n = trim(name);
    let u = strip_api(trim(url), "/api/v1");
    if n.is_empty() {
        return Err(other("name cannot be empty"));
    }
    if u.is_empty() {
        return Err(other("url cannot be empty"));
    }
    Ok((n.to_owned(), u.to_owned()))
}

/// A freshly stored instance with these settings.
pub open spec fn is_fresh_config(
    m: MetricsMeta,
    name: Seq<char>,
    url: Seq<char>,
    username: Seq<char>,
    description: Seq<char>,
) -> bool {
    m.name@ == name && m.url@ == url && m.username@ == username && m.description@ == description
        && m.last_error is None && m.last_refreshed is None
}

/// Stores an instance: in the place of the one of that name, or at the end. The
/// file is to be saved when this succeeds.
pub fn upsert(
    f: &mut MetricsFile,
    name: &str,
    url: &str,
    username: &str,
    password: &str,
    description: &str,
) -> (r: AppResult<MetricsConfig>)
    ensures
        match r {
            Ok(c) => {
                &&& prometheus_problem(name@, url@) is None
                &&& c.name@ == trimmed(name@)
                &&& c.url@ == prometheus_url(url@)
                &&& c.username@ == username@
                &&& c.password@ == password@
                &&& c.description@ == description@
                &&& c.last_error is None
                &&& c.last_refreshed is None
                &&& exists|m: MetricsMeta|
                    #[trigger] is_fresh_config(
                        m,
                        trimmed(name@),
                        prometheus_url(url@),
                        username@,
                        description@,
                    ) && final(f).metrics@ == with_entry(old(f).metrics@, m)
                &&& final(f).passwords@ == with_secret(
                    old(f).passwords@,
                    trimmed(name@),
                    password@,
                )
            },
            Err(e) => {
                &&& prometheus_problem(name@, url@) is Some
                &&& e.is_other(prometheus_problem(name@, url@)->0)
                &&& *final(f) == *old(f)
            },
        },
{
    let (n, u) = match normalise_prometheus(name, url) {
        Ok(x) => x,
        Err(e) => {
            return Err(e);
        },
    };
    let m = MetricsMeta {
        name: n.clone(),
        url: u.clone(),
        username: username.to_owned(),
        description: description.to_owned(),
        last_error: None,
        last_refreshed: None,
    };
    assert(is_fresh_config(m, trimmed(name@), prometheus_url(url@), username@, description@));
    put_entry(&mut f.metrics, m);
    put_secret(&mut f.passwords, n.as_str(), password);
    Ok(
        MetricsConfig {
            name: n,
            url: u,
            username: username.to_owned(),
            password: password.to_owned(),
            description: description.to_owned(),
            last_error: None,
            last_refreshed: None,
        },
    )
}

/// Takes the instance `name` out, and its password. Says whether there was one:
/// only then is the file to be saved.
pub fn remove(f: &mut MetricsFile, name: &str) -> (r: bool)
    ensures
        final(f).metrics@ == without_entry(old(f).metrics@, name@),
        final(f).passwords@ == old(f).passwords@.remove(name@),
        r == (named_at(old(f).metrics@, name@) is Some),
{
    let found = drop_entry(&mut f.metrics, name);
    f.passwords.remove(name);
    found
}

/// The configured instance called `name`.
pub fn find(f: &MetricsFile, name: &str) -> (r: AppResult<MetricsConfig>)
    ensures
        match (r, named_at(f.metrics@, name@)) {
            (Ok(c), Some(i)) => is_config_of(c, f.metrics@[i], f.passwords@),
            (Err(e), None) => e.is_not_found("metrics config"@ + " '"@ + name@ + "' not found"@),
            _ => false,
        },
{
    match position(&f.metrics, name) {
        Some(i) => Ok(config_of(&f.metrics[i], &f.passwords)),
        None => Err(not_found("metrics config", name)),
    }
}

/// How queries authenticate: always as the user, whether one is named or not.
pub fn auth(c: &MetricsConfig) -> (r: Auth)
    ensures
        r@ == AuthView::Basic(c.username@, c.password@),
{
    Auth::Basic(c.username.clone(), c.password.clone())
}

/// Where a Prometheus says that it runs.
pub fn health_url(base: &str) -> (r: String)
    ensures
        r@ == base@ + "/api/v1/status/runtimeinfo"@,
{
    cat2(base, "/api/v1/status/runtimeinfo")
}

// ---------------------------------------------------------------------------
// Queries
// ---------------------------------------------------------------------------

/// Where the value of a query at this instant is.
pub fn query_url(base: &str, promql: &str) -> (r: String)
    ensures
        r@ == base@ + "/api/v1/query?query="@ + encoded(vstd::utf8::encode_utf8(promql@)),
{
    let q = urlencode(promql);
    cat3(base, "/api/v1/query?query=", q.as_str())
}

/// The query string of a range query.
pub open spec fn range_params(promql: Seq<char>, start: int, end: int, step: int) -> Seq<char> {
    "query="@ + encoded(vstd::utf8::encode_utf8(promql)) + "&start="@ + dec_int(start) + "&end="@
        + dec_int(end) + "&step="@ + dec_int(step)
}

/// The query string of a range query: from `start` to `end`, a value every
/// `step`, all in seconds.
pub fn range_query(promql: &str, start: i64, end: i64, step: i64) -> (r: String)
    ensures
        r@ == range_params(promql@, start as int, end as int, step as int),
{
    let q = urlencode(promql);
    let start = dec_i64(start);
    let end = dec_i64(end);
    let step = dec_i64(step);
    let head = cat5("query=", q.as_str(), "&start=", start.as_str(), "&end=");
    crate::text::cat4(head.as_str(), end.as_str(), "&step=", step.as_str())
}

/// Where the values of a query over a span of milliseconds are, one every
/// `step_seconds`.
pub fn query_range_url(base: &str, promql: &str, start_ms: i64, end_ms: i64, step_seconds: i64) -> (r:
    String)
    ensures
        r@ == base@ + "/api/v1/query_range?"@ + range_params(
            promql@,
            whole_seconds(start_ms as int),
            whole_seconds(end_ms as int),
            step_seconds as int,
        ),
{
    let q = range_query(promql, seconds_of(start_ms), seconds_of(end_ms), step_seconds);
    cat3(base, "/api/v1/query_range?", q.as_str())
}

// ---------------------------------------------------------------------------
// Answers
// ---------------------------------------------------------------------------

/// One sample, as the answer has it: the time in seconds and the value, both as
/// text.
#[derive(Clone, Debug)]
pub struct Sample {
    pub ts: String,
    pub value: String,
}

/// What a sample says.
pub struct SampleView {
    pub ts: Seq<char>,
    pub value: Seq<char>,
}

impl View for Sample {
    type V = SampleView;

    open spec fn view(&self) -> SampleView {
        SampleView { ts: self.ts@, value: self.value@ }
    }
}

/// The samples of a series.
#[derive(Clone, Debug)]
pub enum Samples {
    /// Those of a range. One whose value is no number is dropped.
    Range(Vec<Sample>),
    /// The one of an instant. Where the time or the value is missing or no
    /// number, zero stands for it.
    Instant(Option<String>, Option<String>),
    /// The series has none.
    Nothing,
}

/// One series of an answer: its labels and its samples.
#[derive(Clone, Debug)]
pub struct Series {
    pub metric: TextMap,
    pub samples: Samples,
}

/// The answer to a query.
#[derive(Clone, Debug)]
pub struct QueryResult {
    /// `matrix`, `vector`, `scalar` or `string`.
    pub result_type: String,
    pub series: Vec<Series>,
}

/// The sample that a pair stands for: a number and a text. Any other value
/// stands for none.
pub open spec fn sample_of(pair: Json) -> Option<SampleView> {
    let p = elements(Some(pair));
    if p.len() >= 2 && number_text(Some(p[0])) is Some && string_of(Some(p[1])) is Some {
        Some(SampleView { ts: number_text(Some(p[0]))->0, value: string_of(Some(p[1]))->0 })
    } else {
        None
    }
}

/// The samples that pairs stand for, in order.
pub open spec fn samples_of(s: Seq<Json>) -> Seq<SampleView>
    decreases s.len(),
{
    if s.len() == 0 {
        Seq::empty()
    } else {
        match sample_of(s.last()) {
            Some(x) => samples_of(s.drop_last()).push(x),
            None => samples_of(s.drop_last()),
        }
    }
}

/// `r` holds the samples of the series that the document `v` describes: those of
/// `values`, where that is a list, or else the one of `value`.
pub open spec fn are_samples(r: Samples, v: Json) -> bool {
    match (member(v, "values"@), member(v, "value"@)) {
        (Some(Json::Array(a)), _) => r matches Samples::Range(s) && crate::lists::views(s@)
            == samples_of(a@),
        (_, Some(Json::Array(p))) => {
            &&& r matches Samples::Instant(ts, value)
            &&& opt_text(ts) == (if p@.len() > 0 {
                number_text(Some(p@[0]))
            } else {
                None
            })
            &&& opt_text(value) == (if p@.len() > 1 {
                string_of(Some(p@[1]))
            } else {
                None
            })
        },
        _ => r is Nothing,
    }
}

/// `s` is the series that the document `v` describes.
pub open spec fn is_series(s: Series, v: Json) -> bool {
    &&& pair_texts(s.metric.entries@) == member_texts(members(member(v, "metric"@)))
    &&& are_samples(s.samples, v)
}

fn text_value(j: &Json) -> (r: Option<String>)
    ensures
        opt_text(r) == string_of(Some(*j)),
{
    match j {
        Json::Str(s) => Some(s.clone()),
        _ => None,
    }
}

fn read_sample(pair: &Json) -> (r: Option<Sample>)
    ensures
        match r {
            Some(s) => sample_of(*pair) == Some(s@),
            None => sample_of(*pair) is None,
        },
{
    match pair {
        Json::Array(p) => {
            if p.len() < 2 {
                return None;
            }
            match (number_value(Some(&p[0])), text_value(&p[1])) {
                (Some(ts), Some(value)) => Some(Sample { ts, value }),
                _ => None,
            }
        },
        _ => None,
    }
}

fn read_range(a: &Vec<Json>) -> (r: Vec<Sample>)
    ensures
        crate::lists::views(r@) == samples_of(a@),
{
    let mut out: Vec<Sample> = Vec::new();
    let mut i: usize = 0;
    assert(crate::lists::views(out@) =~= samples_of(a@.take(0)));
    while i < a.len()
        invariant
            i <= a@.len(),
            crate::lists::views(out@) == samples_of(a@.take(i as int)),
        decreases a@.len() - i,
    {
        assert(a@.take(i + 1).drop_last() =~= a@.take(i as int));
        if let Some(s) = read_sample(&a[i]) {
            proof {
                crate::lists::lemma_views_push(out@, s);
            }
            out.push(s);
        }
        i += 1;
    }
    assert(a@.take(i as int) =~= a@);
    out
}

fn read_samples(v: &Json) -> (r: Samples)
    ensures
        are_samples(r, *v),
{
    if let Some(Json::Array(a)) = v.get("values") {
        return Samples::Range(read_range(a));
    }
    if let Some(Json::Array(p)) = v.get("value") {
        let ts = if p.len() > 0 {
            number_value(Some(&p[0]))
        } else {
            None
        };
        let value = if p.len() > 1 {
            text_value(&p[1])
        } else {
            None
        };
        return Samples::Instant(ts, value);
    }
    Samples::Nothing
}

/// Reads the answer to a query: `doc` is what it lists, of the type `result_type`.
/// Where it lists nothing, there are no series.
pub fn read_result(result_type: String, doc: &Json) -> (r: QueryResult)
    ensures
        r.result_type == result_type,
        r.series@.len() == elements(Some(*doc)).len(),
        forall|i: int|
            0 <= i < r.series@.len() ==> is_series(
                #[trigger] r.series@[i],
                elements(Some(*doc))[i],
            ),
{
    let mut series: Vec<Series> = Vec::new();
    if let Json::Array(a) = doc {
        let mut i: usize = 0;
        while i < a.len()
            invariant
                i <= a@.len(),
                series@.len() == i,
                forall|k: int| 0 <= k < i ==> is_series(#[trigger] series@[k], a@[k]),
            decreases a@.len() - i,
        {
            let v = &a[i];
            series.push(
                Series {
                    metric: TextMap { entries: text_members(v.get("metric")) },
                    samples: read_samples(v),
                },
            );
            i += 1;
        }
    }
    QueryResult { result_type, series }
}

/// Reads the answer to a query: `result` is what it lists, of the type
/// `result_type`. Where it lists nothing, there are no series.
pub fn translate(result_type: String, result: serde_json::Value) -> (r: QueryResult)
    ensures
        r.result_type == result_type,
        r.series@.len() == elements(Some(value_json(result))).len(),
        forall|i: int|
            0 <= i < r.series@.len() ==> is_series(
                #[trigger] r.series@[i],
                elements(Some(value_json(result)))[i],
            ),
{
    let doc = json_of(result);
    read_result(result_type, &doc)
}

// ---------------------------------------------------------------------------
// Laws
// ---------------------------------------------------------------------------

/// The address that an instance is stored under is not empty and ends neither in a
/// slash nor in the path of the API, so that paths of the API can be put behind it.
pub proof fn law_stored_address_is_bare(name: Seq<char>, url: Seq<char>)
    ensures
        prometheus_problem(name, url) is None ==> prometheus_url(url).len() > 0 && !has_suffix(
            prometheus_url(url),
            "/"@,
        ) && !has_suffix(prometheus_url(url), "/api/v1"@),
{
    reveal_strlit("/");
    reveal_strlit("/api/v1");
    let u = prometheus_url(url);
    law_bare_address_is_bare(trimmed(url), "/api/v1"@);
    if has_suffix(u, "/"@) {
        assert(u.skip(u.len() - 1)[0] == u.last());
    }
}

/// A listed instance says what was stored of it, and its password is the one kept under its
/// name, or empty.
pub proof fn law_listed_instance_is_the_stored_one(f: MetricsFile, r: Vec<MetricsConfig>, i: int)
    requires
        call_ensures(list, (&f,), r),
        0 <= i < f.metrics@.len(),
    ensures
        r@.len() == f.metrics@.len(),
        r@[i].name@ == f.metrics@[i].name@,
        r@[i].url@ == f.metrics@[i].url@,
        r@[i].username@ == f.metrics@[i].username@,
        r@[i].description@ == f.metrics@[i].description@,
        f.passwords@.contains_key(f.metrics@[i].name@) ==> r@[i].password@
            == f.passwords@[f.metrics@[i].name@],
        !f.passwords@.contains_key(f.metrics@[i].name@) ==> r@[i].password@.len() == 0,
{
    assert(is_config_of(r@[i], f.metrics@[i], f.passwords@));
}

/// An instance is stored under its name and address without blanks around them; an address
/// that ends in neither a slash nor the path of the API stays as it is. Nothing is stored
/// without a name or an address.
pub proof fn law_instance_is_stored_as_typed(name: &str, url: &str, r: AppResult<(String, String)>)
    requires
        call_ensures(normalise_prometheus, (name, url), r),
    ensures
        trimmed(name@).len() == 0 ==> r is Err,
        trimmed(url@).len() == 0 ==> r is Err,
        r matches Ok((n, u)) ==> n@ == trimmed(name@),
        trimmed(name@).len() > 0 && trimmed(url@).len() > 0 && trimmed(url@).last() != '/'
            && !has_suffix(trimmed(url@), "/api/v1"@) ==> (r matches Ok((n, u)) && u@ == trimmed(
            url@,
        )),
{
    reveal_strlit("/api/v1");
    assert("/api/v1"@.len() == 7);
}

/// A query over a span asks for that query from its start to its end, a value every step.
pub proof fn law_span_is_asked_for(
    base: &str,
    promql: &str,
    start_ms: i64,
    end_ms: i64,
    step: i64,
    r: String,
    start: i64,
    end: i64,
)
    requires
        call_ensures(query_range_url, (base, promql, start_ms, end_ms, step), r),
        call_ensures(seconds_of, (start_ms,), start),
        call_ensures(seconds_of, (end_ms,), end),
    ensures
        r@ == base@ + "/api/v1/query_range?"@ + ("query="@ + encoded(
            vstd::utf8::encode_utf8(promql@),
        ) + "&start="@ + dec_int(start as int) + "&end="@ + dec_int(end as int) + "&step="@
            + dec_int(step as int)),
{
}

proof fn lemma_samples(s: Seq<Json>)
    ensures
        samples_of(s) == s.filter(|p: Json| sample_of(p) is Some).map_values(
            |p: Json| sample_of(p)->0,
        ),
    decreases s.len(),
{
    reveal(Seq::filter);
    let f = |p: Json| sample_of(p) is Some;
    let g = |p: Json| sample_of(p)->0;
    if s.len() > 0 {
        lemma_samples(s.drop_last());
        if f(s.last()) {
            assert(s.filter(f).map_values(g) =~= s.drop_last().filter(f).map_values(g).push(
                g(s.last()),
            ));
        }
    } else {
        assert(s.filter(f).map_values(g) =~= Seq::empty());
    }
}

/// Every pair of a number and a text in the values of a series is a sample of it, at the time
/// that the number says.
pub proof fn law_every_pair_is_a_sample(
    result_type: String,
    series: Vec<Json>,
    values: Vec<Json>,
    pair: Vec<Json>,
    r: QueryResult,
    i: int,
    k: int,
    time: crate::json::JsonNumber,
    value: String,
)
    requires
        call_ensures(read_result, (result_type, &Json::Array(series)), r),
        0 <= i < series@.len(),
        member(series@[i], "values"@) == Some(Json::Array(values)),
        0 <= k < values@.len(),
        values@[k] == Json::Array(pair),
        pair@.len() == 2,
        pair@[0] == Json::Number(time),
        pair@[1] == Json::Str(value),
    ensures
        r.result_type == result_type,
        r.series@.len() == series@.len(),
        r.series@[i].samples matches Samples::Range(s) && s@.len() <= values@.len() && (exists|n: int|
            0 <= n < s@.len() && (#[trigger] s@[n]).ts@ == time.text@ && s@[n].value@ == value@),
{
    assert(is_series(r.series@[i], series@[i]));
    assert(are_samples(r.series@[i].samples, series@[i]));
    let s = r.series@[i].samples->Range_0;
    let f = |p: Json| sample_of(p) is Some;
    let g = |p: Json| sample_of(p)->0;
    lemma_samples(values@);
    values@.lemma_filter_contains(f, k);
    values@.lemma_filter_len(f);
    let t = values@.filter(f);
    let j = choose|j: int| 0 <= j < t.len() && t[j] == values@[k];
    assert(t.map_values(g)[j] == g(values@[k]));
    let v = crate::lists::views(s@);
    assert(v.len() == s@.len());
    assert(v[j] == s@[j]@);
}

/// A series with one value has it as the sample of that instant; one with neither has none.
pub proof fn law_one_value_is_that_of_the_instant(
    result_type: String,
    series: Vec<Json>,
    pair: Vec<Json>,
    r: QueryResult,
    i: int,
    time: crate::json::JsonNumber,
    value: String,
)
    requires
        call_ensures(read_result, (result_type, &Json::Array(series)), r),
        0 <= i < series@.len(),
        member(series@[i], "values"@) is None,
    ensures
        member(series@[i], "value"@) == Some(Json::Array(pair)) && pair@.len() == 2 && pair@[0]
            == Json::Number(time) && pair@[1] == Json::Str(value) ==> (
        r.series@[i].samples matches Samples::Instant(t, v) && opt_text(t) == Some(time.text@)
            && opt_text(v) == Some(value@)),
        member(series@[i], "value"@) is None ==> r.series@[i].samples is Nothing,
{
    assert(is_series(r.series@[i], series@[i]));
    assert(are_samples(r.series@[i].samples, series@[i]));
}

/// What was stored is listed: the settings as they were given, with the secret given for them.
pub proof fn law_stored_instance_is_listed(
    before: Seq<MetricsMeta>,
    passwords_before: Map<Seq<char>, Seq<char>>,
    m: MetricsMeta,
    f: MetricsFile,
    name: Seq<char>,
    url: Seq<char>,
    username: Seq<char>,
    description: Seq<char>,
    password: Seq<char>,
    r: Vec<MetricsConfig>,
)
    requires
        is_fresh_config(m, name, url, username, description),
        f.metrics@ == with_entry(before, m),
        f.passwords@ == with_secret(passwords_before, name, password),
        call_ensures(list, (&f,), r),
    ensures
        exists|i: int|
            #![trigger r@[i]]
            0 <= i < r@.len() && ({
                &&& r@[i].name@ == name
                &&& r@[i].url@ == url
                &&& r@[i].username@ == username
                &&& r@[i].description@ == description
                &&& r@[i].password@ == password
                &&& r@[i].last_error is None
                &&& r@[i].last_refreshed is None
            }),
{
    let s = f.metrics@;
    lemma_put_then_find(before, m, name);
    lemma_named_from(s, name, 0);
    assert(m.key() == name);
    let i = named_at(s, name)->0;
    assert(s[i] == m);
    assert(is_config_of(r@[i], s[i], f.passwords@));
}

/// A query is asked where the API has it, with its user and password.
pub proof fn law_where_a_prometheus_is_asked(
    base: &str,
    promql: &str,
    c: MetricsConfig,
    health: String,
    query: String,
    sent: Auth,
)
    requires
        call_ensures(health_url, (base,), health),
        call_ensures(query_url, (base, promql), query),
        call_ensures(auth, (&c,), sent),
    ensures
        health@ == base@ + "/api/v1/status/runtimeinfo"@,
        query@ == base@ + "/api/v1/query?query="@ + encoded(vstd::utf8::encode_utf8(promql@)),
        sent matches Auth::Basic(u, p) && u@ == c.username@ && p@ == c.password@,
{
    assert(sent@ == AuthView::Basic(c.username@, c.password@));
}

} // verus!
