//! AlertManager: the configured instances, their alerts and silences, and the
//! alert rules of a Prometheus.
use crate::error::AppResult;
use crate::instances::{
    auth_of, instance_problem, instance_url, normalise_instance, not_found, pick_auth, put_secret,
    with_secret, Auth,
};
use crate::json::{
    deref_opt, elements, inner, is_true, json_of, member, member_of, member_text, member_texts,
    members, number_text, number_value, pair_texts, string_list, string_of, string_or, strings_in,
    sub_value, text_members, text_or_default, true_value, value_json, values_json, Json,
};
use crate::lists::{
    drop_entry, lemma_lookup_at, lemma_named_from, lemma_put_then_find, named_at, position,
    put_entry, text_or_empty, with_entry, without_entry, Named, TextMap,
};
use crate::text::{
    cat2, cat3, copy_opt, join, joined, lemma_texts_push, opt_text, same, texts, trimmed,
};
use vstd::prelude::*;

verus! {

// ---------------------------------------------------------------------------
// The configured instances
// ---------------------------------------------------------------------------

/// The file of the configured AlertManagers.
pub const STORE_FILE: &'static str = "alertmanagers.json";

/// A configured AlertManager.
#[derive(Clone, Debug)]
pub struct AlertManager {
    pub name: String,
    /// `https://alertmanager.example.com`: no trailing slash.
    pub url: String,
    pub bearer_token: String,
    pub description: String,
    pub last_error: Option<String>,
    pub last_refreshed: Option<String>,
}

/// A configured AlertManager as stored: without its token.
#[derive(Clone, Debug)]
pub struct AlertManagerMeta {
    pub name: String,
    pub url: String,
    pub description: String,
    pub last_error: Option<String>,
    pub last_refreshed: Option<String>,
}

/// The configured AlertManagers, with the tokens apart, by name.
#[derive(Clone, Debug)]
pub struct AlertManagerFile {
    pub managers: Vec<AlertManagerMeta>,
    pub tokens: TextMap,
}

impl Named for AlertManagerMeta {
    open spec fn key(&self) -> Seq<char> {
        self.name@
    }

    fn key_str(&self) -> (r: &str) {
        self.name.as_str()
    }
}

/// `r` is what is stored as `m`, with its token from `tokens`.
pub open spec fn is_manager_of(
    r: AlertManager,
    m: AlertManagerMeta,
    tokens: Map<Seq<char>, Seq<char>>,
) -> bool {
    &&& r.name@ == m.name@
    &&& r.url@ == m.url@
    &&& r.bearer_token@ == text_or_empty(tokens, m.name@)
    &&& r.description@ == m.description@
    &&& opt_text(r.last_error) == opt_text(m.last_error)
    &&& opt_text(r.last_refreshed) == opt_text(m.last_refreshed)
}

fn manager_of(m: &AlertManagerMeta, tokens: &TextMap) -> (r: AlertManager)
    ensures
        is_manager_of(r, *m, tokens@),
{
    AlertManager {
        name: m.name.clone(),
        url: m.url.clone(),
        bearer_token: tokens.get_or_empty(m.name.as_str()),
        description: m.description.clone(),
        last_error: copy_opt(&m.last_error),
        last_refreshed: copy_opt(&m.last_refreshed),
    }
}

/// The configured AlertManagers, each with its token.
pub fn list(f: &AlertManagerFile) -> (r: Vec<AlertManager>)
    ensures
        r@.len() == f.managers@.len(),
        forall|i: int|
            0 <= i < r@.len() ==> is_manager_of(#[trigger] r@[i], f.managers@[i], f.tokens@),
{
    let mut out: Vec<AlertManager> = Vec::new();
    let mut i: usize = 0;
    while i < f.managers.len()
        invariant
            i <= f.managers@.len(),
            out@.len() == i,
            forall|k: int|
                0 <= k < i ==> is_manager_of(#[trigger] out@[k], f.managers@[k], f.tokens@),
        decreases f.managers@.len() - i,
    {
        out.push(manager_of(&f.managers[i], &f.tokens));
        i += 1;
    }
    out
}

/// A freshly stored AlertManager with these settings.
pub open spec fn is_fresh_manager(
    m: AlertManagerMeta,
    name: Seq<char>,
    url: Seq<char>,
    description: Seq<char>,
) -> bool {
    m.name@ == name && m.url@ == url && m.description@ == description && m.last_error is None
        && m.last_refreshed is None
}

/// Stores an AlertManager: in the place of the one of that name, or at the end.
/// The file is to be saved when this succeeds.
pub fn upsert(
    f: &mut AlertManagerFile,
    name: &str,
    url: &str,
    bearer_token: &str,
    description: &str,
) -> (r: AppResult<AlertManager>)
    ensures
        match r {
            Ok(m) => {
                &&& instance_problem(name@, url@) is None
                &&& m.name@ == trimmed(name@)
                &&& m.url@ == instance_url(url@)
                &&& m.bearer_token@ == bearer_token@
                &&& m.description@ == description@
                &&& m.last_error is None
                &&& m.last_refreshed is None
                &&& exists|e: AlertManagerMeta|
                    #[trigger] is_fresh_manager(
                        e,
                        trimmed(name@),
                        instance_url(url@),
                        description@,
                    ) && final(f).managers@ == with_entry(old(f).managers@, e)
                &&& final(f).tokens@ == with_secret(
                    old(f).tokens@,
                    trimmed(name@),
                    bearer_token@,
                )
            },
            Err(e) => {
                &&& instance_problem(name@, url@) is Some
                &&& e.is_other(instance_problem(name@, url@)->0)
                &&& *final(f) == *old(f)
            },
        },
{
    let (n, u) = match normalise_instance(name, url) {
        Ok(x) => x,
        Err(e) => {
            return Err(e);
        },
    };
    let m = AlertManagerMeta {
        name: n.clone(),
        url: u.clone(),
        description: description.to_owned(),
        last_error: None,
        last_refreshed: None,
    };
    assert(is_fresh_manager(m, trimmed(name@), instance_url(url@), description@));
    put_entry(&mut f.managers, m);
    put_secret(&mut f.tokens, n.as_str(), bearer_token);
    Ok(
        AlertManager {
            name: n,
            url: u,
            bearer_token: bearer_token.to_owned(),
            description: description.to_owned(),
            last_error: None,
            last_refreshed: None,
        },
    )
}

/// Takes the AlertManager `name` out, and its token. Says whether there was one:
/// only then is the file to be saved.
pub fn remove(f: &mut AlertManagerFile, name: &str) -> (r: bool)
    ensures
        final(f).managers@ == without_entry(old(f).managers@, name@),
        final(f).tokens@ == old(f).tokens@.remove(name@),
        r == (named_at(old(f).managers@, name@) is Some),
{
    let found = drop_entry(&mut f.managers, name);
    f.tokens.remove(name);
    found
}

/// The configured AlertManager called `name`.
pub fn find(f: &AlertManagerFile, name: &str) -> (r: AppResult<AlertManager>)
    ensures
        match (r, named_at(f.managers@, name@)) {
            (Ok(m), Some(i)) => is_manager_of(m, f.managers@[i], f.tokens@),
            (Err(e), None) => e.is_not_found("alertmanager"@ + " '"@ + name@ + "' not found"@),
            _ => false,
        },
{
    match position(&f.managers, name) {
        Some(i) => Ok(manager_of(&f.managers[i], &f.tokens)),
        None => Err(not_found("alertmanager", name)),
    }
}

/// How requests to an AlertManager authenticate: with its token, where it has
/// one.
pub fn auth(m: &AlertManager) -> (r: Auth)
    ensures
        r@ == auth_of(m.bearer_token@, ""@, ""@),
{
    pick_auth(m.bearer_token.as_str(), "", "")
}

/// Where an AlertManager says whether it is healthy.
pub fn health_url(base: &str) -> (r: String)
    ensures
        r@ == base@ + "/-/healthy"@,
{
    cat2(base, "/-/healthy")
}

/// Where the alerts of an AlertManager are.
pub fn alerts_url(base: &str) -> (r: String)
    ensures
        r@ == base@ + "/api/v2/alerts"@,
{
    cat2(base, "/api/v2/alerts")
}

/// Where the silences of an AlertManager are.
pub fn silences_url(base: &str) -> (r: String)
    ensures
        r@ == base@ + "/api/v2/silences"@,
{
    cat2(base, "/api/v2/silences")
}

/// Where one silence of an AlertManager is.
pub fn silence_url(base: &str, silence_id: &str) -> (r: String)
    ensures
        r@ == base@ + "/api/v2/silence/"@ + silence_id@,
{
    cat3(base, "/api/v2/silence/", silence_id)
}

/// Where the rules of a Prometheus are.
pub fn rules_url(base: &str) -> (r: String)
    ensures
        r@ == base@ + "/api/v1/rules"@,
{
    cat2(base, "/api/v1/rules")
}

// ---------------------------------------------------------------------------
// Alerts
// ---------------------------------------------------------------------------

/// An alert, as far as it is shown.
#[derive(Clone, Debug)]
pub struct Alert {
    pub fingerprint: String,
    pub name: String,
    pub state: String,
    pub severity: String,
    pub summary: String,
    pub description: String,
    pub active_at: String,
    pub labels: TextMap,
    /// Where the alert comes from.
    pub generator_url: String,
    /// The alerts that inhibit this one, separated by commas.
    pub inhibited_by: String,
}

/// `labels` holds what an object says, values that are no text as empty ones.
pub open spec fn holds_members(labels: TextMap, o: Option<Json>) -> bool {
    pair_texts(labels.entries@) == member_texts(members(o))
}

/// `a` is the alert that the document `v` describes.
pub open spec fn is_alert(a: Alert, v: Json) -> bool {
    &&& a.fingerprint@ == string_or(member(v, "fingerprint"@), ""@)
    &&& a.name@ == text_or_empty(a.labels@, "alertname"@)
    &&& a.state@ == string_or(inner(member(v, "status"@), "state"@), "unknown"@)
    &&& a.severity@ == text_or_empty(a.labels@, "severity"@)
    &&& a.summary@ == string_or(inner(member(v, "annotations"@), "summary"@), ""@)
    &&& a.description@ == string_or(inner(member(v, "annotations"@), "description"@), ""@)
    &&& a.active_at@ == string_or(member(v, "startsAt"@), ""@)
    &&& holds_members(a.labels, member(v, "labels"@))
    &&& a.generator_url@ == string_or(member(v, "generatorURL"@), ""@)
    &&& a.inhibited_by@ == joined(
        strings_in(elements(inner(member(v, "status"@), "inhibitedBy"@))),
        ", "@,
    )
}

/// Reads one alert.
pub fn read_alert(doc: &Json) -> (r: Alert)
    ensures
        is_alert(r, *doc),
{
    let labels = TextMap { entries: text_members(doc.get("labels")) };
    let annotations = doc.get("annotations");
    let status = doc.get("status");
    let inhibited_by = string_list(sub_value(status, "inhibitedBy"));
    Alert {
        fingerprint: member_text(doc, "fingerprint", ""),
        name: labels.get_or_empty("alertname"),
        state: text_or_default(sub_value(status, "state"), "unknown"),
        severity: labels.get_or_empty("severity"),
        summary: text_or_default(sub_value(annotations, "summary"), ""),
        description: text_or_default(sub_value(annotations, "description"), ""),
        active_at: member_text(doc, "startsAt", ""),
        labels,
        generator_url: member_text(doc, "generatorURL", ""),
        inhibited_by: join(&inhibited_by, ", "),
    }
}

/// Reads one alert.
pub fn map_alert(v: serde_json::Value) -> (r: Alert)
    ensures
        is_alert(r, value_json(v)),
{
    let doc = json_of(v);
    read_alert(&doc)
}

/// Reads the alerts that an AlertManager lists.
pub fn list_alerts(raw: Vec<serde_json::Value>) -> (r: Vec<Alert>)
    ensures
        r@.len() == raw@.len(),
        forall|i: int| 0 <= i < r@.len() ==> is_alert(#[trigger] r@[i], values_json(raw@)[i]),
{
    let ghost all = raw@;
    let mut out: Vec<Alert> = Vec::new();
    for v in it: raw
        invariant
            it.seq() == all,
            out@.len() == it.index(),
            forall|k: int| 0 <= k < out@.len() ==> is_alert(#[trigger] out@[k], values_json(all)[k]),
    {
        out.push(map_alert(v));
    }
    out
}

// ---------------------------------------------------------------------------
// Silences
// ---------------------------------------------------------------------------

/// A silence, as far as it is shown.
#[derive(Clone, Debug)]
pub struct Silence {
    pub id: String,
    pub matchers: Vec<String>,
    pub created_by: String,
    pub comment: String,
    pub starts_at: String,
    pub ends_at: String,
    pub status: String,
}

/// How a matcher is shown: `name=value`, or `name=~value` where the value is a
/// pattern. One without a name or a value is not shown.
pub open spec fn matcher_text(m: Json) -> Option<Seq<char>> {
    match (string_of(member(m, "name"@)), string_of(member(m, "value"@))) {
        (Some(name), Some(value)) => if is_true(member(m, "isRegex"@)) {
            Some(name + "=~"@ + value)
        } else {
            Some(name + "="@ + value)
        },
        _ => None,
    }
}

/// The matchers that are shown, in order.
pub open spec fn matcher_texts(s: Seq<Json>) -> Seq<Seq<char>>
    decreases s.len(),
{
    if s.len() == 0 {
        Seq::empty()
    } else {
        match matcher_text(s.last()) {
            Some(t) => matcher_texts(s.drop_last()).push(t),
            None => matcher_texts(s.drop_last()),
        }
    }
}

fn show_matcher(m: &Json) -> (r: Option<String>)
    ensures
        opt_text(r) == matcher_text(*m),
{
    let name = match m.get("name") {
        Some(Json::Str(s)) => s,
        _ => {
            return None;
        },
    };
    let value = match m.get("value") {
        Some(Json::Str(s)) => s,
        _ => {
            return None;
        },
    };
    if true_value(m.get("isRegex")) {
        Some(cat3(name.as_str(), "=~", value.as_str()))
    } else {
        Some(cat3(name.as_str(), "=", value.as_str()))
    }
}

fn show_matchers(o: Option<&Json>) -> (r: Vec<String>)
    ensures
        texts(r@) == matcher_texts(elements(deref_opt(o))),
{
    let mut out: Vec<String> = Vec::new();
    assert(texts(out@) =~= Seq::empty());
    if let Some(Json::Array(a)) = o {
        let mut i: usize = 0;
        assert(texts(out@) =~= matcher_texts(a@.take(0)));
        while i < a.len()
            invariant
                i <= a@.len(),
                texts(out@) == matcher_texts(a@.take(i as int)),
            decreases a@.len() - i,
        {
            assert(a@.take(i + 1).drop_last() =~= a@.take(i as int));
            if let Some(t) = show_matcher(&a[i]) {
                proof {
                    lemma_texts_push(out@, t);
                }
                out.push(t);
            }
            i += 1;
        }
        assert(a@.take(i as int) =~= a@);
    }
    out
}

/// `s` is the silence that the document `v` describes.
pub open spec fn is_silence(s: Silence, v: Json) -> bool {
    &&& s.id@ == string_or(member(v, "id"@), ""@)
    &&& texts(s.matchers@) == matcher_texts(elements(member(v, "matchers"@)))
    &&& s.created_by@ == string_or(member(v, "createdBy"@), ""@)
    &&& s.comment@ == string_or(member(v, "comment"@), ""@)
    &&& s.starts_at@ == string_or(member(v, "startsAt"@), ""@)
    &&& s.ends_at@ == string_or(member(v, "endsAt"@), ""@)
    &&& s.status@ == string_or(inner(member(v, "status"@), "state"@), "unknown"@)
}

/// Reads one silence.
pub fn read_silence(doc: &Json) -> (r: Silence)
    ensures
        is_silence(r, *doc),
{
    Silence {
        id: member_text(doc, "id", ""),
        matchers: show_matchers(doc.get("matchers")),
        created_by: member_text(doc, "createdBy", ""),
        comment: member_text(doc, "comment", ""),
        starts_at: member_text(doc, "startsAt", ""),
        ends_at: member_text(doc, "endsAt", ""),
        status: text_or_default(sub_value(doc.get("status"), "state"), "unknown"),
    }
}

/// Reads one silence.
pub fn map_silence(v: serde_json::Value) -> (r: Silence)
    ensures
        is_silence(r, value_json(v)),
{
    let doc = json_of(v);
    read_silence(&doc)
}

/// Reads the silences that an AlertManager lists.
pub fn list_silences(raw: Vec<serde_json::Value>) -> (r: Vec<Silence>)
    ensures
        r@.len() == raw@.len(),
        forall|i: int| 0 <= i < r@.len() ==> is_silence(#[trigger] r@[i], values_json(raw@)[i]),
{
    let ghost all = raw@;
    let mut out: Vec<Silence> = Vec::new();
    for v in it: raw
        invariant
            it.seq() == all,
            out@.len() == it.index(),
            forall|k: int|
                0 <= k < out@.len() ==> is_silence(#[trigger] out@[k], values_json(all)[k]),
    {
        out.push(map_silence(v));
    }
    out
}

/// A matcher of a silence that is to be created.
#[derive(Clone, Debug)]
pub struct SilenceMatcher {
    pub name: String,
    pub value: String,
    pub is_regex: bool,
}

/// A silence that is to be created.
#[derive(Clone, Debug)]
pub struct CreateSilenceRequest {
    pub matchers: Vec<SilenceMatcher>,
    pub comment: String,
    pub created_by: String,
    /// When it starts, as RFC 3339 has it. Empty stands for now.
    pub starts_at: String,
    /// When it ends, as RFC 3339 has it.
    pub ends_at: String,
}

/// `e` is the member `key` with a text.
pub open spec fn is_text_member(e: (String, Json), key: Seq<char>, text: Seq<char>) -> bool {
    e.0@ == key && string_of(Some(e.1)) == Some(text)
}

/// `j` asks for the matcher `m`.
pub open spec fn is_matcher_body(j: Json, m: SilenceMatcher) -> bool {
    &&& j matches Json::Object(o)
    &&& o@.len() == 4
    &&& is_text_member(o@[0], "name"@, m.name@)
    &&& is_text_member(o@[1], "value"@, m.value@)
    &&& o@[2].0@ == "isRegex"@ && o@[2].1 == Json::Bool(m.is_regex)
    &&& o@[3].0@ == "isEqual"@ && o@[3].1 == Json::Bool(true)
}

/// `j` asks for the matchers `s`.
pub open spec fn is_matchers_body(j: Json, s: Seq<SilenceMatcher>) -> bool {
    &&& j matches Json::Array(a)
    &&& a@.len() == s.len()
    &&& forall|i: int| 0 <= i < s.len() ==> is_matcher_body(#[trigger] a@[i], s[i])
}

/// When a silence starts that is requested at `now`.
pub open spec fn start_of(starts_at: Seq<char>, now: Seq<char>) -> Seq<char> {
    if starts_at.len() == 0 {
        now
    } else {
        starts_at
    }
}

fn text_member(key: &str, text: &str) -> (r: (String, Json))
    ensures
        is_text_member(r, key@, text@),
{
    (key.to_owned(), Json::Str(text.to_owned()))
}

/// What is posted to create a silence; `now` is the time of the request, as
/// RFC 3339 has it.
pub fn silence_body(request: &CreateSilenceRequest, now: &str) -> (r: Json)
    ensures
        ({
            &&& r matches Json::Object(o)
            &&& o@.len() == 5
            &&& o@[0].0@ == "matchers"@ && is_matchers_body(o@[0].1, request.matchers@)
            &&& is_text_member(o@[1], "startsAt"@, start_of(request.starts_at@, now@))
            &&& is_text_member(o@[2], "endsAt"@, request.ends_at@)
            &&& is_text_member(o@[3], "createdBy"@, request.created_by@)
            &&& is_text_member(o@[4], "comment"@, request.comment@)
        }),
{
    let mut matchers: Vec<Json> = Vec::new();
    let mut i: usize = 0;
    while i < request.matchers.len()
        invariant
            i <= request.matchers@.len(),
            matchers@.len() == i,
            forall|k: int|
                0 <= k < i ==> is_matcher_body(#[trigger] matchers@[k], request.matchers@[k]),
        decreases request.matchers@.len() - i,
    {
        let m = &request.matchers[i];
        let mut o: Vec<(String, Json)> = Vec::new();
        o.push(text_member("name", m.name.as_str()));
        o.push(text_member("value", m.value.as_str()));
        o.push(("isRegex".to_owned(), Json::Bool(m.is_regex)));
        o.push(("isEqual".to_owned(), Json::Bool(true)));
        matchers.push(Json::Object(o));
        i += 1;
    }
    let starts_at = if request.starts_at.as_str().is_empty() {
        now
    } else {
        request.starts_at.as_str()
    };
    let mut body: Vec<(String, Json)> = Vec::new();
    body.push(("matchers".to_owned(), Json::Array(matchers)));
    body.push(text_member("startsAt", starts_at));
    body.push(text_member("endsAt", request.ends_at.as_str()));
    body.push(text_member("createdBy", request.created_by.as_str()));
    body.push(text_member("comment", request.comment.as_str()));
    Json::Object(body)
}

// ---------------------------------------------------------------------------
// Alert rules
// ---------------------------------------------------------------------------

/// An alert rule of a Prometheus.
#[derive(Clone, Debug)]
pub struct AlertRule {
    pub name: String,
    pub state: String,
    pub severity: String,
    pub query: String,
    /// How long the condition must hold, in seconds: the text of the number.
    /// Nothing stands for zero.
    pub duration: Option<String>,
    pub labels: TextMap,
    pub annotations: TextMap,
}

/// A group of alert rules.
#[derive(Clone, Debug)]
pub struct RuleGroup {
    pub name: String,
    pub file: String,
    /// How often the group is evaluated, in seconds: the text of the number.
    /// Nothing stands for zero.
    pub interval: Option<String>,
    pub rules: Vec<AlertRule>,
}

/// `r` is the rule that the document `v` describes.
pub open spec fn is_rule(r: AlertRule, v: Json) -> bool {
    &&& r.name@ == string_or(member(v, "name"@), "?"@)
    &&& r.state@ == string_or(member(v, "state"@), "inactive"@)
    &&& r.severity@ == text_or_empty(r.labels@, "severity"@)
    &&& r.query@ == string_or(member(v, "query"@), ""@)
    &&& opt_text(r.duration) == number_text(member(v, "duration"@))
    &&& holds_members(r.labels, member(v, "labels"@))
    &&& holds_members(r.annotations, member(v, "annotations"@))
}

/// Whether a rule is an alert rule.
pub open spec fn is_alerting(v: Json) -> bool {
    string_of(member(v, "type"@)) == Some("alerting"@)
}

/// The alert rules among some rules, in order.
pub open spec fn alerting(s: Seq<Json>) -> Seq<Json>
    decreases s.len(),
{
    if s.len() == 0 {
        Seq::empty()
    } else if is_alerting(s.last()) {
        alerting(s.drop_last()).push(s.last())
    } else {
        alerting(s.drop_last())
    }
}

/// `g` is the group that the document `v` describes: its alert rules only.
pub open spec fn is_group(g: RuleGroup, v: Json) -> bool {
    &&& g.name@ == string_or(member(v, "name"@), "?"@)
    &&& g.file@ == string_or(member(v, "file"@), ""@)
    &&& opt_text(g.interval) == number_text(member(v, "interval"@))
    &&& g.rules@.len() == alerting(elements(member(v, "rules"@))).len()
    &&& forall|i: int|
        0 <= i < g.rules@.len() ==> is_rule(
            #[trigger] g.rules@[i],
            alerting(elements(member(v, "rules"@)))[i],
        )
}

fn rule_of(v: &Json) -> (r: AlertRule)
    ensures
        is_rule(r, *v),
{
    let labels = TextMap { entries: text_members(v.get("labels")) };
    AlertRule {
        name: member_text(v, "name", "?"),
        state: member_text(v, "state", "inactive"),
        severity: labels.get_or_empty("severity"),
        query: member_text(v, "query", ""),
        duration: number_value(v.get("duration")),
        labels,
        annotations: TextMap { entries: text_members(v.get("annotations")) },
    }
}

fn is_alert_rule(v: &Json) -> (r: bool)
    ensures
        r == is_alerting(*v),
{
    match v.get("type") {
        Some(Json::Str(s)) => same(s.as_str(), "alerting"),
        _ => false,
    }
}

fn rules_of(o: Option<&Json>) -> (r: Vec<AlertRule>)
    ensures
        r@.len() == alerting(elements(deref_opt(o))).len(),
        forall|i: int|
            0 <= i < r@.len() ==> is_rule(#[trigger] r@[i], alerting(elements(deref_opt(o)))[i]),
{
    let mut out: Vec<AlertRule> = Vec::new();
    if let Some(Json::Array(a)) = o {
        let mut i: usize = 0;
        while i < a.len()
            invariant
                i <= a@.len(),
                out@.len() == alerting(a@.take(i as int)).len(),
                forall|k: int|
                    0 <= k < out@.len() ==> is_rule(
                        #[trigger] out@[k],
                        alerting(a@.take(i as int))[k],
                    ),
            decreases a@.len() - i,
        {
            assert(a@.take(i + 1).drop_last() =~= a@.take(i as int));
            if is_alert_rule(&a[i]) {
                out.push(rule_of(&a[i]));
            }
            i += 1;
        }
        assert(a@.take(i as int) =~= a@);
    }
    out
}

/// The rule groups that a document lists.
pub open spec fn group_docs(doc: Json) -> Seq<Json> {
    elements(inner(member(doc, "data"@), "groups"@))
}

/// Reads the alert rules that a document lists, group by group.
pub fn read_rules(doc: &Json) -> (r: Vec<RuleGroup>)
    ensures
        r@.len() == group_docs(*doc).len(),
        forall|i: int| 0 <= i < r@.len() ==> is_group(#[trigger] r@[i], group_docs(*doc)[i]),
{
    let mut out: Vec<RuleGroup> = Vec::new();
    if let Some(Json::Array(a)) = sub_value(doc.get("data"), "groups") {
        let mut i: usize = 0;
        while i < a.len()
            invariant
                i <= a@.len(),
                out@.len() == i,
                forall|k: int| 0 <= k < i ==> is_group(#[trigger] out@[k], a@[k]),
            decreases a@.len() - i,
        {
            let g = &a[i];
            out.push(
                RuleGroup {
                    name: member_text(g, "name", "?"),
                    file: member_text(g, "file", ""),
                    interval: number_value(g.get("interval")),
                    rules: rules_of(g.get("rules")),
                },
            );
            i += 1;
        }
    }
    out
}

/// Reads the alert rules of a Prometheus, group by group.
pub fn prometheus_rules(raw: serde_json::Value) -> (r: Vec<RuleGroup>)
    ensures
        r@.len() == group_docs(value_json(raw)).len(),
        forall|i: int|
            0 <= i < r@.len() ==> is_group(#[trigger] r@[i], group_docs(value_json(raw))[i]),
{
    let doc = json_of(raw);
    read_rules(&doc)
}

// ---------------------------------------------------------------------------
// Laws
// ---------------------------------------------------------------------------

/// A posted matcher is listed as it was meant: with `=~` where it is a pattern,
/// with `=` where it is not.
pub proof fn law_posted_matcher_is_listed(j: Json, m: SilenceMatcher)
    requires
        is_matcher_body(j, m),
    ensures
        matcher_text(j) == Some(
            m.name@ + (if m.is_regex {
                "=~"@
            } else {
                "="@
            }) + m.value@,
        ),
{
    reveal_strlit("name");
    reveal_strlit("value");
    reveal_strlit("isRegex");
    reveal_strlit("isEqual");
    let o = j->Object_0@;
    let rest = o.drop_first();
    let rest2 = rest.drop_first();
    assert("name"@.len() == 4 && "value"@.len() == 5 && "isRegex"@.len() == 7);
    assert(o[0].0@ == "name"@);
    assert(rest[0] == o[1] && rest2[0] == o[2]);
    reveal_with_fuel(crate::json::member_of, 4);
    assert(member(j, "name"@) == Some(o[0].1));
    assert(member(j, "value"@) == Some(o[1].1));
    assert(member(j, "isRegex"@) == Some(o[2].1));
}

/// Only alert rules are shown, and every one of them.
pub proof fn law_only_alert_rules_are_shown(s: Seq<Json>)
    ensures
        forall|i: int| 0 <= i < alerting(s).len() ==> is_alerting(#[trigger] alerting(s)[i]),
        forall|j: int|
            0 <= j < s.len() && is_alerting(#[trigger] s[j]) ==> alerting(s).contains(s[j]),
    decreases s.len(),
{
    if s.len() > 0 {
        let front = s.drop_last();
        law_only_alert_rules_are_shown(front);
        assert forall|j: int| 0 <= j < s.len() && is_alerting(#[trigger] s[j]) implies alerting(
            s,
        ).contains(s[j]) by {
            if j < s.len() - 1 {
                assert(front[j] == s[j]);
                let k = choose|k: int|
                    0 <= k < alerting(front).len() && alerting(front)[k] == s[j];
                assert(alerting(s)[k] == s[j]);
            } else {
                assert(alerting(s)[alerting(front).len() as int] == s[j]);
            }
        }
    }
}

/// A listed AlertManager says what was stored of it, and its token is the one kept under its
/// name, or empty.
pub proof fn law_listed_manager_is_the_stored_one(
    f: AlertManagerFile,
    r: Vec<AlertManager>,
    i: int,
)
    requires
        call_ensures(list, (&f,), r),
        0 <= i < f.managers@.len(),
    ensures
        r@.len() == f.managers@.len(),
        r@[i].name@ == f.managers@[i].name@,
        r@[i].url@ == f.managers@[i].url@,
        r@[i].description@ == f.managers@[i].description@,
        opt_text(r@[i].last_error) == opt_text(f.managers@[i].last_error),
        opt_text(r@[i].last_refreshed) == opt_text(f.managers@[i].last_refreshed),
        f.tokens@.contains_key(f.managers@[i].name@) ==> r@[i].bearer_token@
            == f.tokens@[f.managers@[i].name@],
        !f.tokens@.contains_key(f.managers@[i].name@) ==> r@[i].bearer_token@.len() == 0,
{
    assert(is_manager_of(r@[i], f.managers@[i], f.tokens@));
}

proof fn lemma_label(m: Seq<(String, Json)>, labels: TextMap, i: int, key: Seq<char>, text: Seq<char>)
    requires
        pair_texts(labels.entries@) == member_texts(m),
        0 <= i < m.len(),
        m[i].0@ == key,
        string_of(Some(m[i].1)) == Some(text),
        forall|k: int| 0 <= k < i ==> (#[trigger] m[k]).0@ != key,
    ensures
        labels@.contains_key(key),
        labels@[key] == text,
{
    let e = labels.entries@;
    let p = pair_texts(e);
    assert(p.len() == e.len());
    assert(p[i] == (e[i].0@, e[i].1@));
    assert(member_texts(m)[i] == (m[i].0@, string_or(Some(m[i].1), Seq::empty())));
    assert(e[i].0@ == key && e[i].1@ == text);
    assert forall|k: int| 0 <= k < i implies (#[trigger] e[k]).0@ != key by {
        assert(p[k] == (e[k].0@, e[k].1@));
        assert(member_texts(m)[k] == (m[k].0@, string_or(Some(m[k].1), Seq::empty())));
        assert(m[k].0@ != key);
    }
    lemma_lookup_at(e, key, i);
}

/// An alert is named by its label `alertname`, and as severe as its label `severity` says.
pub proof fn law_alert_is_named_by_its_labels(
    doc: Json,
    labels: Vec<(String, Json)>,
    r: Alert,
    i: int,
    text: String,
)
    requires
        call_ensures(read_alert, (&doc,), r),
        member(doc, "labels"@) == Some(Json::Object(labels)),
        0 <= i < labels@.len(),
        labels@[i].1 == Json::Str(text),
        forall|k: int| 0 <= k < i ==> (#[trigger] labels@[k]).0@ != labels@[i].0@,
    ensures
        labels@[i].0@ == "alertname"@ ==> r.name@ == text@,
        labels@[i].0@ == "severity"@ ==> r.severity@ == text@,
        r.labels@.contains_key(labels@[i].0@) && r.labels@[labels@[i].0@] == text@,
{
    assert(is_alert(r, doc));
    lemma_label(labels@, r.labels, i, labels@[i].0@, text@);
}

/// An alert shows what the document says of it.
pub proof fn law_alert_shows_what_the_document_says(doc: Json, r: Alert)
    requires
        call_ensures(read_alert, (&doc,), r),
    ensures
        member(doc, "fingerprint"@) matches Some(Json::Str(s)) ==> r.fingerprint@ == s@,
        member(doc, "startsAt"@) matches Some(Json::Str(s)) ==> r.active_at@ == s@,
        member(doc, "generatorURL"@) matches Some(Json::Str(s)) ==> r.generator_url@ == s@,
        member(doc, "status"@) matches Some(st) ==> (member(st, "state"@) matches Some(Json::Str(s))
            ==> r.state@ == s@),
        member(doc, "status"@) is None ==> r.state@ == "unknown"@ && r.inhibited_by@.len() == 0,
        member(doc, "annotations"@) matches Some(a) ==> (member(a, "summary"@) matches Some(
            Json::Str(s),
        ) ==> r.summary@ == s@),
        member(doc, "annotations"@) matches Some(a) ==> (member(a, "description"@) matches Some(
            Json::Str(s),
        ) ==> r.description@ == s@),
{
    assert(is_alert(r, doc));
    if member(doc, "status"@) is None {
        assert(strings_in(elements(None)) =~= Seq::empty());
    }
}

/// Every alert that is listed is read, in the order of the list.
pub proof fn law_every_alert_is_read(
    raw: Vec<serde_json::Value>,
    r: Vec<Alert>,
    i: int,
    fingerprint: String,
)
    requires
        call_ensures(list_alerts, (raw,), r),
        0 <= i < raw@.len(),
        member(value_json(raw@[i]), "fingerprint"@) == Some(Json::Str(fingerprint)),
    ensures
        r@.len() == raw@.len(),
        r@[i].fingerprint@ == fingerprint@,
{
    assert(is_alert(r@[i], values_json(raw@)[i]));
}

proof fn lemma_matchers(s: Seq<Json>)
    ensures
        matcher_texts(s) == s.filter(|m: Json| matcher_text(m) is Some).map_values(
            |m: Json| matcher_text(m)->0,
        ),
    decreases s.len(),
{
    reveal(Seq::filter);
    let f = |m: Json| matcher_text(m) is Some;
    let g = |m: Json| matcher_text(m)->0;
    if s.len() > 0 {
        lemma_matchers(s.drop_last());
        if f(s.last()) {
            assert(s.filter(f).map_values(g) =~= s.drop_last().filter(f).map_values(g).push(
                g(s.last()),
            ));
        }
    } else {
        assert(s.filter(f).map_values(g) =~= Seq::empty());
    }
}

/// A silence shows its matchers: the name, `=~` where the value is a pattern and `=` where it
/// is not, and the value.
pub proof fn law_silence_shows_its_matchers(
    doc: Json,
    matchers: Vec<Json>,
    r: Silence,
    i: int,
    name: String,
    value: String,
)
    requires
        call_ensures(read_silence, (&doc,), r),
        member(doc, "matchers"@) == Some(Json::Array(matchers)),
        0 <= i < matchers@.len(),
        member(matchers@[i], "name"@) == Some(Json::Str(name)),
        member(matchers@[i], "value"@) == Some(Json::Str(value)),
    ensures
        member(matchers@[i], "isRegex"@) == Some(Json::Bool(true)) ==> texts(r.matchers@).contains(
            name@ + "=~"@ + value@,
        ),
        member(matchers@[i], "isRegex"@) == Some(Json::Bool(false)) || member(
            matchers@[i],
            "isRegex"@,
        ) is None ==> texts(r.matchers@).contains(name@ + "="@ + value@),
        r.matchers@.len() <= matchers@.len(),
{
    assert(is_silence(r, doc));
    let s = matchers@;
    let f = |m: Json| matcher_text(m) is Some;
    let g = |m: Json| matcher_text(m)->0;
    lemma_matchers(s);
    s.lemma_filter_contains(f, i);
    let t = s.filter(f);
    s.lemma_filter_len(f);
    assert(t.contains(s[i]));
    let k = choose|k: int| 0 <= k < t.len() && t[k] == s[i];
    assert(t.map_values(g)[k] == g(s[i]));
    assert(texts(r.matchers@).contains(g(s[i])));
    assert(texts(r.matchers@).len() == r.matchers@.len());
}

/// A silence shows what the document says of it.
pub proof fn law_silence_shows_what_the_document_says(doc: Json, r: Silence)
    requires
        call_ensures(read_silence, (&doc,), r),
    ensures
        member(doc, "id"@) matches Some(Json::Str(s)) ==> r.id@ == s@,
        member(doc, "createdBy"@) matches Some(Json::Str(s)) ==> r.created_by@ == s@,
        member(doc, "comment"@) matches Some(Json::Str(s)) ==> r.comment@ == s@,
        member(doc, "startsAt"@) matches Some(Json::Str(s)) ==> r.starts_at@ == s@,
        member(doc, "endsAt"@) matches Some(Json::Str(s)) ==> r.ends_at@ == s@,
        member(doc, "status"@) matches Some(st) ==> (member(st, "state"@) matches Some(Json::Str(s))
            ==> r.status@ == s@),
        member(doc, "status"@) is None ==> r.status@ == "unknown"@,
{
    assert(is_silence(r, doc));
}

/// What is posted asks for the silence that was requested, from now on where no start is given,
/// and each of its matchers has to match.
pub proof fn law_requested_silence_is_posted(
    request: CreateSilenceRequest,
    now: &str,
    r: Json,
    i: int,
)
    requires
        call_ensures(silence_body, (&request, now), r),
        0 <= i < request.matchers@.len(),
    ensures
        string_of(member(r, "startsAt"@)) == Some(
            if request.starts_at@.len() == 0 {
                now@
            } else {
                request.starts_at@
            },
        ),
        string_of(member(r, "endsAt"@)) == Some(request.ends_at@),
        string_of(member(r, "createdBy"@)) == Some(request.created_by@),
        string_of(member(r, "comment"@)) == Some(request.comment@),
        elements(member(r, "matchers"@)).len() == request.matchers@.len(),
        ({
            let m = elements(member(r, "matchers"@))[i];
            &&& string_of(member(m, "name"@)) == Some(request.matchers@[i].name@)
            &&& string_of(member(m, "value"@)) == Some(request.matchers@[i].value@)
            &&& member(m, "isRegex"@) == Some(Json::Bool(request.matchers@[i].is_regex))
            &&& member(m, "isEqual"@) == Some(Json::Bool(true))
        }),
{
    reveal_with_fuel(member_of, 6);
    lemma_member_names();
    let o = r->Object_0@;
    assert(o.drop_first()[0] == o[1]);
    assert(o.drop_first().drop_first()[0] == o[2]);
    assert(o.drop_first().drop_first().drop_first()[0] == o[3]);
    assert(o.drop_first().drop_first().drop_first().drop_first()[0] == o[4]);
    let a = o[0].1->Array_0@;
    assert(is_matcher_body(a[i], request.matchers@[i]));
    let m = a[i]->Object_0@;
    assert(m.drop_first()[0] == m[1]);
    assert(m.drop_first().drop_first()[0] == m[2]);
    assert(m.drop_first().drop_first().drop_first()[0] == m[3]);
}

proof fn lemma_member_names()
    ensures
        "matchers"@.len() == 8,
        "startsAt"@.len() == 8,
        "endsAt"@.len() == 6,
        "createdBy"@.len() == 9,
        "comment"@.len() == 7,
        "name"@.len() == 4,
        "value"@.len() == 5,
        "isRegex"@.len() == 7,
        "isEqual"@.len() == 7,
        "matchers"@[0] == 'm',
        "startsAt"@[0] == 's',
        "isRegex"@[2] == 'R',
        "isEqual"@[2] == 'E',
{
    reveal_strlit("matchers");
    reveal_strlit("startsAt");
    reveal_strlit("endsAt");
    reveal_strlit("createdBy");
    reveal_strlit("comment");
    reveal_strlit("name");
    reveal_strlit("value");
    reveal_strlit("isRegex");
    reveal_strlit("isEqual");
}

proof fn lemma_alerting_filter(s: Seq<Json>)
    ensures
        alerting(s) == s.filter(|j: Json| is_alerting(j)),
    decreases s.len(),
{
    reveal(Seq::filter);
    if s.len() > 0 {
        lemma_alerting_filter(s.drop_last());
    }
}

/// Of each group the rules whose type is `alerting` are shown, in their order, and no others.
pub proof fn law_groups_show_their_alert_rules(
    doc: Json,
    data: Json,
    groups: Vec<Json>,
    rules: Vec<Json>,
    r: Vec<RuleGroup>,
    g: int,
    k: int,
)
    requires
        call_ensures(read_rules, (&doc,), r),
        member(doc, "data"@) == Some(data),
        member(data, "groups"@) == Some(Json::Array(groups)),
        0 <= g < groups@.len(),
        member(groups@[g], "rules"@) == Some(Json::Array(rules)),
    ensures
        r@.len() == groups@.len(),
        member(groups@[g], "name"@) matches Some(Json::Str(s)) ==> r@[g].name@ == s@,
        member(groups@[g], "file"@) matches Some(Json::Str(s)) ==> r@[g].file@ == s@,
        ({
            let shown = rules@.filter(|j: Json| string_of(member(j, "type"@)) == Some("alerting"@));
            &&& r@[g].rules@.len() == shown.len()
            &&& (0 <= k < shown.len() ==> {
                &&& (member(shown[k], "name"@) matches Some(Json::Str(s)) ==> r@[g].rules@[k].name@
                    == s@)
                &&& (member(shown[k], "query"@) matches Some(Json::Str(s))
                    ==> r@[g].rules@[k].query@ == s@)
                &&& (member(shown[k], "state"@) matches Some(Json::Str(s))
                    ==> r@[g].rules@[k].state@ == s@)
                &&& (member(shown[k], "state"@) is None ==> r@[g].rules@[k].state@ == "inactive"@)
                &&& (member(shown[k], "duration"@) matches Some(Json::Number(n)) ==> opt_text(
                    r@[g].rules@[k].duration,
                ) == Some(n.text@))
            })
        }),
{
    assert(is_group(r@[g], group_docs(doc)[g]));
    let f = |j: Json| string_of(member(j, "type"@)) == Some("alerting"@);
    lemma_alerting_filter(rules@);
    assert((|j: Json| is_alerting(j)) =~= f);
    let shown = rules@.filter(f);
    assert(alerting(rules@) == shown);
    if 0 <= k < shown.len() {
        assert(is_rule(r@[g].rules@[k], shown[k]));
    }
}

/// What was stored is listed: the settings as they were given, with the secret given for them.
pub proof fn law_stored_manager_is_listed(
    before: Seq<AlertManagerMeta>,
    tokens_before: Map<Seq<char>, Seq<char>>,
    m: AlertManagerMeta,
    f: AlertManagerFile,
    name: Seq<char>,
    url: Seq<char>,
    description: Seq<char>,
    token: Seq<char>,
    r: Vec<AlertManager>,
)
    requires
        is_fresh_manager(m, name, url, description),
        f.managers@ == with_entry(before, m),
        f.tokens@ == with_secret(tokens_before, name, token),
        call_ensures(list, (&f,), r),
    ensures
        exists|i: int|
            #![trigger r@[i]]
            0 <= i < r@.len() && ({
                &&& r@[i].name@ == name
                &&& r@[i].url@ == url
                &&& r@[i].description@ == description
                &&& r@[i].bearer_token@ == token
                &&& r@[i].last_error is None
                &&& r@[i].last_refreshed is None
            }),
{
    let s = f.managers@;
    lemma_put_then_find(before, m, name);
    lemma_named_from(s, name, 0);
    assert(m.key() == name);
    let i = named_at(s, name)->0;
    assert(s[i] == m);
    assert(is_manager_of(r@[i], s[i], f.tokens@));
}

/// An AlertManager and a Prometheus are asked where their APIs have it.
pub proof fn law_where_alerts_are_asked_for(
    base: &str,
    id: &str,
    health: String,
    alerts: String,
    silences: String,
    one: String,
    rules: String,
)
    requires
        call_ensures(health_url, (base,), health),
        call_ensures(alerts_url, (base,), alerts),
        call_ensures(silences_url, (base,), silences),
        call_ensures(silence_url, (base, id), one),
        call_ensures(rules_url, (base,), rules),
    ensures
        health@ == base@ + "/-/healthy"@,
        alerts@ == base@ + "/api/v2/alerts"@,
        silences@ == base@ + "/api/v2/silences"@,
        one@ == base@ + "/api/v2/silence/"@ + id@,
        rules@ == base@ + "/api/v1/rules"@,
{
}

/// Requests carry the token of the AlertManager, where it has one.
pub proof fn law_token_is_sent(m: AlertManager, r: Auth)
    requires
        call_ensures(auth, (&m,), r),
    ensures
        m.bearer_token@.len() > 0 ==> (r matches Auth::Bearer(t) && t@ == m.bearer_token@),
        m.bearer_token@.len() == 0 ==> r is Anonymous,
{
    reveal_strlit("");
    assert(""@.len() == 0);
    assert(r@ == auth_of(m.bearer_token@, ""@, ""@));
}

} // verus!
