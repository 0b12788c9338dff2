//! The Kubernetes audit log in Loki: the configured instances, the queries, and
//! the events in their answers.
use crate::error::AppResult;
use crate::instances::{
    answered, auth_of, instance_problem, instance_url, is_success, normalise_instance, not_found,
    pick_auth, put_secret, with_secret, Auth,
};
use crate::json::{
    deref_opt, elements, inner, int_or_zero, int_value, json_of, json_text, member, member_text,
    parse_json, string_or, sub_value, text_or_default, value_json, Json,
};
use crate::lists::{
    drop_entry, lemma_named_from, lemma_put_then_find, lemma_views_push, named_at, position,
    put_entry, text_or_empty, views, with_entry, without_entry, Named, TextMap,
};
use crate::text::{
    cat2, cat3, cat5, contains, copy_opt, dec, dec_i64, dec_int, dec_u64, has_part, lowercase,
    opt_text, replace_char, replaced, trimmed,
};
use vstd::prelude::*;

verus! {

// ---------------------------------------------------------------------------
// The configured instances
// ---------------------------------------------------------------------------

/// The file of the configured instances.
pub const STORE_FILE: &'static str = "loki.json";

/// A configured Loki. As stored, its password is empty.
#[derive(Clone, Debug)]
pub struct LokiConfig {
    pub name: String,
    pub url: String,
    pub username: String,
    pub password: String,
    pub description: String,
    pub last_error: Option<String>,
    pub last_refreshed: Option<String>,
}

/// The configured instances, with the passwords apart, by name.
#[derive(Clone, Debug)]
pub struct LokiFile {
    pub instances: Vec<LokiConfig>,
    pub passwords: TextMap,
}

impl Named for LokiConfig {
    open spec fn key(&self) -> Seq<char> {
        self.name@
    }

    fn key_str(&self) -> (r: &str) {
        self.name.as_str()
    }
}

/// `r` is what is stored as `m`, with its password from `passwords`.
pub open spec fn is_config_of(
    r: LokiConfig,
    m: LokiConfig,
    passwords: Map<Seq<char>, Seq<char>>,
) -> bool {
    &&& r.name@ == m.name@
    &&& r.url@ == m.url@
    &&& r.username@ == m.username@
    &&& r.password@ == text_or_empty(passwords, m.name@)
    &&& r.description@ == m.description@
    &&& opt_text(r.last_error) == opt_text(m.last_error)
    &&& opt_text(r.last_refreshed) == opt_text(m.last_refreshed)
}

fn config_of(m: &LokiConfig, passwords: &TextMap) -> (r: LokiConfig)
    ensures
        is_config_of(r, *m, passwords@),
{
    LokiConfig {
        name: m.name.clone(),
        url: m.url.clone(),
        username: m.username.clone(),
        password: passwords.get_or_empty(m.name.as_str()),
        description: m.description.clone(),
        last_error: copy_opt(&m.last_error),
        last_refreshed: copy_opt(&m.last_refreshed),
    }
}

/// The configured instances, each with its password.
pub fn list(f: &LokiFile) -> (r: Vec<LokiConfig>)
    ensures
        r@.len() == f.instances@.len(),
        forall|i: int|
            0 <= i < r@.len() ==> is_config_of(#[trigger] r@[i], f.instances@[i], f.passwords@),
{
    let mut out: Vec<LokiConfig> = Vec::new();
    let mut i: usize = 0;
    while i < f.instances.len()
        invariant
            i <= f.instances@.len(),
            out@.len() == i,
            forall|k: int|
                0 <= k < i ==> is_config_of(#[trigger] out@[k], f.instances@[k], f.passwords@),
        decreases f.instances@.len() - i,
    {
        out.push(config_of(&f.instances[i], &f.passwords));
        i += 1;
    }
    out
}

/// An instance with these settings, not contacted yet.
pub open spec fn is_fresh_config(
    m: LokiConfig,
    name: Seq<char>,
    url: Seq<char>,
    username: Seq<char>,
    password: Seq<char>,
    description: Seq<char>,
) -> bool {
    &&& m.name@ == name
    &&& m.url@ == url
    &&& m.username@ == username
    &&& m.password@ == password
    &&& m.description@ == description
    &&& m.last_error is None
    &&& m.last_refreshed is None
}

/// Stores an instance: in the place of the one of that name, or at the end. The
/// file is to be saved when this succeeds.
pub fn upsert(
    f: &mut LokiFile,
    name: &str,
    url: &str,
    username: &str,
    password: &str,
    description: &str,
) -> (r: AppResult<LokiConfig>)
    ensures
        match r {
            Ok(c) => {
                &&& instance_problem(name@, url@) is None
                &&& is_fresh_config(
                    c,
                    trimmed(name@),
                    instance_url(url@),
                    username@,
                    password@,
                    description@,
                )
                &&& exists|m: LokiConfig|
                    #[trigger] is_fresh_config(
                        m,
                        trimmed(name@),
                        instance_url(url@),
                        username@,
                        Seq::empty(),
                        description@,
                    ) && final(f).instances@ == with_entry(old(f).instances@, m)
                &&& final(f).passwords@ == with_secret(
                    old(f).passwords@,
                    trimmed(name@),
                    password@,
                )
            },
            Err(e) => {
                &&& instance_problem(name@, url@) is Some
                &&& e.is_other(instance_problem(name@, url@)->0)
                &&& *final(f) == *old(f)
            },
        },
{
    let (n, u) = match normalise_instance(name, url) {
        Ok(x) => x,
        Err(e) => {
            return Err(e);
        },
    };
    let m = LokiConfig {
        name: n.clone(),
        url: u.clone(),
        username: username.to_owned(),
        password: String::new(),
        description: description.to_owned(),
        last_error: None,
        last_refreshed: None,
    };
    assert(is_fresh_config(
        m,
        trimmed(name@),
        instance_url(url@),
        username@,
        Seq::empty(),
        description@,
    ));
    put_entry(&mut f.instances, m);
    put_secret(&mut f.passwords, n.as_str(), password);
    Ok(
        LokiConfig {
            name: n,
            url: u,
            username: username.to_owned(),
            password: password.to_owned(),
            description: description.to_owned(),
            last_error: None,
            last_refreshed: None,
        },
    )
}

/// Takes the instance `name` out, and its password. Says whether there was one:
/// only then is the file to be saved.
pub fn remove(f: &mut LokiFile, name: &str) -> (r: bool)
    ensures
        final(f).instances@ == without_entry(old(f).instances@, name@),
        final(f).passwords@ == old(f).passwords@.remove(name@),
        r == (named_at(old(f).instances@, name@) is Some),
{
    let found = drop_entry(&mut f.instances, name);
    f.passwords.remove(name);
    found
}

/// The configured instance called `name`.
pub fn find(f: &LokiFile, name: &str) -> (r: AppResult<LokiConfig>)
    ensures
        match (r, named_at(f.instances@, name@)) {
            (Ok(c), Some(i)) => is_config_of(c, f.instances@[i], f.passwords@),
            (Err(e), None) => e.is_not_found("loki instance"@ + " '"@ + name@ + "' not found"@),
            _ => false,
        },
{
    match position(&f.instances, name) {
        Some(i) => Ok(config_of(&f.instances[i], &f.passwords)),
        None => Err(not_found("loki instance", name)),
    }
}

/// How requests to a Loki authenticate: as its user, where one is named.
pub fn auth(c: &LokiConfig) -> (r: Auth)
    ensures
        r@ == auth_of(""@, c.username@, c.password@),
{
    pick_auth("", c.username.as_str(), c.password.as_str())
}

/// Where a Loki says that it is ready.
pub fn ready_url(base: &str) -> (r: String)
    ensures
        r@ == base@ + "/ready"@,
{
    cat2(base, "/ready")
}

/// Reads the answer of a readiness probe.
pub fn test_connect(url: &str, status: u16, shown: &str) -> (r: AppResult<()>)
    ensures
        match r {
            Ok(_) => is_success(status),
            Err(e) => !is_success(status) && e.is_other(url@ + ": HTTP "@ + shown@),
        },
{
    answered(url, status, shown)
}

// ---------------------------------------------------------------------------
// Queries
// ---------------------------------------------------------------------------

/// What is asked of the audit log.
#[derive(Clone, Debug)]
pub struct AuditQuery {
    /// The Loki instance.
    pub instance: String,
    /// Only events in this namespace; empty for any.
    pub namespace: String,
    /// Only events on a resource whose name holds this; empty for any.
    pub resource: String,
    /// Only events of a user whose name holds this; empty for any.
    pub user: String,
    /// How far back to look, in seconds.
    pub since_seconds: i64,
    /// How many events to ask for at most.
    pub limit: usize,
}

/// How far back a query looks that says nothing of it, in seconds.
pub fn default_since() -> (r: i64)
    ensures
        r == 3600,
{
    3600
}

/// How many events a query asks for that says nothing of it.
pub fn default_limit() -> (r: usize)
    ensures
        r == 200,
{
    200
}

/// The LogQL selector of the audit events, in a namespace where one is named.
pub open spec fn selector(namespace: Seq<char>) -> Seq<char> {
    if namespace.len() == 0 {
        "{job=\"kube-apiserver-audit\"}"@
    } else {
        "{job=\"kube-apiserver-audit\", namespace=\""@ + namespace + "\"}"@
    }
}

/// The LogQL selector of the audit events, in a namespace where one is named.
pub fn logql(namespace: &str) -> (r: String)
    ensures
        r@ == selector(namespace@),
{
    if namespace.is_empty() {
        "{job=\"kube-apiserver-audit\"}".to_owned()
    } else {
        cat3("{job=\"kube-apiserver-audit\", namespace=\"", namespace, "\"}")
    }
}

/// A selector in a query string: braces, quotes and spaces are escaped.
pub open spec fn escaped(s: Seq<char>) -> Seq<char> {
    replaced(
        replaced(replaced(replaced(s, '{', "%7B"@), '}', "%7D"@), '"', "%22"@),
        ' ',
        "%20"@,
    )
}

/// A selector in a query string: braces, quotes and spaces are escaped.
pub fn escape_selector(s: &str) -> (r: String)
    ensures
        r@ == escaped(s@),
{
    let a = replace_char(s, '{', "%7B");
    let b = replace_char(a.as_str(), '}', "%7D");
    let c = replace_char(b.as_str(), '"', "%22");
    replace_char(c.as_str(), ' ', "%20")
}

/// When a query starts to look that ends at `end`, in nanoseconds; nothing where
/// that time cannot be told.
pub fn window_start(end: i64, since_seconds: i64) -> (r: Option<i64>)
    ensures
        match r {
            Some(s) => s == end - since_seconds * 1_000_000_000,
            None => !(i64::MIN <= since_seconds * 1_000_000_000 <= i64::MAX) || !(i64::MIN <= end
                - since_seconds * 1_000_000_000 <= i64::MAX),
        },
{
    let span = match since_seconds.checked_mul(1_000_000_000) {
        Some(s) => s,
        None => {
            return None;
        },
    };
    end.checked_sub(span)
}

/// Where the events of a query are, from `start` to `end` in nanoseconds, newest
/// first.
pub fn query_url(base: &str, query: &AuditQuery, start: i64, end: i64) -> (r: String)
    ensures
        r@ == base@ + "/loki/api/v1/query_range?query="@ + escaped(selector(query.namespace@))
            + "&limit="@ + dec(query.limit as nat) + "&start="@ + dec_int(start as int) + "&end="@
            + dec_int(end as int) + "&direction=backward"@,
{
    let q = logql(query.namespace.as_str());
    let q = escape_selector(q.as_str());
    let limit = dec_u64(query.limit as u64);
    let start = dec_i64(start);
    let end = dec_i64(end);
    let head = cat5(
        base,
        "/loki/api/v1/query_range?query=",
        q.as_str(),
        "&limit=",
        limit.as_str(),
    );
    let all = cat5(head.as_str(), "&start=", start.as_str(), "&end=", end.as_str());
    cat2(all.as_str(), "&direction=backward")
}

// ---------------------------------------------------------------------------
// Events
// ---------------------------------------------------------------------------

/// An audit event, as far as it is shown.
#[derive(Clone, Debug)]
pub struct AuditEvent {
    pub timestamp: String,
    pub verb: String,
    pub resource: String,
    pub subresource: String,
    pub namespace: String,
    pub name: String,
    pub user: String,
    pub source_ip: String,
    pub status_code: i64,
    pub stage: String,
    pub audit_id: String,
    /// The whole event.
    pub raw: String,
}

/// What an audit event says.
pub struct EventView {
    pub timestamp: Seq<char>,
    pub verb: Seq<char>,
    pub resource: Seq<char>,
    pub subresource: Seq<char>,
    pub namespace: Seq<char>,
    pub name: Seq<char>,
    pub user: Seq<char>,
    pub source_ip: Seq<char>,
    pub status_code: i64,
    pub stage: Seq<char>,
    pub audit_id: Seq<char>,
    pub raw: Seq<char>,
}

impl View for AuditEvent {
    type V = EventView;

    open spec fn view(&self) -> EventView {
        EventView {
            timestamp: self.timestamp@,
            verb: self.verb@,
            resource: self.resource@,
            subresource: self.subresource@,
            namespace: self.namespace@,
            name: self.name@,
            user: self.user@,
            source_ip: self.source_ip@,
            status_code: self.status_code,
            stage: self.stage@,
            audit_id: self.audit_id@,
            raw: self.raw@,
        }
    }
}

/// When an event happened: when the request came, or else when the stage was
/// reached.
pub open spec fn event_time(v: Json) -> Seq<char> {
    string_or(
        (match member(v, "requestReceivedTimestamp"@) {
            Some(t) => Some(t),
            None => member(v, "stageTimestamp"@),
        }),
        ""@,
    )
}

/// The first element of a list.
pub open spec fn first_of(o: Option<Json>) -> Option<Json> {
    if elements(o).len() > 0 {
        Some(elements(o)[0])
    } else {
        None
    }
}

/// The event that the document `v` describes, whose text is `raw`.
pub open spec fn event_of(v: Json, raw: Seq<char>) -> EventView {
    let object = member(v, "objectRef"@);
    EventView {
        timestamp: event_time(v),
        verb: string_or(member(v, "verb"@), ""@),
        resource: string_or(inner(object, "resource"@), ""@),
        subresource: string_or(inner(object, "subresource"@), ""@),
        namespace: string_or(inner(object, "namespace"@), ""@),
        name: string_or(inner(object, "name"@), ""@),
        user: string_or(inner(member(v, "user"@), "username"@), ""@),
        source_ip: string_or(first_of(member(v, "sourceIPs"@)), ""@),
        status_code: int_or_zero(inner(member(v, "responseStatus"@), "code"@)),
        stage: string_or(member(v, "stage"@), ""@),
        audit_id: string_or(member(v, "auditID"@), ""@),
        raw,
    }
}

/// Reads the event that a parsed line describes.
pub fn read_event(v: &Json, raw: &str) -> (r: AuditEvent)
    ensures
        r@ == event_of(*v, raw@),
{
    let timestamp = match v.get("requestReceivedTimestamp") {
        Some(t) => text_or_default(Some(t), ""),
        None => text_or_default(v.get("stageTimestamp"), ""),
    };
    let object = v.get("objectRef");
    let source_ip = match v.get("sourceIPs") {
        Some(Json::Array(a)) => if a.len() > 0 {
            text_or_default(Some(&a[0]), "")
        } else {
            "".to_owned()
        },
        _ => "".to_owned(),
    };
    AuditEvent {
        timestamp,
        verb: member_text(v, "verb", ""),
        resource: text_or_default(sub_value(object, "resource"), ""),
        subresource: text_or_default(sub_value(object, "subresource"), ""),
        namespace: text_or_default(sub_value(object, "namespace"), ""),
        name: text_or_default(sub_value(object, "name"), ""),
        user: text_or_default(sub_value(v.get("user"), "username"), ""),
        source_ip,
        status_code: int_value(sub_value(v.get("responseStatus"), "code")),
        stage: member_text(v, "stage", ""),
        audit_id: member_text(v, "auditID", ""),
        raw: raw.to_owned(),
    }
}

/// The event that a line of the log holds: none where it is no JSON document.
pub open spec fn line_event(line: Seq<char>) -> Option<EventView> {
    match json_text(line) {
        Ok(v) => Some(event_of(v, line)),
        Err(_) => None,
    }
}

/// Reads a line of the log.
pub fn parse_audit_line(line: &str) -> (r: Option<AuditEvent>)
    ensures
        match r {
            Some(e) => line_event(line@) == Some(e@),
            None => line_event(line@) is None,
        },
{
    match parse_json(line) {
        Ok(v) => Some(read_event(&v, line)),
        Err(_) => None,
    }
}

/// Whether `name` holds `wanted`, whatever the case; every name holds the empty
/// one.
pub open spec fn names_match(name: Seq<char>, wanted: Seq<char>) -> bool {
    wanted.len() == 0 || has_part(lowercase(name), lowercase(wanted))
}

/// Whether an event is one that was asked for.
pub open spec fn is_wanted(e: EventView, resource: Seq<char>, user: Seq<char>) -> bool {
    names_match(e.resource, resource) && names_match(e.user, user)
}

fn matches_name(name: &str, wanted: &str) -> (r: bool)
    ensures
        r == names_match(name@, wanted@),
{
    if wanted.is_empty() {
        return true;
    }
    let n = name.to_lowercase();
    let w = wanted.to_lowercase();
    contains(n.as_str(), w.as_str())
}

/// Whether an event is one that was asked for.
pub fn wanted(e: &AuditEvent, query: &AuditQuery) -> (r: bool)
    ensures
        r == is_wanted(e@, query.resource@, query.user@),
{
    matches_name(e.resource.as_str(), query.resource.as_str()) && matches_name(
        e.user.as_str(),
        query.user.as_str(),
    )
}

/// The line of an entry of a stream: the text beside its time.
pub open spec fn entry_line(entry: Json) -> Seq<char> {
    let e = elements(Some(entry));
    if e.len() > 1 {
        string_or(Some(e[1]), ""@)
    } else {
        ""@
    }
}

/// The events among the entries of a stream that were asked for, in order.
pub open spec fn stream_events(
    entries: Seq<Json>,
    resource: Seq<char>,
    user: Seq<char>,
) -> Seq<EventView>
    decreases entries.len(),
{
    if entries.len() == 0 {
        Seq::empty()
    } else {
        let before = stream_events(entries.drop_last(), resource, user);
        match line_event(entry_line(entries.last())) {
            Some(e) => if is_wanted(e, resource, user) {
                before.push(e)
            } else {
                before
            },
            None => before,
        }
    }
}

/// The events of all streams that were asked for, stream by stream.
pub open spec fn all_events(
    streams: Seq<Json>,
    resource: Seq<char>,
    user: Seq<char>,
) -> Seq<EventView>
    decreases streams.len(),
{
    if streams.len() == 0 {
        Seq::empty()
    } else {
        all_events(streams.drop_last(), resource, user) + stream_events(
            elements(member(streams.last(), "values"@)),
            resource,
            user,
        )
    }
}

fn line_of(entry: &Json) -> (r: String)
    ensures
        r@ == entry_line(*entry),
{
    match entry {
        Json::Array(e) => if e.len() > 1 {
            text_or_default(Some(&e[1]), "")
        } else {
            "".to_owned()
        },
        _ => "".to_owned(),
    }
}

fn push_events(out: &mut Vec<AuditEvent>, o: Option<&Json>, query: &AuditQuery)
    ensures
        views(final(out)@) == views(old(out)@) + stream_events(
            elements(deref_opt(o)),
            query.resource@,
            query.user@,
        ),
{
    let ghost before = views(out@);
    if let Some(Json::Array(a)) = o {
        let mut i: usize = 0;
        assert(views(out@) =~= before + stream_events(a@.take(0), query.resource@, query.user@));
        while i < a.len()
            invariant
                i <= a@.len(),
                views(out@) == before + stream_events(
                    a@.take(i as int),
                    query.resource@,
                    query.user@,
                ),
            decreases a@.len() - i,
        {
            assert(a@.take(i + 1).drop_last() =~= a@.take(i as int));
            let line = line_of(&a[i]);
            if let Some(e) = parse_audit_line(line.as_str()) {
                if wanted(&e, query) {
                    proof {
                        lemma_views_push(out@, e);
                    }
                    out.push(e);
                }
            }
            assert(views(out@) =~= before + stream_events(
                a@.take(i + 1),
                query.resource@,
                query.user@,
            ));
            i += 1;
        }
        assert(a@.take(i as int) =~= a@);
    } else {
        assert(views(out@) =~= before + Seq::<EventView>::empty());
    }
}

/// The streams that an answer lists.
pub open spec fn streams_of(doc: Json) -> Seq<Json> {
    elements(inner(member(doc, "data"@), "result"@))
}

/// Reads the events in an answer that were asked for.
pub fn read_events(doc: &Json, query: &AuditQuery) -> (r: Vec<AuditEvent>)
    ensures
        views(r@) == all_events(streams_of(*doc), query.resource@, query.user@),
{
    let mut out: Vec<AuditEvent> = Vec::new();
    assert(views(out@) =~= Seq::empty());
    if let Some(Json::Array(a)) = sub_value(doc.get("data"), "result") {
        let mut i: usize = 0;
        assert(views(out@) =~= all_events(a@.take(0), query.resource@, query.user@));
        while i < a.len()
            invariant
                i <= a@.len(),
                views(out@) == all_events(a@.take(i as int), query.resource@, query.user@),
            decreases a@.len() - i,
        {
            assert(a@.take(i + 1).drop_last() =~= a@.take(i as int));
            push_events(&mut out, a[i].get("values"), query);
            i += 1;
        }
        assert(a@.take(i as int) =~= a@);
    }
    out
}

/// Reads the events in an answer that were asked for.
pub fn query_audit_events(body: serde_json::Value, query: &AuditQuery) -> (r: Vec<AuditEvent>)
    ensures
        views(r@) == all_events(streams_of(value_json(body)), query.resource@, query.user@),
{
    let doc = json_of(body);
    read_events(&doc, query)
}

// ---------------------------------------------------------------------------
// Laws
// ---------------------------------------------------------------------------

proof fn lemma_stream_events_wanted(entries: Seq<Json>, resource: Seq<char>, user: Seq<char>)
    ensures
        forall|i: int|
            0 <= i < stream_events(entries, resource, user).len() ==> is_wanted(
                #[trigger] stream_events(entries, resource, user)[i],
                resource,
                user,
            ),
    decreases entries.len(),
{
    if entries.len() > 0 {
        lemma_stream_events_wanted(entries.drop_last(), resource, user);
        let before = stream_events(entries.drop_last(), resource, user);
        let all = stream_events(entries, resource, user);
        assert forall|i: int| 0 <= i < all.len() implies is_wanted(
            #[trigger] all[i],
            resource,
            user,
        ) by {
            if i < before.len() {
                assert(all[i] == before[i]);
            }
        }
    }
}

/// Every event that is shown is one that was asked for: its resource and its user
/// hold what the query names, whatever the case.
pub proof fn law_shown_events_were_asked_for(
    streams: Seq<Json>,
    resource: Seq<char>,
    user: Seq<char>,
)
    ensures
        forall|i: int|
            0 <= i < all_events(streams, resource, user).len() ==> is_wanted(
                #[trigger] all_events(streams, resource, user)[i],
                resource,
                user,
            ),
    decreases streams.len(),
{
    if streams.len() > 0 {
        law_shown_events_were_asked_for(streams.drop_last(), resource, user);
        let entries = elements(member(streams.last(), "values"@));
        lemma_stream_events_wanted(entries, resource, user);
        let before = all_events(streams.drop_last(), resource, user);
        let last = stream_events(entries, resource, user);
        let all = all_events(streams, resource, user);
        assert forall|i: int| 0 <= i < all.len() implies is_wanted(
            #[trigger] all[i],
            resource,
            user,
        ) by {
            if i < before.len() {
                assert(all[i] == before[i]);
            } else {
                assert(all[i] == last[i - before.len()]);
            }
        }
    }
}

/// A listed instance says what was stored of it, and its password is the one kept under its
/// name, or empty.
pub proof fn law_listed_instance_is_the_stored_one(f: LokiFile, r: Vec<LokiConfig>, i: int)
    requires
        call_ensures(list, (&f,), r),
        0 <= i < f.instances@.len(),
    ensures
        r@.len() == f.instances@.len(),
        r@[i].name@ == f.instances@[i].name@,
        r@[i].url@ == f.instances@[i].url@,
        r@[i].username@ == f.instances@[i].username@,
        r@[i].description@ == f.instances@[i].description@,
        f.passwords@.contains_key(f.instances@[i].name@) ==> r@[i].password@
            == f.passwords@[f.instances@[i].name@],
        !f.passwords@.contains_key(f.instances@[i].name@) ==> r@[i].password@.len() == 0,
{
    assert(is_config_of(r@[i], f.instances@[i], f.passwords@));
}

/// The events of the API server's audit log are asked for, in the namespace where one is
/// named.
pub proof fn law_audit_log_is_asked_for(namespace: &str, r: String)
    requires
        call_ensures(logql, (namespace,), r),
    ensures
        namespace@.len() == 0 ==> r@ == "{job=\"kube-apiserver-audit\"}"@,
        namespace@.len() > 0 ==> r@ == "{job=\"kube-apiserver-audit\", namespace=\""@ + namespace@
            + "\"}"@,
{
}

proof fn lemma_replaced_each(s: Seq<char>, c: char, by: Seq<char>, d: char)
    ensures
        !by.contains(c) ==> !replaced(s, c, by).contains(c),
        d != c && !by.contains(d) && !s.contains(d) ==> !replaced(s, c, by).contains(d),
        !s.contains(c) ==> replaced(s, c, by) == s,
    decreases s.len(),
{
    if s.len() > 0 {
        let t = s.drop_last();
        lemma_replaced_each(t, c, by, d);
        let r = replaced(s, c, by);
        let q = replaced(t, c, by);
        assert(s.contains(s.last()));
        assert(t.contains(c) ==> s.contains(c)) by {
            if t.contains(c) {
                let k = choose|k: int| 0 <= k < t.len() && t[k] == c;
                assert(s[k] == c);
            }
        }
        assert(t.contains(d) ==> s.contains(d)) by {
            if t.contains(d) {
                let k = choose|k: int| 0 <= k < t.len() && t[k] == d;
                assert(s[k] == d);
            }
        }
        if !by.contains(c) && r.contains(c) {
            let k = choose|k: int| 0 <= k < r.len() && r[k] == c;
            if k < q.len() {
                assert(q[k] == c);
                assert(q.contains(c));
            } else if s.last() == c {
                assert(by[k - q.len()] == c);
            }
        }
        if d != c && !by.contains(d) && !s.contains(d) && r.contains(d) {
            let k = choose|k: int| 0 <= k < r.len() && r[k] == d;
            if k < q.len() {
                assert(q[k] == d);
                assert(q.contains(d));
            } else if s.last() == c {
                assert(by[k - q.len()] == d);
            }
        }
        if !s.contains(c) {
            assert(t.push(s.last()) =~= s);
        }
    } else {
        assert(replaced(s, c, by) =~= s);
    }
}

/// In a query string no brace, quote or blank of a selector is left, and a selector without
/// any stays as it is.
pub proof fn law_selector_is_escaped(s: &str, r: String)
    requires
        call_ensures(escape_selector, (s,), r),
    ensures
        !r@.contains('{') && !r@.contains('}') && !r@.contains('"') && !r@.contains(' '),
        !s@.contains('{') && !s@.contains('}') && !s@.contains('"') && !s@.contains(' ') ==> r@
            == s@,
{
    reveal_strlit("%7B");
    reveal_strlit("%7D");
    reveal_strlit("%22");
    reveal_strlit("%20");
    assert("%7B"@ =~= seq!['%', '7', 'B']);
    assert("%7D"@ =~= seq!['%', '7', 'D']);
    assert("%22"@ =~= seq!['%', '2', '2']);
    assert("%20"@ =~= seq!['%', '2', '0']);
    let a = replaced(s@, '{', "%7B"@);
    let b = replaced(a, '}', "%7D"@);
    let c = replaced(b, '"', "%22"@);
    lemma_replaced_each(s@, '{', "%7B"@, '{');
    lemma_replaced_each(a, '}', "%7D"@, '{');
    lemma_replaced_each(b, '"', "%22"@, '{');
    lemma_replaced_each(b, '"', "%22"@, '}');
    lemma_replaced_each(c, ' ', "%20"@, '{');
    lemma_replaced_each(c, ' ', "%20"@, '}');
    lemma_replaced_each(c, ' ', "%20"@, '"');
}

/// An event shows what the document says of it: who did what to which object, when, and how
/// it was answered.
pub proof fn law_event_shows_what_the_document_says(v: Json, raw: &str, r: AuditEvent)
    requires
        call_ensures(read_event, (&v, raw), r),
    ensures
        member(v, "verb"@) matches Some(Json::Str(s)) ==> r.verb@ == s@,
        member(v, "stage"@) matches Some(Json::Str(s)) ==> r.stage@ == s@,
        member(v, "auditID"@) matches Some(Json::Str(s)) ==> r.audit_id@ == s@,
        member(v, "requestReceivedTimestamp"@) matches Some(Json::Str(s)) ==> r.timestamp@ == s@,
        member(v, "requestReceivedTimestamp"@) is None ==> (member(v, "stageTimestamp"@) matches Some(
            Json::Str(s),
        ) ==> r.timestamp@ == s@),
        member(v, "objectRef"@) matches Some(o) ==> {
            &&& (member(o, "resource"@) matches Some(Json::Str(s)) ==> r.resource@ == s@)
            &&& (member(o, "subresource"@) matches Some(Json::Str(s)) ==> r.subresource@ == s@)
            &&& (member(o, "namespace"@) matches Some(Json::Str(s)) ==> r.namespace@ == s@)
            &&& (member(o, "name"@) matches Some(Json::Str(s)) ==> r.name@ == s@)
        },
        member(v, "user"@) matches Some(u) ==> (member(u, "username"@) matches Some(Json::Str(s))
            ==> r.user@ == s@),
        member(v, "responseStatus"@) matches Some(st) ==> (member(st, "code"@) matches Some(
            Json::Number(n),
        ) ==> (n.int matches Some(k) ==> r.status_code == k)),
        member(v, "sourceIPs"@) matches Some(Json::Array(a)) ==> (a@.len() > 0 ==> (
        a@[0] matches Json::Str(s) ==> r.source_ip@ == s@)),
        r.raw@ == raw@,
{
}

/// An event is wanted where its resource and its user hold what the query names, whatever the
/// case; a query that names neither wants every event.
pub proof fn law_which_events_are_wanted(e: AuditEvent, query: AuditQuery, r: bool)
    requires
        call_ensures(wanted, (&e, &query), r),
    ensures
        r <==> (query.resource@.len() == 0 || has_part(
            lowercase(e.resource@),
            lowercase(query.resource@),
        )) && (query.user@.len() == 0 || has_part(lowercase(e.user@), lowercase(query.user@))),
{
}

proof fn lemma_stream_holds(entries: Seq<Json>, resource: Seq<char>, user: Seq<char>, k: int)
    requires
        0 <= k < entries.len(),
        line_event(entry_line(entries[k])) is Some,
        is_wanted(line_event(entry_line(entries[k]))->0, resource, user),
    ensures
        stream_events(entries, resource, user).contains(line_event(entry_line(entries[k]))->0),
    decreases entries.len(),
{
    broadcast use vstd::seq_lib::lemma_seq_contains_after_push;

    if k < entries.len() - 1 {
        assert(entries.drop_last()[k] == entries[k]);
        lemma_stream_holds(entries.drop_last(), resource, user, k);
    }
}

proof fn lemma_all_hold(
    streams: Seq<Json>,
    resource: Seq<char>,
    user: Seq<char>,
    i: int,
    e: EventView,
)
    requires
        0 <= i < streams.len(),
        stream_events(elements(member(streams[i], "values"@)), resource, user).contains(e),
    ensures
        all_events(streams, resource, user).contains(e),
    decreases streams.len(),
{
    broadcast use vstd::seq_lib::lemma_seq_concat_contains_all_elements;

    if i < streams.len() - 1 {
        assert(streams.drop_last()[i] == streams[i]);
        lemma_all_hold(streams.drop_last(), resource, user, i, e);
    }
}

/// Every line of every stream in an answer that is an event and is wanted is shown.
pub proof fn law_every_wanted_event_is_shown(
    doc: Json,
    data: Json,
    streams: Vec<Json>,
    values: Vec<Json>,
    pair: Vec<Json>,
    line: String,
    text: &str,
    query: AuditQuery,
    r: Vec<AuditEvent>,
    i: int,
    k: int,
    parsed: Option<AuditEvent>,
    asked: bool,
)
    requires
        call_ensures(read_events, (&doc, &query), r),
        member(doc, "data"@) == Some(data),
        member(data, "result"@) == Some(Json::Array(streams)),
        0 <= i < streams@.len(),
        member(streams@[i], "values"@) == Some(Json::Array(values)),
        0 <= k < values@.len(),
        values@[k] == Json::Array(pair),
        pair@.len() > 1,
        pair@[1] == Json::Str(line),
        text@ == line@,
        call_ensures(parse_audit_line, (text,), parsed),
        parsed is Some,
        call_ensures(wanted, (&parsed->0, &query), asked),
        asked,
    ensures
        exists|n: int| 0 <= n < r@.len() && #[trigger] r@[n]@ == parsed->0@,
{
    let e = parsed->0@;
    assert(entry_line(values@[k]) == line@);
    lemma_stream_holds(values@, query.resource@, query.user@, k);
    lemma_all_hold(streams@, query.resource@, query.user@, i, e);
    let v = views(r@);
    assert(v.len() == r@.len());
    assert(v.contains(e));
    let n = choose|n: int| 0 <= n < v.len() && v[n] == e;
    assert(v[n] == r@[n]@);
}

/// What is shown of an answer was asked for.
pub proof fn law_only_wanted_events_are_shown(
    doc: Json,
    query: AuditQuery,
    r: Vec<AuditEvent>,
    n: int,
    asked: bool,
)
    requires
        call_ensures(read_events, (&doc, &query), r),
        0 <= n < r@.len(),
        call_ensures(wanted, (&r@[n], &query), asked),
    ensures
        asked,
{
    let v = views(r@);
    assert(v.len() == r@.len());
    assert(v[n] == r@[n]@);
    law_shown_events_were_asked_for(streams_of(doc), query.resource@, query.user@);
}

/// What was stored is listed: the settings as they were given, with the secret given for them.
pub proof fn law_stored_instance_is_listed(
    before: Seq<LokiConfig>,
    passwords_before: Map<Seq<char>, Seq<char>>,
    m: LokiConfig,
    f: LokiFile,
    name: Seq<char>,
    url: Seq<char>,
    username: Seq<char>,
    description: Seq<char>,
    password: Seq<char>,
    r: Vec<LokiConfig>,
)
    requires
        is_fresh_config(m, name, url, username, Seq::empty(), description),
        f.instances@ == with_entry(before, m),
        f.passwords@ == with_secret(passwords_before, name, password),
        call_ensures(list, (&f,), r),
    ensures
        m.password@.len() == 0,
        exists|i: int|
            #![trigger r@[i]]
            0 <= i < r@.len() && ({
                &&& r@[i].name@ == name
                &&& r@[i].url@ == url
                &&& r@[i].username@ == username
                &&& r@[i].description@ == description
                &&& r@[i].password@ == password
                &&& r@[i].last_error is None
                &&& r@[i].last_refreshed is None
            }),
{
    let s = f.instances@;
    lemma_put_then_find(before, m, name);
    lemma_named_from(s, name, 0);
    assert(m.key() == name);
    let i = named_at(s, name)->0;
    assert(s[i] == m);
    assert(is_config_of(r@[i], s[i], f.passwords@));
}

/// A query looks back as far as it says, and asks for as many events as it says, newest first.
pub proof fn law_query_asks_for_its_window(
    base: &str,
    query: AuditQuery,
    start: i64,
    end: i64,
    r: String,
    namespace: &str,
    selected: String,
    text: &str,
    escaped_text: String,
)
    requires
        call_ensures(query_url, (base, &query, start, end), r),
        namespace@ == query.namespace@,
        call_ensures(logql, (namespace,), selected),
        text@ == selected@,
        call_ensures(escape_selector, (text,), escaped_text),
        call_ensures(window_start, (end, query.since_seconds), Some(start)),
    ensures
        start == end - query.since_seconds * 1_000_000_000,
        r@ == base@ + "/loki/api/v1/query_range?query="@ + escaped_text@ + "&limit="@ + dec(
            query.limit as nat,
        ) + "&start="@ + dec_int(start as int) + "&end="@ + dec_int(end as int)
            + "&direction=backward"@,
{
}

/// Without a word of it, a query looks back an hour and asks for two hundred events.
pub proof fn law_what_is_asked_for_by_default(since: i64, limit: usize)
    requires
        call_ensures(default_since, (), since),
        call_ensures(default_limit, (), limit),
    ensures
        since == 3600,
        limit == 200,
{
}

/// Requests carry the user of the Loki, where one is named.
pub proof fn law_user_is_sent(c: LokiConfig, r: Auth)
    requires
        call_ensures(auth, (&c,), r),
    ensures
        c.username@.len() > 0 ==> (r matches Auth::Basic(u, p) && u@ == c.username@ && p@
            == c.password@),
        c.username@.len() == 0 ==> r is Anonymous,
{
    reveal_strlit("");
    assert(""@.len() == 0);
    assert(r@ == auth_of(""@, c.username@, c.password@));
}

} // verus!
