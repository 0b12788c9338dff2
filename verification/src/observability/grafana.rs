//! Grafana: the configured instances, and the dashboards that are embedded.
pub use crate::encoding::urlencode;
use crate::encoding::encoded;
use crate::error::AppResult;
use crate::instances::{
    auth_of, instance_problem, instance_url, normalise_instance, not_found, pick_auth, put_secret,
    with_secret, Auth,
};
use crate::json::{
    elements, json_of, member, member_text, string_list, string_or, strings_in, value_json,
    values_json, Json,
};
use crate::lists::{
    drop_entry, lemma_named_from, lemma_put_then_find, named_at, position, put_entry, text_or_empty,
    with_entry, without_entry, Named, TextMap,
};
use crate::text::{
    cat2, cat4, cat5, copy_opt, dec_i64, dec_int, has_prefix, has_suffix, opt_text, replace_char,
    replaced, texts, trimmed,
};
use crate::time::{seconds_of, whole_seconds};
use vstd::prelude::*;

verus! {

// ---------------------------------------------------------------------------
// The configured instances
// ---------------------------------------------------------------------------

/// The file of the configured instances.
pub const STORE_FILE: &'static str = "grafana.json";

/// A configured Grafana.
#[derive(Clone, Debug)]
pub struct GrafanaConfig {
    pub name: String,
    /// `https://grafana.example.com`: no trailing slash.
    pub url: String,
    pub username: String,
    pub password: String,
    pub api_token: String,
    /// What datasource the embedded dashboards start with.
    pub default_datasource: String,
    pub description: String,
    pub last_error: Option<String>,
    pub last_refreshed: Option<String>,
}

/// A configured Grafana as stored: without its secrets.
#[derive(Clone, Debug)]
pub struct GrafanaMeta {
    pub name: String,
    pub url: String,
    pub username: String,
    pub default_datasource: String,
    pub description: String,
    pub last_error: Option<String>,
    pub last_refreshed: Option<String>,
}

/// The configured Grafanas, with the tokens and the passwords apart, by name.
#[derive(Clone, Debug)]
pub struct GrafanaFile {
    pub grafanas: Vec<GrafanaMeta>,
    pub api_tokens: TextMap,
    pub passwords: TextMap,
}

impl Named for GrafanaMeta {
    open spec fn key(&self) -> Seq<char> {
        self.name@
    }

    fn key_str(&self) -> (r: &str) {
        self.name.as_str()
    }
}

/// `r` is what is stored as `m`, with its token and its password.
pub open spec fn is_config_of(
    r: GrafanaConfig,
    m: GrafanaMeta,
    tokens: Map<Seq<char>, Seq<char>>,
    passwords: Map<Seq<char>, Seq<char>>,
) -> bool {
    &&& r.name@ == m.name@
    &&& r.url@ == m.url@
    &&& r.username@ == m.username@
    &&& r.password@ == text_or_empty(passwords, m.name@)
    &&& r.api_token@ == text_or_empty(tokens, m.name@)
    &&& r.default_datasource@ == m.default_datasource@
    &&& r.description@ == m.description@
    &&& opt_text(r.last_error) == opt_text(m.last_error)
    &&& opt_text(r.last_refreshed) == opt_text(m.last_refreshed)
}

fn config_of(m: &GrafanaMeta, tokens: &TextMap, passwords: &TextMap) -> (r: GrafanaConfig)
    ensures
        is_config_of(r, *m, tokens@, passwords@),
{
    GrafanaConfig {
        name: m.name.clone(),
        url: m.url.clone(),
        username: m.username.clone(),
        password: passwords.get_or_empty(m.name.as_str()),
        api_token: tokens.get_or_empty(m.name.as_str()),
        default_datasource: m.default_datasource.clone(),
        description: m.description.clone(),
        last_error: copy_opt(&m.last_error),
        last_refreshed: copy_opt(&m.last_refreshed),
    }
}

/// The configured Grafanas, each with its secrets.
pub fn list(f: &GrafanaFile) -> (r: Vec<GrafanaConfig>)
    ensures
        r@.len() == f.grafanas@.len(),
        forall|i: int|
            0 <= i < r@.len() ==> is_config_of(
                #[trigger] r@[i],
                f.grafanas@[i],
                f.api_tokens@,
                f.passwords@,
            ),
{
    let mut out: Vec<GrafanaConfig> = Vec::new();
    let mut i: usize = 0;
    while i < f.grafanas.len()
        invariant
            i <= f.grafanas@.len(),
            out@.len() == i,
            forall|k: int|
                0 <= k < i ==> is_config_of(
                    #[trigger] out@[k],
                    f.grafanas@[k],
                    f.api_tokens@,
                    f.passwords@,
                ),
        decreases f.grafanas@.len() - i,
    {
        out.push(config_of(&f.grafanas[i], &f.api_tokens, &f.passwords));
        i += 1;
    }
    out
}

/// A freshly stored Grafana with these settings.
pub open spec fn is_fresh_config(
    m: GrafanaMeta,
    name: Seq<char>,
    url: Seq<char>,
    username: Seq<char>,
    default_datasource: Seq<char>,
    description: Seq<char>,
) -> bool {
    &&& m.name@ == name
    &&& m.url@ == url
    &&& m.username@ == username
    &&& m.default_datasource@ == default_datasource
    &&& m.description@ == description
    &&& m.last_error is None
    &&& m.last_refreshed is None
}

/// Stores a Grafana: in the place of the one of that name, or at the end. The
/// file is to be saved when this succeeds.
pub fn upsert(
    f: &mut GrafanaFile,
    name: &str,
    url: &str,
    username: &str,
    password: &str,
    api_token: &str,
    default_datasource: &str,
    description: &str,
) -> (r: AppResult<GrafanaConfig>)
    ensures
        match r {
            Ok(c) => {
                &&& instance_problem(name@, url@) is None
                &&& c.name@ == trimmed(name@)
                &&& c.url@ == instance_url(url@)
                &&& c.username@ == username@
                &&& c.password@ == password@
                &&& c.api_token@ == api_token@
                &&& c.default_datasource@ == default_datasource@
                &&& c.description@ == description@
                &&& c.last_error is None
                &&& c.last_refreshed is None
                &&& exists|m: GrafanaMeta|
                    #[trigger] is_fresh_config(
                        m,
                        trimmed(name@),
                        instance_url(url@),
                        username@,
                        default_datasource@,
                        description@,
                    ) && final(f).grafanas@ == with_entry(old(f).grafanas@, m)
                &&& final(f).api_tokens@ == with_secret(
                    old(f).api_tokens@,
                    trimmed(name@),
                    api_token@,
                )
                &&& final(f).passwords@ == with_secret(
                    old(f).passwords@,
                    trimmed(name@),
                    password@,
                )
            },
            Err(e) => {
                &&& instance_problem(name@, url@) is Some
                &&& e.is_other(instance_problem(name@, url@)->0)
                &&& *final(f) == *old(f)
            },
        },
{
    let (n, u) = match normalise_instance(name, url) {
        Ok(x) => x,
        Err(e) => {
            return Err(e);
        },
    };
    let m = GrafanaMeta {
        name: n.clone(),
        url: u.clone(),
        username: username.to_owned(),
        default_datasource: default_datasource.to_owned(),
        description: description.to_owned(),
        last_error: None,
        last_refreshed: None,
    };
    assert(is_fresh_config(
        m,
        trimmed(name@),
        instance_url(url@),
        username@,
        default_datasource@,
        description@,
    ));
    put_entry(&mut f.grafanas, m);
    put_secret(&mut f.api_tokens, n.as_str(), api_token);
    put_secret(&mut f.passwords, n.as_str(), password);
    Ok(
        GrafanaConfig {
            name: n,
            url: u,
            username: username.to_owned(),
            password: password.to_owned(),
            api_token: api_token.to_owned(),
            default_datasource: default_datasource.to_owned(),
            description: description.to_owned(),
            last_error: None,
            last_refreshed: None,
        },
    )
}

/// Takes the Grafana `name` out, and its secrets. Says whether there was one:
/// only then is the file to be saved.
pub fn remove(f: &mut GrafanaFile, name: &str) -> (r: bool)
    ensures
        final(f).grafanas@ == without_entry(old(f).grafanas@, name@),
        final(f).api_tokens@ == old(f).api_tokens@.remove(name@),
        final(f).passwords@ == old(f).passwords@.remove(name@),
        r == (named_at(old(f).grafanas@, name@) is Some),
{
    let found = drop_entry(&mut f.grafanas, name);
    f.api_tokens.remove(name);
    f.passwords.remove(name);
    found
}

/// The configured Grafana called `name`.
pub fn find(f: &GrafanaFile, name: &str) -> (r: AppResult<GrafanaConfig>)
    ensures
        match (r, named_at(f.grafanas@, name@)) {
            (Ok(c), Some(i)) => is_config_of(c, f.grafanas@[i], f.api_tokens@, f.passwords@),
            (Err(e), None) => e.is_not_found("grafana"@ + " '"@ + name@ + "' not found"@),
            _ => false,
        },
{
    match position(&f.grafanas, name) {
        Some(i) => Ok(config_of(&f.grafanas[i], &f.api_tokens, &f.passwords)),
        None => Err(not_found("grafana", name)),
    }
}

/// How requests to a Grafana authenticate: with its token, or else as its user.
pub fn auth(c: &GrafanaConfig) -> (r: Auth)
    ensures
        r@ == auth_of(c.api_token@, c.username@, c.password@),
{
    pick_auth(c.api_token.as_str(), c.username.as_str(), c.password.as_str())
}

/// Where a Grafana says whether it is healthy.
pub fn health_url(base: &str) -> (r: String)
    ensures
        r@ == base@ + "/api/health"@,
{
    cat2(base, "/api/health")
}

// ---------------------------------------------------------------------------
// Dashboards
// ---------------------------------------------------------------------------

/// A dashboard that is offered without a search.
#[derive(Clone, Debug)]
pub struct DashboardPreset {
    pub id: String,
    pub title: String,
    pub uid: String,
    pub description: String,
}

/// `p` is this preset.
pub open spec fn is_preset(
    p: DashboardPreset,
    id: Seq<char>,
    title: Seq<char>,
    uid: Seq<char>,
    description: Seq<char>,
) -> bool {
    p.id@ == id && p.title@ == title && p.uid@ == uid && p.description@ == description
}

fn preset(id: &str, title: &str, uid: &str, description: &str) -> (r: DashboardPreset)
    ensures
        is_preset(r, id@, title@, uid@, description@),
{
    DashboardPreset {
        id: id.to_owned(),
        title: title.to_owned(),
        uid: uid.to_owned(),
        description: description.to_owned(),
    }
}

/// The dashboards that are offered without a search. No two share an id.
pub fn preset_dashboards() -> (r: Vec<DashboardPreset>)
    ensures
        r@.len() == 4,
        is_preset(
            r@[0],
            "k7s-nodes"@,
            "Cluster / Nodes"@,
            "rYdddlPWk"@,
            "CPU, memory, disk, network per node"@,
        ),
        is_preset(
            r@[1],
            "k7s-pods"@,
            "Cluster / Pods"@,
            "6417bae1f9f1a85f2c7e0c12f6e9a3a3"@,
            "Per-pod CPU and memory"@,
        ),
        is_preset(
            r@[2],
            "k7s-namespaces"@,
            "Cluster / Namespaces"@,
            "85a5620789f06f0f2b8f79ce4b9c7f06"@,
            "Per-namespace resource usage"@,
        ),
        is_preset(
            r@[3],
            "k7s-kubelet"@,
            "Cluster / Kubelet"@,
            "f57d8e8c-1f3c-4b3e-a5e3-1e2b3c4d5e6f"@,
            "Kubelet stats, running pods, errors"@,
        ),
        forall|i: int, j: int|
            0 <= i < j < r@.len() ==> (#[trigger] r@[i]).id@ != (#[trigger] r@[j]).id@,
{
    let mut out: Vec<DashboardPreset> = Vec::new();
    out.push(
        preset(
            "k7s-nodes",
            "Cluster / Nodes",
            "rYdddlPWk",
            "CPU, memory, disk, network per node",
        ),
    );
    out.push(
        preset(
            "k7s-pods",
            "Cluster / Pods",
            "6417bae1f9f1a85f2c7e0c12f6e9a3a3",
            "Per-pod CPU and memory",
        ),
    );
    out.push(
        preset(
            "k7s-namespaces",
            "Cluster / Namespaces",
            "85a5620789f06f0f2b8f79ce4b9c7f06",
            "Per-namespace resource usage",
        ),
    );
    out.push(
        preset(
            "k7s-kubelet",
            "Cluster / Kubelet",
            "f57d8e8c-1f3c-4b3e-a5e3-1e2b3c4d5e6f",
            "Kubelet stats, running pods, errors",
        ),
    );
    proof {
        reveal_strlit("k7s-nodes");
        reveal_strlit("k7s-pods");
        reveal_strlit("k7s-namespaces");
        reveal_strlit("k7s-kubelet");
        assert(out@[0].id@.len() == 9);
        assert(out@[1].id@.len() == 8);
        assert(out@[2].id@.len() == 14);
        assert(out@[3].id@.len() == 11);
    }
    out
}

/// The datasource that an embedded dashboard starts with.
pub open spec fn datasource_of(configured: Seq<char>) -> Seq<char> {
    if configured.len() == 0 {
        "Prometheus"@
    } else {
        configured
    }
}

/// Where a dashboard is embedded from: at this instance, over this span of
/// milliseconds.
pub open spec fn embed_url(
    base: Seq<char>,
    uid: Seq<char>,
    from_ms: int,
    to_ms: int,
    datasource: Seq<char>,
) -> Seq<char> {
    base + "/d/"@ + uid + "?from="@ + dec_int(whole_seconds(from_ms)) + "&to="@ + dec_int(
        whole_seconds(to_ms),
    ) + "&var-datasource="@ + encoded(vstd::utf8::encode_utf8(datasource_of(datasource)))
        + "&kiosk"@
}

/// The address that a dashboard of the Grafana `name` is embedded from.
pub fn dashboard_url(f: &GrafanaFile, name: &str, uid: &str, from_ms: i64, to_ms: i64) -> (r:
    AppResult<String>)
    ensures
        match (r, named_at(f.grafanas@, name@)) {
            (Ok(u), Some(i)) => u@ == embed_url(
                f.grafanas@[i].url@,
                uid@,
                from_ms as int,
                to_ms as int,
                f.grafanas@[i].default_datasource@,
            ),
            (Err(e), None) => e.is_not_found("grafana"@ + " '"@ + name@ + "' not found"@),
            _ => false,
        },
{
    let c = match find(f, name) {
        Ok(c) => c,
        Err(e) => {
            return Err(e);
        },
    };
    let ds = if c.default_datasource.as_str().is_empty() {
        urlencode("Prometheus")
    } else {
        urlencode(c.default_datasource.as_str())
    };
    let from = dec_i64(seconds_of(from_ms));
    let to = dec_i64(seconds_of(to_ms));
    let head = cat5(c.url.as_str(), "/d/", uid, "?from=", from.as_str());
    let r = cat5(head.as_str(), "&to=", to.as_str(), "&var-datasource=", ds.as_str());
    Ok(cat2(r.as_str(), "&kiosk"))
}

/// A dashboard that a search found.
#[derive(Clone, Debug)]
pub struct DashboardSearchResult {
    pub uid: String,
    pub title: String,
    pub uri: String,
    pub kind: String,
    pub tags: Vec<String>,
    pub url: String,
}

/// Where the dashboards that match `query` are listed.
pub fn search_url(base: &str, query: &str) -> (r: String)
    ensures
        r@ == base@ + "/api/search?query="@ + replaced(query@, ' ', "%20"@) + "&type=dash-db"@,
{
    let q = replace_char(query, ' ', "%20");
    cat4(base, "/api/search?query=", q.as_str(), "&type=dash-db")
}

/// `d` is the dashboard that the document `v` describes.
pub open spec fn is_dashboard(d: DashboardSearchResult, v: Json) -> bool {
    &&& d.uid@ == string_or(member(v, "uid"@), ""@)
    &&& d.title@ == string_or(member(v, "title"@), ""@)
    &&& d.uri@ == string_or(member(v, "uri"@), ""@)
    &&& d.kind@ == string_or(member(v, "type"@), "dash-db"@)
    &&& texts(d.tags@) == strings_in(elements(member(v, "tags"@)))
    &&& d.url@ == string_or(member(v, "url"@), ""@)
}

/// Reads one dashboard.
pub fn read_dashboard(doc: &Json) -> (r: DashboardSearchResult)
    ensures
        is_dashboard(r, *doc),
{
    DashboardSearchResult {
        uid: member_text(doc, "uid", ""),
        title: member_text(doc, "title", ""),
        uri: member_text(doc, "uri", ""),
        kind: member_text(doc, "type", "dash-db"),
        tags: string_list(doc.get("tags")),
        url: member_text(doc, "url", ""),
    }
}

/// Reads the dashboards that a search lists.
pub fn search_dashboards(raw: Vec<serde_json::Value>) -> (r: Vec<DashboardSearchResult>)
    ensures
        r@.len() == raw@.len(),
        forall|i: int| 0 <= i < r@.len() ==> is_dashboard(#[trigger] r@[i], values_json(raw@)[i]),
{
    let ghost all = raw@;
    let mut out: Vec<DashboardSearchResult> = Vec::new();
    for v in it: raw
        invariant
            it.seq() == all,
            out@.len() == it.index(),
            forall|k: int|
                0 <= k < out@.len() ==> is_dashboard(#[trigger] out@[k], values_json(all)[k]),
    {
        let doc = json_of(v);
        out.push(read_dashboard(&doc));
    }
    out
}

// ---------------------------------------------------------------------------
// Laws
// ---------------------------------------------------------------------------

/// A listed Grafana says what was stored of it, and its secrets are those kept under its name,
/// or empty.
pub proof fn law_listed_grafana_is_the_stored_one(f: GrafanaFile, r: Vec<GrafanaConfig>, i: int)
    requires
        call_ensures(list, (&f,), r),
        0 <= i < f.grafanas@.len(),
    ensures
        r@.len() == f.grafanas@.len(),
        r@[i].name@ == f.grafanas@[i].name@,
        r@[i].url@ == f.grafanas@[i].url@,
        r@[i].username@ == f.grafanas@[i].username@,
        r@[i].default_datasource@ == f.grafanas@[i].default_datasource@,
        r@[i].description@ == f.grafanas@[i].description@,
        f.passwords@.contains_key(f.grafanas@[i].name@) ==> r@[i].password@
            == f.passwords@[f.grafanas@[i].name@],
        f.api_tokens@.contains_key(f.grafanas@[i].name@) ==> r@[i].api_token@
            == f.api_tokens@[f.grafanas@[i].name@],
        !f.passwords@.contains_key(f.grafanas@[i].name@) ==> r@[i].password@.len() == 0,
        !f.api_tokens@.contains_key(f.grafanas@[i].name@) ==> r@[i].api_token@.len() == 0,
{
    assert(is_config_of(r@[i], f.grafanas@[i], f.api_tokens@, f.passwords@));
}

/// A dashboard is embedded from the instance of the name, over the span asked for in seconds,
/// with the configured datasource, or `Prometheus` where none is.
pub proof fn law_dashboard_is_embedded_from_its_instance(
    f: GrafanaFile,
    name: &str,
    uid: &str,
    from_ms: i64,
    to_ms: i64,
    r: AppResult<String>,
    i: int,
    start: i64,
    end: i64,
    datasource: Seq<char>,
)
    requires
        call_ensures(dashboard_url, (&f, name, uid, from_ms, to_ms), r),
        0 <= i < f.grafanas@.len(),
        f.grafanas@[i].name@ == name@,
        forall|k: int| 0 <= k < i ==> (#[trigger] f.grafanas@[k]).name@ != name@,
        call_ensures(seconds_of, (from_ms,), start),
        call_ensures(seconds_of, (to_ms,), end),
        f.grafanas@[i].default_datasource@.len() > 0 ==> datasource
            == f.grafanas@[i].default_datasource@,
        f.grafanas@[i].default_datasource@.len() == 0 ==> datasource == "Prometheus"@,
    ensures
        r is Ok,
        r->Ok_0@ == f.grafanas@[i].url@ + "/d/"@ + uid@ + "?from="@ + dec_int(start as int) + "&to="@
            + dec_int(end as int) + "&var-datasource="@ + encoded(
            vstd::utf8::encode_utf8(datasource),
        ) + "&kiosk"@,
{
    lemma_named_from(f.grafanas@, name@, 0);
    assert(f.grafanas@[i].key() == name@);
    let n = named_at(f.grafanas@, name@);
    assert(n is Some);
    if n->0 < i {
        assert(f.grafanas@[n->0].name@ != name@);
    }
    assert(n == Some(i));
}

/// A dashboard that was found shows what the document says of it.
pub proof fn law_dashboard_shows_what_the_document_says(doc: Json, r: DashboardSearchResult)
    requires
        call_ensures(read_dashboard, (&doc,), r),
    ensures
        member(doc, "uid"@) matches Some(Json::Str(s)) ==> r.uid@ == s@,
        member(doc, "title"@) matches Some(Json::Str(s)) ==> r.title@ == s@,
        member(doc, "uri"@) matches Some(Json::Str(s)) ==> r.uri@ == s@,
        member(doc, "url"@) matches Some(Json::Str(s)) ==> r.url@ == s@,
        member(doc, "type"@) matches Some(Json::Str(s)) ==> r.kind@ == s@,
        member(doc, "type"@) is None ==> r.kind@ == "dash-db"@,
{
    assert(is_dashboard(r, doc));
}

/// Every dashboard that is listed is read, in the order of the list.
pub proof fn law_every_dashboard_is_read(
    raw: Vec<serde_json::Value>,
    r: Vec<DashboardSearchResult>,
    i: int,
    uid: String,
)
    requires
        call_ensures(search_dashboards, (raw,), r),
        0 <= i < raw@.len(),
        member(value_json(raw@[i]), "uid"@) == Some(Json::Str(uid)),
    ensures
        r@.len() == raw@.len(),
        r@[i].uid@ == uid@,
{
    assert(is_dashboard(r@[i], values_json(raw@)[i]));
}

/// What was stored is listed: the settings as they were given, with the secret given for them.
pub proof fn law_stored_grafana_is_listed(
    before: Seq<GrafanaMeta>,
    api_tokens_before: Map<Seq<char>, Seq<char>>,
    passwords_before: Map<Seq<char>, Seq<char>>,
    m: GrafanaMeta,
    f: GrafanaFile,
    name: Seq<char>,
    url: Seq<char>,
    username: Seq<char>,
    default_datasource: Seq<char>,
    description: Seq<char>,
    token: Seq<char>,
    password: Seq<char>,
    r: Vec<GrafanaConfig>,
)
    requires
        is_fresh_config(m, name, url, username, default_datasource, description),
        f.grafanas@ == with_entry(before, m),
        f.api_tokens@ == with_secret(api_tokens_before, name, token),
        f.passwords@ == with_secret(passwords_before, name, password),
        call_ensures(list, (&f,), r),
    ensures
        exists|i: int|
            #![trigger r@[i]]
            0 <= i < r@.len() && ({
                &&& r@[i].name@ == name
                &&& r@[i].url@ == url
                &&& r@[i].username@ == username
                &&& r@[i].default_datasource@ == default_datasource
                &&& r@[i].description@ == description
                &&& r@[i].api_token@ == token
                &&& r@[i].password@ == password
                &&& r@[i].last_error is None
                &&& r@[i].last_refreshed is None
            }),
{
    let s = f.grafanas@;
    lemma_put_then_find(before, m, name);
    lemma_named_from(s, name, 0);
    assert(m.key() == name);
    let i = named_at(s, name)->0;
    assert(s[i] == m);
    assert(is_config_of(r@[i], s[i], f.api_tokens@, f.passwords@));
}

/// Requests carry the token of the Grafana, where it has one, and else its user.
pub proof fn law_token_is_sent_before_the_user(c: GrafanaConfig, r: Auth)
    requires
        call_ensures(auth, (&c,), r),
    ensures
        c.api_token@.len() > 0 ==> (r matches Auth::Bearer(t) && t@ == c.api_token@),
        c.api_token@.len() == 0 && c.username@.len() > 0 ==> (r matches Auth::Basic(u, p) && u@
            == c.username@ && p@ == c.password@),
        c.api_token@.len() == 0 && c.username@.len() == 0 ==> r is Anonymous,
{
    assert(r@ == auth_of(c.api_token@, c.username@, c.password@));
}

/// Dashboards are searched for where the API has them, and health is asked for there.
pub proof fn law_where_a_grafana_is_asked(base: &str, query: &str, search: String, health: String)
    requires
        call_ensures(search_url, (base, query), search),
        call_ensures(health_url, (base,), health),
    ensures
        health@ == base@ + "/api/health"@,
        has_prefix(search@, base@ + "/api/search?query="@),
        has_suffix(search@, "&type=dash-db"@),
        !query@.contains(' ') ==> search@ == base@ + "/api/search?query="@ + query@
            + "&type=dash-db"@,
{
    let front = base@ + "/api/search?query="@;
    let q = replaced(query@, ' ', "%20"@);
    let end = "&type=dash-db"@;
    assert(search@.take(front.len() as int) =~= front);
    assert(search@.skip(search@.len() - end.len()) =~= end);
    if !query@.contains(' ') {
        lemma_nothing_replaced(query@);
    }
}

proof fn lemma_nothing_replaced(s: Seq<char>)
    requires
        !s.contains(' '),
    ensures
        replaced(s, ' ', "%20"@) == s,
    decreases s.len(),
{
    if s.len() > 0 {
        let t = s.drop_last();
        assert(s.contains(s.last()));
        assert forall|k: int| 0 <= k < t.len() implies t[k] != ' ' by {
            assert(s.contains(s[k]));
        }
        lemma_nothing_replaced(t);
        assert(t.push(s.last()) =~= s);
    } else {
        assert(replaced(s, ' ', "%20"@) =~= s);
    }
}

} // verus!
