//! Private image registries: the configured ones, and how their catalog API is
//! spoken to.
use crate::encoding::encoded;
pub use crate::encoding::urlencode;
use crate::error::{other, AppResult};
use crate::instances::{
    bare_address, is_success, law_bare_address_is_bare, put_secret, strip_api, success, with_secret,
};
use crate::json::{
    deref_opt, elements, inner, int_or_zero, int_value, json_text, member, member_text, parse_json,
    string_or, sub_value, text_or_default, Json,
};
use crate::lists::{
    drop_entry, lemma_named_from, lemma_put_then_find, lemma_views_push, named_at, position,
    put_entry, text_or_empty, views, with_entry, without_entry, Named, TextMap,
};
use crate::numbers::{lemma_wrapped_again, wrapped, wrapping_sum};
use crate::text::{
    cat2, cat3, cat4, cat5, char_from, contains, copy_opt, has_part, has_prefix, has_suffix,
    is_space, lemma_char_from, lemma_last_piece, lemma_one_piece, opt_text, pieces, same, split,
    split_once, starts_with, strip_prefix, texts, trim, trim_end_char, trim_start, trim_start_char,
    trimmed, trimmed_start, without_end, without_start,
};
use vstd::prelude::*;

verus! {

/// The file of the configured registries.
pub const STORE_FILE: &'static str = "image-registries.json";

/// A configured registry.
#[derive(Clone, Debug)]
pub struct ImageRegistry {
    pub name: String,
    /// `https://registry.example.com`: no trailing slash, no `/v2`.
    pub url: String,
    pub username: String,
    /// Kept in the process only; never written next to the rest.
    pub password: String,
    pub insecure: bool,
    pub description: String,
    pub last_error: Option<String>,
    pub last_refreshed: Option<String>,
}

/// A configured registry as stored: without its password.
#[derive(Clone, Debug)]
pub struct RegistryMeta {
    pub name: String,
    pub url: String,
    pub username: String,
    pub insecure: bool,
    pub description: String,
    pub last_error: Option<String>,
    pub last_refreshed: Option<String>,
}

/// The configured registries, with the passwords apart, by registry name.
#[derive(Clone, Debug)]
pub struct RegistryFile {
    pub registries: Vec<RegistryMeta>,
    pub passwords: TextMap,
}

/// A repository of a registry.
#[derive(Clone, Debug)]
pub struct RepoEntry {
    pub name: String,
}

/// A tag of a repository.
#[derive(Clone, Debug)]
pub struct TagEntry {
    pub name: String,
    pub digest: Option<String>,
    pub size: Option<i64>,
    pub created: Option<String>,
}

impl Named for RegistryMeta {
    open spec fn key(&self) -> Seq<char> {
        self.name@
    }

    fn key_str(&self) -> (r: &str) {
        self.name.as_str()
    }
}

impl Named for ImageRegistry {
    open spec fn key(&self) -> Seq<char> {
        self.name@
    }

    fn key_str(&self) -> (r: &str) {
        self.name.as_str()
    }
}

// ---------------------------------------------------------------------------
// The configured registries
// ---------------------------------------------------------------------------

/// `r` is what is stored as `m`, with its password from `passwords`.
pub open spec fn is_registry_of(
    r: ImageRegistry,
    m: RegistryMeta,
    passwords: Map<Seq<char>, Seq<char>>,
) -> bool {
    &&& r.name == m.name
    &&& r.url == m.url
    &&& r.username == m.username
    &&& r.password@ == text_or_empty(passwords, m.name@)
    &&& r.insecure == m.insecure
    &&& r.description == m.description
    &&& opt_text(r.last_error) == opt_text(m.last_error)
    &&& opt_text(r.last_refreshed) == opt_text(m.last_refreshed)
}

/// The configured registries, each with its password.
pub fn list_registries(f: &RegistryFile) -> (r: Vec<ImageRegistry>)
    ensures
        r@.len() == f.registries@.len(),
        forall|i: int|
            0 <= i < r@.len() ==> is_registry_of(
                #[trigger] r@[i],
                f.registries@[i],
                f.passwords@,
            ),
{
    let mut out: Vec<ImageRegistry> = Vec::new();
    let mut i: usize = 0;
    while i < f.registries.len()
        invariant
            i <= f.registries@.len(),
            out@.len() == i,
            forall|k: int|
                0 <= k < i ==> is_registry_of(
                    #[trigger] out@[k],
                    f.registries@[k],
                    f.passwords@,
                ),
        decreases f.registries@.len() - i,
    {
        let m = &f.registries[i];
        out.push(
            ImageRegistry {
                name: m.name.clone(),
                url: m.url.clone(),
                username: m.username.clone(),
                password: f.passwords.get_or_empty(m.name.as_str()),
                insecure: m.insecure,
                description: m.description.clone(),
                last_error: copy_opt(&m.last_error),
                last_refreshed: copy_opt(&m.last_refreshed),
            },
        );
        i += 1;
    }
    out
}

/// The base address that a typed address stands for: trimmed, and with neither
/// slashes nor `/v2` at its end.
pub open spec fn registry_url(url: Seq<char>) -> Seq<char> {
    bare_address(trimmed(url), "/v2"@)
}

/// Why a registry cannot be stored under this name and address, if there is a
/// reason.
pub open spec fn registry_problem(name: Seq<char>, url: Seq<char>) -> Option<Seq<char>> {
    if trimmed(name).len() == 0 {
        Some("registry name cannot be empty"@)
    } else if registry_url(url).len() == 0 {
        Some("registry url cannot be empty"@)
    } else {
        None
    }
}

/// The name and address under which a registry is stored, if it can be.
pub fn normalise_registry(name: &str, url: &str) -> (r: AppResult<(String, String)>)
    ensures
        match r {
            Ok((n, u)) => registry_problem(name@, url@) is None && n@ == trimmed(name@) && u@
                == registry_url(url@),
            Err(e) => registry_problem(name@, url@) is Some && e.is_other(
                registry_problem(name@, url@)->0,
            ),
        },
{
    let n = trim(name);
    let u = strip_api(trim(url), "/v2");
    if n.is_empty() {
        return Err(other("registry name cannot be empty"));
    }
    if u.is_empty() {
        return Err(other("registry url cannot be empty"));
    }
    Ok((n.to_owned(), u.to_owned()))
}

/// A freshly stored registry with these settings.
pub open spec fn is_fresh_meta(
    m: RegistryMeta,
    name: Seq<char>,
    url: Seq<char>,
    username: Seq<char>,
    insecure: bool,
    description: Seq<char>,
) -> bool {
    m.name@ == name && m.url@ == url && m.username@ == username && m.insecure == insecure
        && m.description@ == description && m.last_error is None && m.last_refreshed is None
}

/// Stores a registry: in the place of the one of that name, or at the end. The
/// file is to be saved when this succeeds.
pub fn upsert_registry(
    f: &mut RegistryFile,
    name: &str,
    url: &str,
    username: &str,
    password: &str,
    insecure: bool,
    description: &str,
) -> (r: AppResult<ImageRegistry>)
    ensures
        match r {
            Ok(reg) => {
                &&& registry_problem(name@, url@) is None
                &&& reg.name@ == trimmed(name@)
                &&& reg.url@ == registry_url(url@)
                &&& reg.username@ == username@
                &&& reg.password@ == password@
                &&& reg.insecure == insecure
                &&& reg.description@ == description@
                &&& reg.last_error is None
                &&& reg.last_refreshed is None
                &&& exists|m: RegistryMeta|
                    #[trigger] is_fresh_meta(
                        m,
                        trimmed(name@),
                        registry_url(url@),
                        username@,
                        insecure,
                        description@,
                    ) && final(f).registries@ == with_entry(old(f).registries@, m)
                &&& final(f).passwords@ == with_secret(
                    old(f).passwords@,
                    trimmed(name@),
                    password@,
                )
            },
            Err(e) => {
                &&& registry_problem(name@, url@) is Some
                &&& e.is_other(registry_problem(name@, url@)->0)
                &&& *final(f) == *old(f)
            },
        },
{
    let (n, u) = match normalise_registry(name, url) {
        Ok(x) => x,
        Err(e) => {
            return Err(e);
        },
    };
    let m = RegistryMeta {
        name: n.clone(),
        url: u.clone(),
        username: username.to_owned(),
        insecure,
        description: description.to_owned(),
        last_error: None,
        last_refreshed: None,
    };
    let ghost stored = m;
    put_entry(&mut f.registries, m);
    put_secret(&mut f.passwords, n.as_str(), password);
    assert(is_fresh_meta(
        stored,
        trimmed(name@),
        registry_url(url@),
        username@,
        insecure,
        description@,
    ));
    Ok(
        ImageRegistry {
            name: n,
            url: u,
            username: username.to_owned(),
            password: password.to_owned(),
            insecure,
            description: description.to_owned(),
            last_error: None,
            last_refreshed: None,
        },
    )
}

/// Takes the registry `name` out, and its password. Says whether there was one:
/// only then is the file to be saved.
pub fn remove_registry(f: &mut RegistryFile, name: &str) -> (r: bool)
    ensures
        final(f).registries@ == without_entry(old(f).registries@, name@),
        final(f).passwords@ == old(f).passwords@.remove(name@),
        r == (named_at(old(f).registries@, name@) is Some),
{
    let found = drop_entry(&mut f.registries, name);
    f.passwords.remove(name);
    found
}

/// The configured registry called `name`.
pub fn find_registry(list: &Vec<ImageRegistry>, name: &str) -> (r: Option<usize>)
    ensures
        match r {
            Some(i) => named_at(list@, name@) == Some(i as int) && i < list@.len()
                && list@[i as int].name@ == name@,
            None => named_at(list@, name@) is None,
        },
{
    position(list, name)
}

// ---------------------------------------------------------------------------
// Requests
// ---------------------------------------------------------------------------

/// Upper bound on entries fetched while following pagination.
pub const PAGINATION_LIMIT: usize = 1000;

/// Upper bound on pages fetched in one listing.
pub const MAX_PAGES: usize = 100;

/// Reads the answer of a probe of `/v2/`: a success and a demand for
/// authentication both mean that a registry is there. `shown` is the status as
/// text.
pub fn probe_result(base: &str, status: u16, shown: &str) -> (r: AppResult<()>)
    ensures
        match r {
            Ok(_) => is_success(status) || status == 401,
            Err(e) => !is_success(status) && status != 401 && e.is_other(
                "GET "@ + base@ + "/v2/"@ + ": HTTP "@ + shown@,
            ),
        },
{
    if success(status) || status == 401 {
        Ok(())
    } else {
        let m = cat5("GET ", base, "/v2/", ": HTTP ", shown);
        Err(other(m.as_str()))
    }
}

/// Where the catalog of a registry begins.
pub fn catalog_url(base: &str) -> (r: String)
    ensures
        r@ == base@ + "/v2/_catalog?n=100"@,
{
    cat2(base, "/v2/_catalog?n=100")
}

/// Where the tags of a repository begin.
pub fn tags_url(base: &str, repo: &str) -> (r: String)
    ensures
        r@ == base@ + "/v2/"@ + repo@ + "/tags/list?n=100"@,
{
    cat4(base, "/v2/", repo, "/tags/list?n=100")
}

/// Where the manifest of a tag is.
pub fn manifest_url(base: &str, repo: &str, tag: &str) -> (r: String)
    ensures
        r@ == base@ + "/v2/"@ + repo@ + "/manifests/"@ + tag@,
{
    cat5(base, "/v2/", repo, "/manifests/", tag)
}

/// Reads the status of a catalog page. A registry without a catalog answers 404.
pub fn catalog_status(registry: &str, status: u16, shown: &str) -> (r: AppResult<()>)
    ensures
        match r {
            Ok(_) => is_success(status),
            Err(e) => !is_success(status) && e.is_other(
                if status == 404 {
                    "registry "@ + registry@
                        + " does not support catalog browsing; type a repository name"@
                } else {
                    "catalog: HTTP "@ + shown@
                },
            ),
        },
{
    if status == 404 {
        let m = cat3(
            "registry ",
            registry,
            " does not support catalog browsing; type a repository name",
        );
        return Err(other(m.as_str()));
    }
    if !success(status) {
        let m = cat2("catalog: HTTP ", shown);
        return Err(other(m.as_str()));
    }
    Ok(())
}

/// Reads the status of a page of tags or of a manifest; `what` names which.
pub fn page_status(what: &str, status: u16, shown: &str) -> (r: AppResult<()>)
    ensures
        match r {
            Ok(_) => is_success(status),
            Err(e) => !is_success(status) && e.is_other(what@ + ": HTTP "@ + shown@),
        },
{
    if !success(status) {
        let m = cat3(what, ": HTTP ", shown);
        return Err(other(m.as_str()));
    }
    Ok(())
}

/// What a part of a `Link` header points to, if that is the next page.
pub open spec fn next_target(part: Seq<char>) -> Option<Seq<char>> {
    let p = trimmed(part);
    if p.len() > 0 && p[0] == '<' {
        let rest = p.skip(1);
        let params = match char_from(p, '>', 0) {
            Some(i) => p.skip(i + 1),
            None => Seq::empty(),
        };
        if has_part(params, "rel=\"next\""@) || has_part(params, "rel=next"@) {
            Some(
                match char_from(rest, '>', 0) {
                    Some(i) => rest.take(i),
                    None => rest,
                },
            )
        } else {
            None
        }
    } else {
        None
    }
}

/// The first part, from `from` on, that points to the next page.
pub open spec fn first_next(parts: Seq<Seq<char>>, from: int) -> Option<Seq<char>>
    decreases parts.len() - from,
{
    if from < 0 || from >= parts.len() {
        None
    } else {
        match next_target(parts[from]) {
            Some(t) => Some(t),
            None => first_next(parts, from + 1),
        }
    }
}

fn link_target(part: &str) -> (r: Option<String>)
    ensures
        opt_text(r) == next_target(part@),
{
    let p = trim(part);
    if p.is_empty() || p.get_char(0) != '<' {
        return None;
    }
    let n: usize = p.unicode_len();
    let rest = p.substring_char(1, n);
    assert(rest@ =~= p@.skip(1));
    let params = match split_once(p, '>') {
        Some((_, after)) => after,
        None => {
            proof {
                reveal_strlit("");
            }
            ""
        },
    };
    assert(params@ =~= (match char_from(p@, '>', 0) {
        Some(i) => p@.skip(i + 1),
        None => Seq::empty(),
    }));
    if contains(params, "rel=\"next\"") || contains(params, "rel=next") {
        match split_once(rest, '>') {
            Some((target, _)) => Some(target.to_owned()),
            None => Some(rest.to_owned()),
        }
    } else {
        None
    }
}

/// The target of the `rel="next"` relation of a `Link` header.
pub fn next_link_value(header: &str) -> (r: Option<String>)
    ensures
        opt_text(r) == first_next(pieces(header@, ','), 0),
{
    let parts = split(header, ',');
    let ghost ps = pieces(header@, ',');
    let mut i: usize = 0;
    while i < parts.len()
        invariant
            i <= parts@.len(),
            texts(parts@) == ps,
            ps == pieces(header@, ','),
            first_next(ps, 0) == first_next(ps, i as int),
        decreases parts@.len() - i,
    {
        assert(ps[i as int] == parts@[i as int]@);
        if let Some(t) = link_target(parts[i].as_str()) {
            return Some(t);
        }
        i += 1;
    }
    None
}

/// Where a `Link` target is, seen from the registry at `base`.
pub open spec fn resolved(base: Seq<char>, next: Seq<char>) -> Seq<char> {
    if has_prefix(next, "http://"@) || has_prefix(next, "https://"@) {
        next
    } else {
        without_end(base, '/') + "/"@ + without_start(next, '/')
    }
}

/// Resolves a `Link` target against the registry's base address: an absolute one
/// stays as it is, any other is a path below the base.
pub fn resolve_next(base_url: &str, next: &str) -> (r: String)
    ensures
        r@ == resolved(base_url@, next@),
{
    if starts_with(next, "http://") || starts_with(next, "https://") {
        next.to_owned()
    } else {
        cat3(trim_end_char(base_url, '/'), "/", trim_start_char(next, '/'))
    }
}

/// Where a listing goes on after a page whose `Link` header is `link`.
pub open spec fn page_after(
    base: Seq<char>,
    link: Option<Seq<char>>,
    entries: usize,
    pages: usize,
) -> Option<Seq<char>> {
    match link {
        Some(header) => match first_next(pieces(header, ','), 0) {
            Some(t) => if entries < PAGINATION_LIMIT && pages < MAX_PAGES {
                Some(resolved(base, t))
            } else {
                None
            },
            None => None,
        },
        None => None,
    }
}

/// Where a listing goes on after a page: nowhere where there is no next page,
/// where enough entries are there, or where enough pages were fetched.
pub fn next_page(base_url: &str, link: Option<&str>, entries: usize, pages: usize) -> (r: Option<
    String,
>)
    ensures
        opt_text(r) == page_after(
            base_url@,
            (match link {
                Some(header) => Some(header@),
                None => None,
            }),
            entries,
            pages,
        ),
{
    match link {
        Some(header) => match next_link_value(header) {
            Some(t) => if entries < PAGINATION_LIMIT && pages < MAX_PAGES {
                Some(resolve_next(base_url, t.as_str()))
            } else {
                None
            },
            None => None,
        },
        None => None,
    }
}

// ---------------------------------------------------------------------------
// Bearer challenges
// ---------------------------------------------------------------------------

/// What a registry asks for before it answers.
#[derive(Debug)]
pub struct BearerChallenge {
    pub realm: String,
    pub service: String,
    pub scope: String,
}

/// What a challenge says.
pub struct ChallengeView {
    pub realm: Seq<char>,
    pub service: Seq<char>,
    pub scope: Seq<char>,
}

impl View for BearerChallenge {
    type V = ChallengeView;

    open spec fn view(&self) -> ChallengeView {
        ChallengeView { realm: self.realm@, service: self.service@, scope: self.scope@ }
    }
}

/// The text inside quotes.
pub open spec fn unquoted(s: Seq<char>) -> Seq<char> {
    without_end(without_start(trimmed(s), '"'), '"')
}

/// A challenge after one more parameter; nothing where it is none.
pub open spec fn with_param(c: ChallengeView, part: Seq<char>) -> Option<ChallengeView> {
    let p = trimmed(part);
    match char_from(p, '=', 0) {
        None => None,
        Some(i) => {
            let k = trimmed(p.take(i));
            let v = unquoted(p.skip(i + 1));
            Some(
                if k == "realm"@ {
                    ChallengeView { realm: v, ..c }
                } else if k == "service"@ {
                    ChallengeView { service: v, ..c }
                } else if k == "scope"@ {
                    ChallengeView { scope: v, ..c }
                } else {
                    c
                },
            )
        },
    }
}

/// A challenge from its parameters; nothing where one of them is none.
pub open spec fn with_params(parts: Seq<Seq<char>>) -> Option<ChallengeView>
    decreases parts.len(),
{
    if parts.len() == 0 {
        Some(ChallengeView { realm: Seq::empty(), service: Seq::empty(), scope: Seq::empty() })
    } else {
        match with_params(parts.drop_last()) {
            Some(c) => with_param(c, parts.last()),
            None => None,
        }
    }
}

/// What a `Www-Authenticate` header asks for, where it is a bearer challenge
/// that names a realm.
pub open spec fn challenge_of(header: Seq<char>) -> Option<ChallengeView> {
    let h = trimmed_start(header);
    if has_prefix(h, "Bearer"@) {
        match with_params(pieces(trimmed_start(h.skip("Bearer"@.len() as int)), ',')) {
            Some(c) => if c.realm.len() == 0 {
                None
            } else {
                Some(c)
            },
            None => None,
        }
    } else {
        None
    }
}

proof fn lemma_params_end(parts: Seq<Seq<char>>, i: int)
    requires
        0 <= i <= parts.len(),
        with_params(parts.take(i)) is None,
    ensures
        with_params(parts) is None,
    decreases parts.len() - i,
{
    if i == parts.len() {
        assert(parts.take(i) =~= parts);
    } else {
        assert(parts.take(i + 1).drop_last() =~= parts.take(i));
        lemma_params_end(parts, i + 1);
    }
}

/// Reads a bearer challenge.
pub fn parse_bearer(s: &str) -> (r: Option<BearerChallenge>)
    ensures
        match r {
            Some(c) => challenge_of(s@) == Some(c@),
            None => challenge_of(s@) is None,
        },
{
    let rest = match strip_prefix(trim_start(s), "Bearer") {
        Some(x) => trim_start(x),
        None => {
            return None;
        },
    };
    let parts = split(rest, ',');
    let ghost ps = pieces(rest@, ',');
    let mut c = BearerChallenge {
        realm: String::new(),
        service: String::new(),
        scope: String::new(),
    };
    let mut i: usize = 0;
    assert(with_params(ps.take(0)) == Some(c@));
    while i < parts.len()
        invariant
            i <= parts@.len(),
            texts(parts@) == ps,
            ps == pieces(rest@, ','),
            has_prefix(trimmed_start(s@), "Bearer"@),
            rest@ == trimmed_start(trimmed_start(s@).skip("Bearer"@.len() as int)),
            with_params(ps.take(i as int)) == Some(c@),
        decreases parts@.len() - i,
    {
        proof {
            assert(ps.take(i + 1).drop_last() =~= ps.take(i as int));
            assert(ps[i as int] == parts@[i as int]@);
        }
        let part = trim(parts[i].as_str());
        match split_once(part, '=') {
            None => {
                proof {
                    lemma_params_end(ps, i + 1);
                }
                return None;
            },
            Some((k, v)) => {
                let value = trim_end_char(trim_start_char(trim(v), '"'), '"');
                let key = trim(k);
                if same(key, "realm") {
                    c.realm = value.to_owned();
                } else if same(key, "service") {
                    c.service = value.to_owned();
                } else if same(key, "scope") {
                    c.scope = value.to_owned();
                }
            },
        }
        i += 1;
    }
    assert(ps.take(i as int) =~= ps);
    if c.realm.as_str().is_empty() {
        None
    } else {
        Some(c)
    }
}

/// Where the token for a challenge is to be had: the realm, with the service and
/// the scope as far as they are set.
pub open spec fn token_address(c: ChallengeView) -> Seq<char> {
    let service = if c.service.len() > 0 {
        "service="@ + encoded(vstd::utf8::encode_utf8(c.service))
    } else {
        Seq::empty()
    };
    let scope = if c.scope.len() > 0 {
        "scope="@ + encoded(vstd::utf8::encode_utf8(c.scope))
    } else {
        Seq::empty()
    };
    let between = if c.service.len() > 0 && c.scope.len() > 0 {
        "&"@
    } else {
        Seq::empty()
    };
    c.realm + "?"@ + service + between + scope
}

/// Where the token for a challenge is to be had.
pub fn token_url(c: &BearerChallenge) -> (r: String)
    ensures
        r@ == token_address(c@),
{
    let has_service = !c.service.as_str().is_empty();
    let has_scope = !c.scope.as_str().is_empty();
    let mut url = cat2(c.realm.as_str(), "?");
    if has_service {
        let e = urlencode(c.service.as_str());
        let p = cat2("service=", e.as_str());
        url.append(p.as_str());
    }
    if has_service && has_scope {
        url.append("&");
    }
    if has_scope {
        let e = urlencode(c.scope.as_str());
        let p = cat2("scope=", e.as_str());
        url.append(p.as_str());
    }
    assert(url@ =~= token_address(c@));
    url
}

/// What to do with the answer to a request.
#[derive(Debug)]
pub enum AuthStep {
    /// The answer stands.
    Keep,
    /// Fetch a token from this address with the stored credentials, and repeat
    /// the request with it.
    FetchToken(String),
}

/// Decides what to do with the first answer to a request: one that demands
/// authentication with a bearer challenge is answered with a token, any other
/// stands. `challenge` is the `Www-Authenticate` header.
pub fn after_answer(status: u16, challenge: Option<&str>) -> (r: AuthStep)
    ensures
        match r {
            AuthStep::FetchToken(url) => status == 401 && (challenge matches Some(h)
                && challenge_of(h@) matches Some(c) && url@ == token_address(c)),
            AuthStep::Keep => status != 401 || (challenge matches Some(h) ==> challenge_of(
                h@,
            ) is None),
        },
{
    if status != 401 {
        return AuthStep::Keep;
    }
    match challenge {
        None => AuthStep::Keep,
        Some(h) => match parse_bearer(h) {
            None => AuthStep::Keep,
            Some(c) => AuthStep::FetchToken(token_url(&c)),
        },
    }
}

/// The token of a token response: `token`, or else `access_token`.
pub fn token_of(token: Option<String>, access_token: Option<String>) -> (r: AppResult<String>)
    ensures
        match r {
            Ok(t) => Some(t) == (if token is Some {
                token
            } else {
                access_token
            }),
            Err(e) => token is None && access_token is None && e.is_other(
                "token response missing 'token' and 'access_token'"@,
            ),
        },
{
    match token {
        Some(t) => Ok(t),
        None => match access_token {
            Some(t) => Ok(t),
            None => Err(other("token response missing 'token' and 'access_token'")),
        },
    }
}

// ---------------------------------------------------------------------------
// Manifests
// ---------------------------------------------------------------------------

/// A layer of an image.
#[derive(Clone, Debug)]
pub struct LayerEntry {
    pub digest: String,
    pub size: i64,
    pub media_type: String,
}

/// What a layer entry says.
pub struct LayerView {
    pub digest: Seq<char>,
    pub size: i64,
    pub media_type: Seq<char>,
}

impl View for LayerEntry {
    type V = LayerView;

    open spec fn view(&self) -> LayerView {
        LayerView { digest: self.digest@, size: self.size, media_type: self.media_type@ }
    }
}

/// The manifest of an image.
#[derive(Clone, Debug)]
pub struct ImageManifest {
    /// Schema version, usually 2.
    pub schema_version: i64,
    pub media_type: String,
    pub digest: String,
    pub size: i64,
    /// The whole document.
    pub raw: String,
    pub config_digest: String,
    pub config_size: i64,
    pub layers: Vec<LayerEntry>,
}

pub open spec fn layer_of(j: Json) -> LayerView {
    LayerView {
        digest: string_or(member(j, "digest"@), ""@),
        size: int_or_zero(member(j, "size"@)),
        media_type: string_or(member(j, "mediaType"@), ""@),
    }
}

/// The layers that a manifest lists.
pub open spec fn layers_of(s: Seq<Json>) -> Seq<LayerView> {
    Seq::new(s.len(), |i: int| layer_of(s[i]))
}

/// The sizes of the layers, summed.
pub open spec fn layer_sizes(s: Seq<LayerView>) -> int
    decreases s.len(),
{
    if s.len() == 0 {
        0
    } else {
        layer_sizes(s.drop_last()) + s.last().size
    }
}

fn read_layers(o: Option<&Json>) -> (r: Vec<LayerEntry>)
    ensures
        views(r@) == layers_of(elements(deref_opt(o))),
{
    let mut out: Vec<LayerEntry> = Vec::new();
    assert(views(out@) =~= Seq::empty());
    if let Some(Json::Array(a)) = o {
        let mut i: usize = 0;
        while i < a.len()
            invariant
                i <= a@.len(),
                views(out@) == layers_of(a@).take(i as int),
            decreases a@.len() - i,
        {
            let l = &a[i];
            let e = LayerEntry {
                digest: member_text(l, "digest", ""),
                size: int_value(l.get("size")),
                media_type: member_text(l, "mediaType", ""),
            };
            proof {
                lemma_views_push(out@, e);
                assert(layers_of(a@).take(i + 1) =~= layers_of(a@).take(i as int).push(e@));
            }
            out.push(e);
            i += 1;
        }
        assert(layers_of(a@).take(i as int) =~= layers_of(a@));
    }
    out
}

/// Reads a manifest document. `digest` is the digest that the registry reported
/// for it; without one that of the configuration is shown.
pub fn read_manifest(doc: &Json, text: &str, digest: Option<&str>) -> (r: ImageManifest)
    ensures
        r.schema_version == int_or_zero(member(*doc, "schemaVersion"@)),
        r.media_type@ == string_or(member(*doc, "mediaType"@), ""@),
        r.config_digest@ == string_or(inner(member(*doc, "config"@), "digest"@), ""@),
        r.config_size == int_or_zero(inner(member(*doc, "config"@), "size"@)),
        views(r.layers@) == layers_of(elements(member(*doc, "layers"@))),
        r.size == wrapped(r.config_size + layer_sizes(views(r.layers@))),
        r.digest@ == (match digest {
            Some(d) => d@,
            None => r.config_digest@,
        }),
        r.raw@ == text@,
{
    let config = doc.get("config");
    let config_digest = text_or_default(sub_value(config, "digest"), "");
    let config_size = int_value(sub_value(config, "size"));
    let layers = read_layers(doc.get("layers"));
    let mut size: i64 = config_size;
    let mut i: usize = 0;
    while i < layers.len()
        invariant
            i <= layers@.len(),
            size == wrapped(config_size + layer_sizes(views(layers@).take(i as int))),
        decreases layers@.len() - i,
    {
        proof {
            assert(views(layers@).take(i + 1).drop_last() =~= views(layers@).take(i as int));
            lemma_wrapped_again(
                config_size + layer_sizes(views(layers@).take(i as int)),
                layers@[i as int].size as int,
            );
        }
        size = wrapping_sum(size, layers[i].size);
        i += 1;
    }
    assert(views(layers@).take(i as int) =~= views(layers@));
    let shown = match digest {
        Some(d) => d.to_owned(),
        None => config_digest.clone(),
    };
    ImageManifest {
        schema_version: int_value(doc.get("schemaVersion")),
        media_type: member_text(doc, "mediaType", ""),
        digest: shown,
        size,
        raw: text.to_owned(),
        config_digest,
        config_size,
        layers,
    }
}

/// Reads the text of a manifest.
pub fn manifest(text: &str, digest: Option<&str>) -> (r: AppResult<ImageManifest>)
    ensures
        match (r, json_text(text@)) {
            (Ok(m), Ok(doc)) => {
                &&& m.schema_version == int_or_zero(member(doc, "schemaVersion"@))
                &&& m.media_type@ == string_or(member(doc, "mediaType"@), ""@)
                &&& m.config_digest@ == string_or(inner(member(doc, "config"@), "digest"@), ""@)
                &&& m.config_size == int_or_zero(inner(member(doc, "config"@), "size"@))
                &&& views(m.layers@) == layers_of(elements(member(doc, "layers"@)))
                &&& m.size == wrapped(m.config_size + layer_sizes(views(m.layers@)))
                &&& m.digest@ == (match digest {
                    Some(d) => d@,
                    None => m.config_digest@,
                })
                &&& m.raw@ == text@
            },
            (Err(e), Err(why)) => e.is_other("decode manifest: "@ + why),
            _ => false,
        },
{
    match parse_json(text) {
        Ok(doc) => Ok(read_manifest(&doc, text, digest)),
        Err(why) => {
            let m = cat2("decode manifest: ", why.as_str());
            Err(other(m.as_str()))
        },
    }
}

// ---------------------------------------------------------------------------
// Laws
// ---------------------------------------------------------------------------

/// Pagination ends: once enough pages were fetched or enough entries are there,
/// no page follows, whatever the registry answers.
pub proof fn law_pagination_is_bounded(
    base: Seq<char>,
    link: Option<Seq<char>>,
    entries: usize,
    pages: usize,
)
    requires
        entries >= PAGINATION_LIMIT || pages >= MAX_PAGES,
    ensures
        page_after(base, link, entries, pages) is None,
{
}

/// The address that a registry is stored under is not empty and ends neither in a
/// slash nor in the path of the API, so that paths of the API can be put behind it.
pub proof fn law_stored_address_is_bare(name: Seq<char>, url: Seq<char>)
    ensures
        registry_problem(name, url) is None ==> registry_url(url).len() > 0 && !has_suffix(
            registry_url(url),
            "/"@,
        ) && !has_suffix(registry_url(url), "/v2"@),
{
    reveal_strlit("/");
    reveal_strlit("/v2");
    let u = registry_url(url);
    law_bare_address_is_bare(trimmed(url), "/v2"@);
    if has_suffix(u, "/"@) {
        assert(u.skip(u.len() - 1)[0] == u.last());
    }
}

/// A listed registry says what was stored of it, and its password is the one kept under its
/// name, or empty.
pub proof fn law_listed_registry_is_the_stored_one(f: RegistryFile, r: Vec<ImageRegistry>, i: int)
    requires
        call_ensures(list_registries, (&f,), r),
        0 <= i < f.registries@.len(),
    ensures
        r@.len() == f.registries@.len(),
        r@[i].name@ == f.registries@[i].name@,
        r@[i].url@ == f.registries@[i].url@,
        r@[i].username@ == f.registries@[i].username@,
        r@[i].insecure == f.registries@[i].insecure,
        r@[i].description@ == f.registries@[i].description@,
        opt_text(r@[i].last_error) == opt_text(f.registries@[i].last_error),
        opt_text(r@[i].last_refreshed) == opt_text(f.registries@[i].last_refreshed),
        f.passwords@.contains_key(f.registries@[i].name@) ==> r@[i].password@
            == f.passwords@[f.registries@[i].name@],
        !f.passwords@.contains_key(f.registries@[i].name@) ==> r@[i].password@.len() == 0,
{
    assert(is_registry_of(r@[i], f.registries@[i], f.passwords@));
}

/// A registry is stored under its name and address without blanks around them; an address that
/// ends in neither a slash nor `/v2` stays as it is. Nothing is stored without a name or an
/// address.
pub proof fn law_registry_is_stored_as_typed(
    name: &str,
    url: &str,
    r: AppResult<(String, String)>,
)
    requires
        call_ensures(normalise_registry, (name, url), r),
    ensures
        trimmed(name@).len() == 0 ==> r is Err,
        trimmed(url@).len() == 0 ==> r is Err,
        r is Ok ==> r->Ok_0.0@ == trimmed(name@),
        trimmed(name@).len() > 0 && trimmed(url@).len() > 0 && trimmed(url@).last() != '/'
            && !has_suffix(trimmed(url@), "/v2"@) ==> r is Ok && r->Ok_0.1@ == trimmed(url@),
{
    reveal_strlit("/v2");
    assert("/v2"@.len() == 3);
}

proof fn lemma_first_next(parts: Seq<Seq<char>>, from: int, i: int)
    requires
        0 <= from <= i < parts.len(),
        next_target(parts[i]) is Some,
        forall|k: int| from <= k < i ==> next_target(#[trigger] parts[k]) is None,
    ensures
        first_next(parts, from) == next_target(parts[i]),
    decreases i - from,
{
    if from < i {
        assert(next_target(parts[from]) is None);
        lemma_first_next(parts, from + 1, i);
    }
}

proof fn lemma_target(target: Seq<char>, params: Seq<char>)
    requires
        !target.contains('>'),
        has_part(params, "rel=\"next\""@) || has_part(params, "rel=next"@),
        params.len() > 0,
        !is_space(params.last()),
    ensures
        next_target(seq!['<'] + target + seq!['>'] + params) == Some(target),
{
    let p = seq!['<'] + target + seq!['>'] + params;
    let rest = p.skip(1);
    let n = target.len() as int;
    assert(trimmed_start(p) == p);
    assert(p.last() == params.last());
    assert(trimmed(p) == p);
    lemma_char_from(p, '>', 0);
    lemma_char_from(rest, '>', 0);
    assert(p[n + 1] == '>');
    assert(rest[n] == '>');
    let i = char_from(p, '>', 0)->0;
    let j = char_from(rest, '>', 0)->0;
    if i < n + 1 {
        if i > 0 {
            assert(p[i] == target[i - 1]);
            assert(target.contains(target[i - 1]));
        }
    }
    if j < n {
        assert(rest[j] == target[j]);
        assert(target.contains(target[j]));
    }
    assert(p.skip(i + 1) =~= params);
    assert(rest.take(j) =~= target);
}

/// A `Link` header of one part leads on to the target between its angle brackets exactly where
/// the relation behind them is `next`.
pub proof fn law_link_leads_to_the_next_page(
    header: &str,
    target: Seq<char>,
    params: Seq<char>,
    r: Option<String>,
)
    requires
        call_ensures(next_link_value, (header,), r),
        header@ == seq!['<'] + target + seq!['>'] + params,
        !header@.contains(','),
        !target.contains('>'),
        params.len() > 0,
        !is_space(params.last()),
    ensures
        has_part(params, "rel=\"next\""@) || has_part(params, "rel=next"@) ==> opt_text(r) == Some(
            target,
        ),
        !has_part(params, "rel=\"next\""@) && !has_part(params, "rel=next"@) ==> r is None,
{
    lemma_one_piece(header@, ',');
    let parts = pieces(header@, ',');
    if has_part(params, "rel=\"next\""@) || has_part(params, "rel=next"@) {
        lemma_target(target, params);
        assert(parts[0] == header@);
        lemma_first_next(parts, 0, 0);
    } else {
        let p = header@;
        let n = target.len() as int;
        assert(p.last() == params.last());
        assert(trimmed(p) == p);
        lemma_char_from(p, '>', 0);
        assert(p[n + 1] == '>');
        let i = char_from(p, '>', 0)->0;
        if i < n + 1 && i > 0 {
            assert(p[i] == target[i - 1]);
            assert(target.contains(target[i - 1]));
        }
        assert(p.skip(i + 1) =~= params);
        assert(next_target(parts[0]) is None);
        reveal_with_fuel(first_next, 2);
    }
}

/// An absolute target of a `Link` is taken as it is; any other is a path of the registry.
pub proof fn law_next_page_is_on_the_registry(base: &str, next: &str, r: String)
    requires
        call_ensures(resolve_next, (base, next), r),
    ensures
        has_prefix(next@, "http://"@) || has_prefix(next@, "https://"@) ==> r@ == next@,
        !has_prefix(next@, "http://"@) && !has_prefix(next@, "https://"@) && base@.len() > 0
            && base@.last() != '/' && next@.len() > 1 && next@[0] == '/' && next@[1] != '/' ==> r@
            == base@ + next@,
        !has_prefix(next@, "http://"@) && !has_prefix(next@, "https://"@) && base@.len() > 0
            && base@.last() != '/' && next@.len() > 0 && next@[0] != '/' ==> r@ == base@ + "/"@
            + next@,
{
    reveal_strlit("/");
    assert("/"@ =~= seq!['/']);
    reveal_with_fuel(without_start, 3);
    if next@.len() > 1 && next@[0] == '/' && next@[1] != '/' {
        assert(next@.drop_first()[0] == next@[1]);
        assert(base@ + "/"@ + next@.drop_first() =~= base@ + next@);
    }
}

/// A listing goes on at the next page up to a thousand entries and a hundred pages.
pub proof fn law_listing_goes_on_within_bounds(
    base: &str,
    header: &str,
    entries: usize,
    pages: usize,
    r: Option<String>,
    link: Option<String>,
    next: &str,
    at: String,
    ended: Option<String>,
)
    requires
        call_ensures(next_page, (base, Some(header), entries, pages), r),
        call_ensures(next_page, (base, None::<&str>, entries, pages), ended),
        call_ensures(next_link_value, (header,), link),
        link is Some ==> next@ == link->0@ && call_ensures(resolve_next, (base, next), at),
    ensures
        r is Some <==> link is Some && entries < 1000 && pages < 100,
        r is Some ==> r->0@ == at@,
        ended is None,
{
}

proof fn lemma_one_param(name: Seq<char>, value: Seq<char>) -> (p: Seq<char>)
    requires
        !name.contains('='),
        name.len() > 0,
        !is_space(name[0]),
        !is_space(name.last()),
        value.len() > 0,
        !is_space(value[0]),
        !is_space(value.last()),
        value[0] != '"',
        value.last() != '"',
    ensures
        p == name + seq!['='] + seq!['"'] + value + seq!['"'],
        trimmed(p) == p,
        char_from(p, '=', 0) == Some(name.len() as int),
        trimmed(p.take(name.len() as int)) == name,
        unquoted(p.skip(name.len() as int + 1)) == value,
{
    let p = name + seq!['='] + seq!['"'] + value + seq!['"'];
    let n = name.len() as int;
    assert(p[0] == name[0]);
    assert(p.last() == '"');
    lemma_char_from(p, '=', 0);
    assert(p[n] == '=');
    let i = char_from(p, '=', 0)->0;
    if i < n {
        assert(p[i] == name[i]);
        assert(name.contains(name[i]));
    }
    assert(p.take(n) =~= name);
    let q = p.skip(n + 1);
    assert(q =~= seq!['"'] + value + seq!['"']);
    assert(q[0] == '"' && q.last() == '"');
    assert(trimmed(q) == q);
    reveal_with_fuel(without_start, 2);
    reveal_with_fuel(without_end, 2);
    let a = q.drop_first();
    assert(a =~= value + seq!['"']);
    assert(a[0] == value[0]);
    assert(a.last() == '"');
    assert(a.drop_last() =~= value);
    p
}

/// A bearer challenge asks for what its parameters say: the realm, the service and the scope
/// between their quotes. (The parameters stand in that order, with commas alone between them.)
pub proof fn law_challenge_says_what_it_asks_for(
    header: &str,
    realm: Seq<char>,
    service: Seq<char>,
    scope: Seq<char>,
    r: Option<BearerChallenge>,
)
    requires
        call_ensures(parse_bearer, (header,), r),
        header@ == "Bearer "@ + ("realm"@ + seq!['='] + seq!['"'] + realm + seq!['"']) + seq![',']
            + ("service"@ + seq!['='] + seq!['"'] + service + seq!['"']) + seq![','] + ("scope"@
            + seq!['='] + seq!['"'] + scope + seq!['"']),
        is_param_value(realm),
        is_param_value(service),
        is_param_value(scope),
    ensures
        r matches Some(c) && c.realm@ == realm && c.service@ == service && c.scope@ == scope,
{
    reveal_strlit("Bearer ");
    reveal_strlit("Bearer");
    reveal_strlit("realm");
    reveal_strlit("service");
    reveal_strlit("scope");
    assert("Bearer "@.len() == 7 && "Bearer"@.len() == 6 && "realm"@.len() == 5 && "service"@.len()
        == 7 && "scope"@.len() == 5);
    assert("realm"@[0] == 'r' && "scope"@[0] == 's');
    let a = lemma_one_param("realm"@, realm);
    let b = lemma_one_param("service"@, service);
    let c = lemma_one_param("scope"@, scope);
    let h = header@;
    assert(h[0] == 'B');
    assert(trimmed_start(h) == h);
    assert(h.take(6) =~= "Bearer"@);
    let t = h.skip(6);
    let u = a + seq![','] + b + seq![','] + c;
    assert(t =~= seq![' '] + u);
    assert(t.drop_first() =~= u);
    assert(u[0] == 'r');
    assert(trimmed_start(t) == u) by {
        reveal_with_fuel(trimmed_start, 2);
    }
    assert(!a.contains(',')) by {
        assert forall|k: int| 0 <= k < a.len() implies a[k] != ',' by {
            if 7 <= k < 7 + realm.len() {
                assert(realm.contains(realm[k - 7]));
            }
        }
    }
    assert(!b.contains(',')) by {
        assert forall|k: int| 0 <= k < b.len() implies b[k] != ',' by {
            if 9 <= k < 9 + service.len() {
                assert(service.contains(service[k - 9]));
            }
        }
    }
    assert(!c.contains(',')) by {
        assert forall|k: int| 0 <= k < c.len() implies c[k] != ',' by {
            if 7 <= k < 7 + scope.len() {
                assert(scope.contains(scope[k - 7]));
            }
        }
    }
    lemma_one_piece(a, ',');
    lemma_last_piece(a, b, ',');
    lemma_last_piece(a + seq![','] + b, c, ',');
    let ps = pieces(u, ',');
    assert(ps =~= seq![a, b, c]);
    let none = ChallengeView { realm: Seq::empty(), service: Seq::empty(), scope: Seq::empty() };
    assert(ps.drop_last() =~= seq![a, b]);
    assert(seq![a, b].drop_last() =~= seq![a]);
    assert(seq![a].drop_last() =~= Seq::empty());
    let c1 = ChallengeView { realm, ..none };
    let c2 = ChallengeView { service, ..c1 };
    let c3 = ChallengeView { scope, ..c2 };
    assert(with_param(none, a) == Some(c1));
    assert(with_param(c1, b) == Some(c2));
    assert(with_param(c2, c) == Some(c3));
    assert(with_params(Seq::empty()) == Some(none));
    assert(with_params(seq![a]) == Some(c1));
    assert(with_params(seq![a, b]) == Some(c2));
    assert(with_params(ps) == Some(c3));
}

/// A value that stands between quotes without ending them, and without a comma.
pub open spec fn is_param_value(s: Seq<char>) -> bool {
    s.len() > 0 && !is_space(s[0]) && !is_space(s.last()) && s[0] != '"' && s.last() != '"'
        && !s.contains(',')
}

/// A token is fetched from the realm for the service and the scope of the challenge, as far as
/// it names them.
pub proof fn law_token_is_for_the_service_and_scope(c: BearerChallenge, r: String)
    requires
        call_ensures(token_url, (&c,), r),
    ensures
        c.service@.len() > 0 && c.scope@.len() > 0 ==> r@ == c.realm@ + "?"@ + ("service="@
            + encoded(vstd::utf8::encode_utf8(c.service@))) + "&"@ + ("scope="@ + encoded(
            vstd::utf8::encode_utf8(c.scope@),
        )),
        c.service@.len() > 0 && c.scope@.len() == 0 ==> r@ == c.realm@ + "?"@ + ("service="@
            + encoded(vstd::utf8::encode_utf8(c.service@))),
        c.service@.len() == 0 && c.scope@.len() > 0 ==> r@ == c.realm@ + "?"@ + ("scope="@ + encoded(
            vstd::utf8::encode_utf8(c.scope@),
        )),
{
    let e = Seq::<char>::empty();
    let front = c.realm@ + "?"@;
    let service = "service="@ + encoded(vstd::utf8::encode_utf8(c.service@));
    assert(front + service + e + e =~= front + service);
    assert(front + e + e =~= front);
}

/// Only an answer that demands authentication by a bearer challenge leads to a token, and to
/// one for that challenge.
pub proof fn law_when_a_token_is_fetched(
    status: u16,
    header: &str,
    r: AuthStep,
    challenge: Option<BearerChallenge>,
    url: String,
    without: AuthStep,
)
    requires
        call_ensures(after_answer, (status, Some(header)), r),
        call_ensures(after_answer, (status, None::<&str>), without),
        call_ensures(parse_bearer, (header,), challenge),
        challenge is Some ==> call_ensures(token_url, (&challenge->0,), url),
    ensures
        status == 401 && challenge is Some ==> (r matches AuthStep::FetchToken(u) && u@ == url@),
        status != 401 || challenge is None ==> r is Keep,
        without is Keep,
{
}

proof fn lemma_layer_sizes(s: Seq<LayerView>)
    ensures
        layer_sizes(s) == s.fold_left(0int, |n: int, l: LayerView| n + l.size),
    decreases s.len(),
{
    reveal_with_fuel(Seq::fold_left, 2);
    if s.len() > 0 {
        lemma_layer_sizes(s.drop_last());
    }
}

/// The size of an image is that of its configuration and all its layers.
pub proof fn law_size_is_that_of_all_layers(
    doc: Json,
    text: &str,
    digest: Option<&str>,
    r: ImageManifest,
)
    requires
        call_ensures(read_manifest, (&doc, text, digest), r),
        i64::MIN <= r.config_size + views(r.layers@).fold_left(
            0int,
            |n: int, l: LayerView| n + l.size,
        ) <= i64::MAX,
    ensures
        r.size == r.config_size + views(r.layers@).fold_left(
            0int,
            |n: int, l: LayerView| n + l.size,
        ),
{
    lemma_layer_sizes(views(r.layers@));
}

/// Each layer of the document is listed, in its order, with what the document says of it; the
/// digest is the one reported, or that of the configuration.
pub proof fn law_every_layer_is_listed(
    doc: Json,
    layers: Vec<Json>,
    text: &str,
    digest: Option<&str>,
    r: ImageManifest,
    i: int,
)
    requires
        call_ensures(read_manifest, (&doc, text, digest), r),
        member(doc, "layers"@) == Some(Json::Array(layers)),
        0 <= i < layers@.len(),
    ensures
        r.layers@.len() == layers@.len(),
        member(layers@[i], "digest"@) matches Some(Json::Str(s)) ==> r.layers@[i].digest@ == s@,
        member(layers@[i], "mediaType"@) matches Some(Json::Str(s)) ==> r.layers@[i].media_type@
            == s@,
        member(layers@[i], "size"@) matches Some(Json::Number(n)) ==> (n.int matches Some(k)
            ==> r.layers@[i].size == k),
        digest matches Some(d) ==> r.digest@ == d@,
        digest is None ==> r.digest@ == r.config_digest@,
        r.raw@ == text@,
{
    let v = views(r.layers@);
    assert(v.len() == r.layers@.len());
    assert(v[i] == r.layers@[i]@);
    assert(v[i] == layer_of(layers@[i]));
}

/// What was stored is listed: the settings as they were given, with the secret given for them.
pub proof fn law_stored_registry_is_listed(
    before: Seq<RegistryMeta>,
    passwords_before: Map<Seq<char>, Seq<char>>,
    m: RegistryMeta,
    f: RegistryFile,
    name: Seq<char>,
    url: Seq<char>,
    username: Seq<char>,
    insecure: bool,
    description: Seq<char>,
    password: Seq<char>,
    r: Vec<ImageRegistry>,
)
    requires
        is_fresh_meta(m, name, url, username, insecure, description),
        f.registries@ == with_entry(before, m),
        f.passwords@ == with_secret(passwords_before, name, password),
        call_ensures(list_registries, (&f,), r),
    ensures
        exists|i: int|
            #![trigger r@[i]]
            0 <= i < r@.len() && ({
                &&& r@[i].name@ == name
                &&& r@[i].url@ == url
                &&& r@[i].username@ == username
                &&& r@[i].insecure == insecure
                &&& r@[i].description@ == description
                &&& r@[i].password@ == password
                &&& r@[i].last_error is None
                &&& r@[i].last_refreshed is None
            }),
{
    let s = f.registries@;
    lemma_put_then_find(before, m, name);
    lemma_named_from(s, name, 0);
    assert(m.key() == name);
    let i = named_at(s, name)->0;
    assert(s[i] == m);
    assert(is_registry_of(r@[i], s[i], f.passwords@));
}

/// The catalog, the tags and the manifest are asked for where the API has them.
pub proof fn law_where_a_registry_is_asked(
    base: &str,
    repo: &str,
    tag: &str,
    catalog: String,
    tags: String,
    of_tag: String,
)
    requires
        call_ensures(catalog_url, (base,), catalog),
        call_ensures(tags_url, (base, repo), tags),
        call_ensures(manifest_url, (base, repo, tag), of_tag),
    ensures
        catalog@ == base@ + "/v2/_catalog?n=100"@,
        tags@ == base@ + "/v2/"@ + repo@ + "/tags/list?n=100"@,
        of_tag@ == base@ + "/v2/"@ + repo@ + "/manifests/"@ + tag@,
{
}

/// A probe takes a demand for authentication for an answer, a listing does not; and every
/// status from 200 to 299 is a success.
pub proof fn law_which_answers_count(
    base: &str,
    registry: &str,
    what: &str,
    status: u16,
    shown: &str,
    probe: AppResult<()>,
    catalog: AppResult<()>,
    page: AppResult<()>,
)
    requires
        call_ensures(probe_result, (base, status, shown), probe),
        call_ensures(catalog_status, (registry, status, shown), catalog),
        call_ensures(page_status, (what, status, shown), page),
    ensures
        probe is Ok <==> 200 <= status < 300 || status == 401,
        catalog is Ok <==> 200 <= status < 300,
        page is Ok <==> 200 <= status < 300,
{
}

/// The token of an answer is its `token`, and its `access_token` only where it has none.
pub proof fn law_token_comes_before_access_token(
    token: Option<String>,
    access_token: Option<String>,
    r: AppResult<String>,
)
    requires
        call_ensures(token_of, (token, access_token), r),
    ensures
        token matches Some(t) ==> (r matches Ok(x) && x == t),
        token is None ==> (access_token matches Some(t) ==> (r matches Ok(x) && x == t)),
        token is None && access_token is None ==> r is Err,
{
}

} // verus!
