//! What the stores of configured instances share: how an entry is named and
//! addressed, how its secret is kept, how a request authenticates and how its
//! answer is read.
use crate::error::{other, AppError, AppResult};
use crate::lists::{
    lemma_drop_names_differ, lemma_drop_then_find, lemma_put_names_differ, lemma_put_then_find,
    named_at, names_differ, text_or_empty, with_entry, without_entry, Named, TextMap,
};
use crate::text::{
    cat3, cat5, has_suffix, strip_suffix, trim, trim_end_char, trimmed, without_end,
};
use vstd::prelude::*;

verus! {

// ---------------------------------------------------------------------------
// Names, addresses and secrets
// ---------------------------------------------------------------------------

/// The base address that a typed address stands for: trimmed, without trailing
/// slashes.
pub open spec fn instance_url(url: Seq<char>) -> Seq<char> {
    without_end(trimmed(url), '/')
}

/// Why an instance cannot be stored under this name and address, if there is a
/// reason.
pub open spec fn instance_problem(name: Seq<char>, url: Seq<char>) -> Option<Seq<char>> {
    if trimmed(name).len() == 0 {
        Some("name cannot be empty"@)
    } else if instance_url(url).len() == 0 {
        Some("url cannot be empty"@)
    } else {
        None
    }
}

/// The name and address under which an instance is stored, if it can be.
pub fn normalise_instance(name: &str, url: &str) -> (r: AppResult<(String, String)>)
    ensures
        match r {
            Ok((n, u)) => instance_problem(name@, url@) is None && n@ == trimmed(name@) && u@
                == instance_url(url@),
            Err(e) => instance_problem(name@, url@) is Some && e.is_other(
                instance_problem(name@, url@)->0,
            ),
        },
{
    let n = trim(name);
    let u = trim_end_char(trim(url), '/');
    if n.is_empty() {
        return Err(other("name cannot be empty"));
    }
    if u.is_empty() {
        return Err(other("url cannot be empty"));
    }
    Ok((n.to_owned(), u.to_owned()))
}

/// `s` without the slashes and the paths `api` at its end, in whatever order they
/// stand there.
pub open spec fn bare_address(s: Seq<char>, api: Seq<char>) -> Seq<char>
    decreases s.len(),
{
    if s.len() > 0 && s.last() == '/' {
        bare_address(s.drop_last(), api)
    } else if api.len() > 0 && has_suffix(s, api) {
        bare_address(s.take(s.len() - api.len()), api)
    } else {
        s
    }
}

proof fn lemma_bare_without_slashes(s: Seq<char>, api: Seq<char>)
    ensures
        bare_address(without_end(s, '/'), api) == bare_address(s, api),
    decreases s.len(),
{
    if s.len() > 0 && s.last() == '/' {
        lemma_bare_without_slashes(s.drop_last(), api);
    }
}

/// `s` without the slashes and the paths `api` at its end.
pub fn strip_api<'a>(s: &'a str, api: &str) -> (r: &'a str)
    ensures
        r@ == bare_address(s@, api@),
{
    let mut t = s;
    loop
        invariant
            bare_address(t@, api@) == bare_address(s@, api@),
        decreases t@.len(),
    {
        let u = trim_end_char(t, '/');
        proof {
            lemma_bare_without_slashes(t@, api@);
            lemma_without_end(t@, '/');
        }
        if api.is_empty() {
            return u;
        }
        match strip_suffix(u, api) {
            Some(v) => {
                t = v;
            },
            None => {
                return u;
            },
        }
    }
}

/// There is no `what` of that name.
pub fn not_found(what: &str, name: &str) -> (r: AppError)
    ensures
        r.is_not_found(what@ + " '"@ + name@ + "' not found"@),
{
    AppError::NotFound(crate::text::cat4(what, " '", name, "' not found"))
}

/// The secrets after `name` was stored with `secret`; an empty one is forgotten.
pub open spec fn with_secret(
    secrets: Map<Seq<char>, Seq<char>>,
    name: Seq<char>,
    secret: Seq<char>,
) -> Map<Seq<char>, Seq<char>> {
    if secret.len() == 0 {
        secrets.remove(name)
    } else {
        secrets.insert(name, secret)
    }
}

/// Keeps `secret` under `name`, or forgets it where it is empty.
pub fn put_secret(secrets: &mut TextMap, name: &str, secret: &str)
    ensures
        final(secrets)@ == with_secret(old(secrets)@, name@, secret@),
{
    if secret.is_empty() {
        secrets.remove(name);
    } else {
        secrets.insert(name, secret);
    }
}

// ---------------------------------------------------------------------------
// Requests and answers
// ---------------------------------------------------------------------------

/// How a request says who asks.
#[derive(Clone, Debug)]
pub enum Auth {
    /// Not at all.
    Anonymous,
    /// With a bearer token.
    Bearer(String),
    /// With a user name and a password.
    Basic(String, String),
}

/// What an [`Auth`] says.
pub enum AuthView {
    Anonymous,
    Bearer(Seq<char>),
    Basic(Seq<char>, Seq<char>),
}

impl View for Auth {
    type V = AuthView;

    open spec fn view(&self) -> AuthView {
        match self {
            Auth::Anonymous => AuthView::Anonymous,
            Auth::Bearer(t) => AuthView::Bearer(t@),
            Auth::Basic(u, p) => AuthView::Basic(u@, p@),
        }
    }
}

/// How a request authenticates: with the token where there is one, or else as
/// the user where one is named.
pub open spec fn auth_of(token: Seq<char>, user: Seq<char>, password: Seq<char>) -> AuthView {
    if token.len() > 0 {
        AuthView::Bearer(token)
    } else if user.len() > 0 {
        AuthView::Basic(user, password)
    } else {
        AuthView::Anonymous
    }
}

/// Picks how a request authenticates.
pub fn pick_auth(token: &str, user: &str, password: &str) -> (r: Auth)
    ensures
        r@ == auth_of(token@, user@, password@),
{
    if !token.is_empty() {
        Auth::Bearer(token.to_owned())
    } else if !user.is_empty() {
        Auth::Basic(user.to_owned(), password.to_owned())
    } else {
        Auth::Anonymous
    }
}

/// A response status that counts as success.
pub open spec fn is_success(status: u16) -> bool {
    200 <= status < 300
}

/// Whether a response status counts as success.
pub fn success(status: u16) -> (r: bool)
    ensures
        r == is_success(status),
{
    200 <= status && status < 300
}

/// Reads the status of an answer from `url`; `shown` is the status as text.
pub fn answered(url: &str, status: u16, shown: &str) -> (r: AppResult<()>)
    ensures
        match r {
            Ok(_) => is_success(status),
            Err(e) => !is_success(status) && e.is_other(url@ + ": HTTP "@ + shown@),
        },
{
    if success(status) {
        Ok(())
    } else {
        let m = cat3(url, ": HTTP ", shown);
        Err(other(m.as_str()))
    }
}

/// Reads the status of an answer from `url` whose text explains a failure.
pub fn answered_with(url: &str, status: u16, shown: &str, text: &str) -> (r: AppResult<()>)
    ensures
        match r {
            Ok(_) => is_success(status),
            Err(e) => !is_success(status) && e.is_other(
                url@ + ": HTTP "@ + shown@ + ": "@ + text@,
            ),
        },
{
    if success(status) {
        Ok(())
    } else {
        let m = cat5(url, ": HTTP ", shown, ": ", text);
        Err(other(m.as_str()))
    }
}

/// Reads the answer of a probe: a success and a demand for authentication both
/// mean that the instance is there.
pub fn reachable(url: &str, status: u16, shown: &str) -> (r: AppResult<()>)
    ensures
        match r {
            Ok(_) => is_success(status) || status == 401,
            Err(e) => !is_success(status) && status != 401 && e.is_other(
                url@ + ": HTTP "@ + shown@,
            ),
        },
{
    if status == 401 {
        Ok(())
    } else {
        answered(url, status, shown)
    }
}

// ---------------------------------------------------------------------------
// Laws
// ---------------------------------------------------------------------------

/// What was stored is what is found: after an entry was stored its name finds
/// it, with the secret it was stored with, and every other name finds what it
/// found before, with the secret it had.
pub proof fn law_stored_entry_is_found<T: Named>(
    before: Seq<T>,
    secrets: Map<Seq<char>, Seq<char>>,
    e: T,
    secret: Seq<char>,
    name: Seq<char>,
)
    ensures
        ({
            let after = with_entry(before, e);
            let kept = with_secret(secrets, e.key(), secret);
            if name == e.key() {
                &&& named_at(after, name) matches Some(i) && after[i] == e
                &&& text_or_empty(kept, name) == secret
            } else {
                &&& text_or_empty(kept, name) == text_or_empty(secrets, name)
                &&& match (named_at(before, name), named_at(after, name)) {
                    (Some(i), Some(j)) => after[j] == before[i],
                    (None, None) => true,
                    _ => false,
                }
            }
        }),
{
    lemma_put_then_find(before, e, name);
    if secret.len() == 0 {
        assert(secret =~= Seq::<char>::empty());
    }
}

/// Names stay unique: neither storing nor removing makes two entries share one.
pub proof fn law_names_stay_unique<T: Named>(before: Seq<T>, e: T, name: Seq<char>)
    requires
        names_differ(before),
    ensures
        names_differ(with_entry(before, e)),
        names_differ(without_entry(before, name)),
{
    lemma_put_names_differ(before, e);
    lemma_drop_names_differ(before, name);
}

/// A removed entry is not found, and its secret is forgotten.
pub proof fn law_removed_entry_is_gone<T: Named>(
    before: Seq<T>,
    secrets: Map<Seq<char>, Seq<char>>,
    name: Seq<char>,
)
    ensures
        named_at(without_entry(before, name), name) is None,
        text_or_empty(secrets.remove(name), name).len() == 0,
{
    lemma_drop_then_find(before, name);
}

/// The address that an instance is stored under does not end in a slash, so that
/// paths can be put behind it.
pub proof fn law_stored_address_has_no_slash(url: Seq<char>)
    ensures
        instance_url(url).len() > 0 ==> instance_url(url).last() != '/',
{
    lemma_without_end(trimmed(url), '/');
}

/// An address without slashes and paths of an API at its end has neither there.
pub proof fn law_bare_address_is_bare(s: Seq<char>, api: Seq<char>)
    ensures
        bare_address(s, api).len() > 0 ==> bare_address(s, api).last() != '/',
        api.len() > 0 ==> !has_suffix(bare_address(s, api), api),
    decreases s.len(),
{
    if s.len() > 0 && s.last() == '/' {
        law_bare_address_is_bare(s.drop_last(), api);
    } else if api.len() > 0 && has_suffix(s, api) {
        law_bare_address_is_bare(s.take(s.len() - api.len()), api);
    }
}

proof fn lemma_without_end(s: Seq<char>, c: char)
    ensures
        without_end(s, c).len() > 0 ==> without_end(s, c).last() != c,
        without_end(s, c).len() <= s.len(),
    decreases s.len(),
{
    if s.len() > 0 && s.last() == c {
        lemma_without_end(s.drop_last(), c);
    }
}

/// A request authenticates with a token where there is one, else as the user where one is
/// named, else not at all.
pub proof fn law_token_comes_before_user(token: &str, user: &str, password: &str, r: Auth)
    requires
        call_ensures(pick_auth, (token, user, password), r),
    ensures
        token@.len() > 0 ==> (r matches Auth::Bearer(t) && t@ == token@),
        token@.len() == 0 && user@.len() > 0 ==> (r matches Auth::Basic(u, p) && u@ == user@ && p@
            == password@),
        token@.len() == 0 && user@.len() == 0 ==> r is Anonymous,
{
}

/// An answer is good where its status is one of the two hundreds; for a probe a demand for
/// authentication is good too.
pub proof fn law_good_answers(
    url: &str,
    status: u16,
    shown: &str,
    text: &str,
    plain: AppResult<()>,
    explained: AppResult<()>,
    probed: AppResult<()>,
)
    requires
        call_ensures(answered, (url, status, shown), plain),
        call_ensures(answered_with, (url, status, shown, text), explained),
        call_ensures(reachable, (url, status, shown), probed),
    ensures
        plain is Ok <==> 200 <= status <= 299,
        explained is Ok <==> 200 <= status <= 299,
        probed is Ok <==> 200 <= status <= 299 || status == 401,
        plain matches Err(e) ==> e.is_other(url@ + ": HTTP "@ + shown@),
        explained matches Err(e) ==> e.is_other(url@ + ": HTTP "@ + shown@ + ": "@ + text@),
{
}

/// An instance is stored under its name and address, trimmed, and the address without the
/// slashes at its end; a blank name or address is refused.
pub proof fn law_instance_is_stored_as_typed(name: &str, url: &str, r: AppResult<(String, String)>)
    requires
        call_ensures(normalise_instance, (name, url), r),
    ensures
        trimmed(name@).len() == 0 ==> (r matches Err(e) && e.is_other("name cannot be empty"@)),
        trimmed(name@).len() > 0 && without_end(trimmed(url@), '/').len() == 0 ==> (
        r matches Err(e) && e.is_other("url cannot be empty"@)),
        trimmed(name@).len() > 0 && without_end(trimmed(url@), '/').len() > 0 ==> (
        r matches Ok(x) && x.0@ == trimmed(name@) && x.1@ == without_end(trimmed(url@), '/')),
{
}

/// A secret is kept under its name, and an empty one is forgotten; the others stay.
pub proof fn law_secret_is_kept_or_forgotten(
    secrets: Map<Seq<char>, Seq<char>>,
    name: Seq<char>,
    secret: Seq<char>,
    other: Seq<char>,
)
    ensures
        secret.len() > 0 ==> with_secret(secrets, name, secret).contains_key(name) && with_secret(
            secrets,
            name,
            secret,
        )[name] == secret,
        secret.len() == 0 ==> !with_secret(secrets, name, secret).contains_key(name),
        other != name ==> (with_secret(secrets, name, secret).contains_key(other)
            <==> secrets.contains_key(other)) && (secrets.contains_key(other) ==> with_secret(
            secrets,
            name,
            secret,
        )[other] == secrets[other]),
{
}

/// An address that ends neither in a slash nor in the path of the API stays as it is.
pub proof fn law_bare_address_stays(s: &str, api: &str, r: &str)
    requires
        call_ensures(strip_api, (s, api), r),
        s@.len() > 0 ==> s@.last() != '/',
        api@.len() > 0 ==> !has_suffix(s@, api@),
    ensures
        r@ == s@,
{
}

/// What is stripped off an address is slashes and paths of the API: with one more of either
/// at its end it is the same.
pub proof fn law_slashes_and_api_paths_go(
    s: &str,
    slashed: &str,
    with_api: &str,
    api: &str,
    r: &str,
    of_slashed: &str,
    of_with_api: &str,
)
    requires
        call_ensures(strip_api, (s, api), r),
        call_ensures(strip_api, (slashed, api), of_slashed),
        call_ensures(strip_api, (with_api, api), of_with_api),
        slashed@ == s@ + seq!['/'],
        with_api@ == s@ + api@,
        api@.len() > 0,
        api@.last() != '/',
    ensures
        of_slashed@ == r@,
        of_with_api@ == r@,
{
    assert(slashed@.drop_last() =~= s@);
    assert(with_api@.skip(with_api@.len() - api@.len()) =~= api@);
    assert(has_suffix(with_api@, api@));
    assert(with_api@.take(with_api@.len() - api@.len()) =~= s@);
}

} // verus!
