//! Saved PromQL queries, and the short-lived cache of their results.
use crate::error::{other, AppResult};
use crate::lists::{
    drop_entry, lemma_named_from, lemma_put_then_find, named_at, position, put_entry, with_entry,
    without_entry, Named,
};
use crate::text::{cat3, trim, trimmed};
use vstd::prelude::*;

verus! {

/// The file of the saved queries.
pub const STORE_FILE: &'static str = "saved-queries.json";

/// A saved query.
#[derive(Clone, Debug)]
pub struct SavedQuery {
    pub name: String,
    pub promql: String,
    pub note: String,
    /// How long a result counts as fresh, in seconds. Zero disables caching for
    /// this query.
    pub cache_seconds: u64,
}

/// What a saved query says.
pub struct SavedQueryView {
    pub name: Seq<char>,
    pub promql: Seq<char>,
    pub note: Seq<char>,
    pub cache_seconds: u64,
}

impl View for SavedQuery {
    type V = SavedQueryView;

    open spec fn view(&self) -> SavedQueryView {
        SavedQueryView {
            name: self.name@,
            promql: self.promql@,
            note: self.note@,
            cache_seconds: self.cache_seconds,
        }
    }
}

impl Named for SavedQuery {
    open spec fn key(&self) -> Seq<char> {
        self.name@
    }

    fn key_str(&self) -> (r: &str) {
        self.name.as_str()
    }
}

/// Why a query cannot be saved, if there is a reason.
pub open spec fn query_problem(q: SavedQueryView) -> Option<Seq<char>> {
    if trimmed(q.name).len() == 0 {
        Some("name cannot be empty"@)
    } else if trimmed(q.promql).len() == 0 {
        Some("promql cannot be empty"@)
    } else {
        None
    }
}

fn copy_query(q: &SavedQuery) -> (r: SavedQuery)
    ensures
        r@ == q@,
{
    SavedQuery {
        name: q.name.clone(),
        promql: q.promql.clone(),
        note: q.note.clone(),
        cache_seconds: q.cache_seconds,
    }
}

/// Saves a query: in the place of the one of that name, or at the end. The file
/// is to be saved when this succeeds.
pub fn upsert(queries: &mut Vec<SavedQuery>, query: SavedQuery) -> (r: AppResult<SavedQuery>)
    ensures
        match r {
            Ok(q) => {
                &&& query_problem(query@) is None
                &&& q@ == query@
                &&& final(queries)@ == with_entry(old(queries)@, query)
            },
            Err(e) => {
                &&& query_problem(query@) is Some
                &&& e.is_other(query_problem(query@)->0)
                &&& *final(queries) == *old(queries)
            },
        },
{
    if trim(query.name.as_str()).is_empty() {
        return Err(other("name cannot be empty"));
    }
    if trim(query.promql.as_str()).is_empty() {
        return Err(other("promql cannot be empty"));
    }
    let saved = copy_query(&query);
    put_entry(queries, query);
    Ok(saved)
}

/// Takes the query `name` out. Says whether there was one: only then is the file
/// to be saved.
pub fn remove(queries: &mut Vec<SavedQuery>, name: &str) -> (r: bool)
    ensures
        final(queries)@ == without_entry(old(queries)@, name@),
        r == (named_at(old(queries)@, name@) is Some),
{
    drop_entry(queries, name)
}

// ---------------------------------------------------------------------------
// The cache of results
// ---------------------------------------------------------------------------

/// How long the results of a query count as fresh that says nothing of it, in
/// seconds.
pub const DEFAULT_TTL_SECS: u64 = 30;

/// What stands between the instance and the query in a key of the cache.
pub const KEY_SEPARATOR: &'static str = "\0";

/// A result, and when it came: nanoseconds on a clock that never runs backwards.
#[derive(Clone, Debug)]
pub struct CachedEntry<R> {
    pub key: String,
    pub result: R,
    pub stored_at: u128,
}

impl<R> Named for CachedEntry<R> {
    open spec fn key(&self) -> Seq<char> {
        self.key@
    }

    fn key_str(&self) -> (r: &str) {
        self.key.as_str()
    }
}

/// The most recent result for each instance and query.
#[derive(Clone, Debug)]
pub struct QueryCache<R> {
    pub entries: Vec<CachedEntry<R>>,
}

/// The key of a query to an instance.
pub open spec fn key_of(instance: Seq<char>, promql: Seq<char>) -> Seq<char> {
    instance + KEY_SEPARATOR@ + promql
}

/// The key of a query to an instance.
pub fn cache_key(instance: &str, promql: &str) -> (r: String)
    ensures
        r@ == key_of(instance@, promql@),
{
    cat3(instance, KEY_SEPARATOR, promql)
}

/// Whether a result that came at `stored_at` counts as fresh at `now` for a query
/// that caches for `seconds`.
pub open spec fn is_fresh(stored_at: u128, now: u128, seconds: u64) -> bool {
    seconds > 0 && now - stored_at < seconds * 1_000_000_000
}

/// The result that a query to an instance is answered with at `now`, without
/// asking the instance.
pub open spec fn replayed<R>(
    c: Seq<CachedEntry<R>>,
    query: SavedQueryView,
    instance: Seq<char>,
    force_refresh: bool,
    now: u128,
) -> Option<R> {
    match named_at(c, key_of(instance, query.promql)) {
        Some(i) => if !force_refresh && is_fresh(c[i].stored_at, now, query.cache_seconds) {
            Some(c[i].result)
        } else {
            None
        },
        None => None,
    }
}

impl<R> QueryCache<R> {
    /// The empty cache.
    pub fn new() -> (r: Self)
        ensures
            r.entries@ == Seq::<CachedEntry<R>>::empty(),
    {
        QueryCache { entries: Vec::new() }
    }

    /// The result to answer a saved query with, where a fresh one is there and
    /// no refresh is forced. `now` is the time on the clock of the cache.
    pub fn run_saved(
        &self,
        query: &SavedQuery,
        instance: &str,
        force_refresh: bool,
        now: u128,
    ) -> (r: Option<&R>)
        ensures
            match r {
                Some(x) => replayed(self.entries@, query@, instance@, force_refresh, now) == Some(
                    *x,
                ),
                None => replayed(self.entries@, query@, instance@, force_refresh, now) is None,
            },
    {
        let key = cache_key(instance, query.promql.as_str());
        if force_refresh || query.cache_seconds == 0 {
            return None;
        }
        match position(&self.entries, key.as_str()) {
            Some(i) => {
                let e = &self.entries[i];
                let ttl: u128 = query.cache_seconds as u128 * 1_000_000_000;
                if now < e.stored_at || now - e.stored_at < ttl {
                    Some(&e.result)
                } else {
                    None
                }
            },
            None => None,
        }
    }

    /// Keeps the result that an instance gave for a saved query at `now`. A
    /// query that does not cache leaves the cache as it is.
    pub fn keep_result(&mut self, query: &SavedQuery, instance: &str, result: R, now: u128)
        ensures
            query.cache_seconds == 0 ==> *final(self) == *old(self),
            query.cache_seconds > 0 ==> exists|e: CachedEntry<R>|
                {
                    &&& e.key@ == key_of(instance@, query.promql@)
                    &&& e.result == result
                    &&& e.stored_at == now
                    &&& final(self).entries@ == #[trigger] with_entry(old(self).entries@, e)
                },
    {
        if query.cache_seconds > 0 {
            let e = CachedEntry {
                key: cache_key(instance, query.promql.as_str()),
                result,
                stored_at: now,
            };
            put_entry(&mut self.entries, e);
        }
    }

    /// Forgets every result.
    pub fn clear_cache(&mut self)
        ensures
            final(self).entries@ == Seq::<CachedEntry<R>>::empty(),
    {
        self.entries = Vec::new();
    }
}

// ---------------------------------------------------------------------------
// Laws
// ---------------------------------------------------------------------------

/// Two queries share a key only where both the instance and the query are the
/// same. The names of the instances hold no NUL.
pub proof fn law_keys_tell_queries_apart(
    instance1: Seq<char>,
    promql1: Seq<char>,
    instance2: Seq<char>,
    promql2: Seq<char>,
)
    requires
        !instance1.contains('\0'),
        !instance2.contains('\0'),
        key_of(instance1, promql1) == key_of(instance2, promql2),
    ensures
        instance1 == instance2,
        promql1 == promql2,
{
    reveal_strlit("\0");
    let k1 = key_of(instance1, promql1);
    let k2 = key_of(instance2, promql2);
    assert(k1[instance1.len() as int] == '\0');
    assert(k2[instance2.len() as int] == '\0');
    if instance1.len() < instance2.len() {
        assert(instance2[instance1.len() as int] == '\0');
        assert(instance2.contains('\0'));
    }
    if instance2.len() < instance1.len() {
        assert(instance1[instance2.len() as int] == '\0');
        assert(instance1.contains('\0'));
    }
    assert forall|i: int| 0 <= i < instance1.len() implies instance1[i] == instance2[i] by {
        assert(k1[i] == instance1[i] && k2[i] == instance2[i]);
    }
    assert(instance1 =~= instance2);
    assert(k1.skip(instance1.len() as int + 1) =~= promql1);
    assert(k2.skip(instance2.len() as int + 1) =~= promql2);
}

/// A kept result is replayed for as long as the query says, and no longer; a
/// forced refresh never replays it.
pub proof fn law_results_are_replayed_while_fresh<R>(
    before: Seq<CachedEntry<R>>,
    e: CachedEntry<R>,
    query: SavedQueryView,
    instance: Seq<char>,
    now: u128,
)
    requires
        e.key@ == key_of(instance, query.promql),
        e.stored_at <= now,
    ensures
        ({
            let after = with_entry(before, e);
            &&& (now - e.stored_at < query.cache_seconds * 1_000_000_000 ==> replayed(
                after,
                query,
                instance,
                false,
                now,
            ) == Some(e.result))
            &&& (now - e.stored_at >= query.cache_seconds * 1_000_000_000 ==> replayed(
                after,
                query,
                instance,
                false,
                now,
            ) is None)
            &&& replayed(after, query, instance, true, now) is None
        }),
{
    lemma_put_then_find(before, e, e.key@);
}

/// A query that disables caching is never answered from the cache.
pub proof fn law_disabled_caching_never_replays<R>(
    c: Seq<CachedEntry<R>>,
    query: SavedQueryView,
    instance: Seq<char>,
    force_refresh: bool,
    now: u128,
)
    requires
        query.cache_seconds == 0,
    ensures
        replayed(c, query, instance, force_refresh, now) is None,
{
}

/// A query is saved only with a name and with something to ask.
pub proof fn law_which_queries_are_saved(q: SavedQueryView)
    ensures
        query_problem(q) is None <==> trimmed(q.name).len() > 0 && trimmed(q.promql).len() > 0,
{
}

/// A result is replayed exactly where one of the same instance and query is there, no refresh
/// is forced, and it is younger than the query allows.
pub proof fn law_when_a_result_is_replayed<R>(
    cache: QueryCache<R>,
    query: SavedQuery,
    instance: &str,
    force_refresh: bool,
    now: u128,
    r: Option<&R>,
    i: int,
)
    requires
        call_ensures(QueryCache::<R>::run_saved, (&cache, &query, instance, force_refresh, now), r),
        0 <= i < cache.entries@.len(),
        cache.entries@[i].key@ == instance@ + "\0"@ + query.promql@,
        forall|k: int|
            0 <= k < i ==> (#[trigger] cache.entries@[k]).key@ != instance@ + "\0"@ + query.promql@,
        cache.entries@[i].stored_at <= now,
    ensures
        r is Some <==> !force_refresh && now - cache.entries@[i].stored_at < query.cache_seconds
            * 1_000_000_000,
        r is Some ==> *r->0 == cache.entries@[i].result,
{
    let c = cache.entries@;
    let key = key_of(instance@, query.promql@);
    lemma_named_from(c, key, 0);
    assert(c[i].key() == key);
    let n = named_at(c, key);
    assert(n is Some);
    if n->0 < i {
        assert(c[n->0].key() == key);
        assert(c[n->0].key@ == key);
    }
    assert(n == Some(i));
}

} // verus!
