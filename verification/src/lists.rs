//! Lists: a stable sort, lists whose entries are found by name, and a small
//! map from text to text.
use crate::text::{
    lemma_sorts_irreflexive, lemma_sorts_total, lemma_sorts_transitive, same, sorts_before,
};
use vstd::prelude::*;

verus! {

/// The views of a list's elements.
pub open spec fn views<T: View>(s: Seq<T>) -> Seq<T::V> {
    Seq::new(s.len(), |i: int| s[i]@)
}

/// The views after one more element.
pub proof fn lemma_views_push<T: View>(s: Seq<T>, x: T)
    ensures
        views(s.push(x)) == views(s).push(x@),
{
    assert(views(s.push(x)) =~= views(s).push(x@));
}

/// `s` with each element that stood earlier left out.
pub open spec fn distinct<T>(s: Seq<T>) -> Seq<T>
    decreases s.len(),
{
    if s.len() == 0 {
        s
    } else {
        let d = distinct(s.drop_last());
        if d.contains(s.last()) {
            d
        } else {
            d.push(s.last())
        }
    }
}

/// `distinct` keeps one of each element, and only those.
pub proof fn lemma_distinct<T>(s: Seq<T>)
    ensures
        distinct(s).no_duplicates(),
        forall|x: T| distinct(s).contains(x) <==> s.contains(x),
    decreases s.len(),
{
    if s.len() > 0 {
        lemma_distinct(s.drop_last());
        let d = distinct(s.drop_last());
        assert forall|x: T| distinct(s).contains(x) <==> s.contains(x) by {
            if s.contains(x) {
                let i = choose|i: int| 0 <= i < s.len() && s[i] == x;
                if i < s.len() - 1 {
                    assert(s.drop_last()[i] == x);
                    assert(s.drop_last().contains(x));
                    assert(d.contains(x));
                    let k = choose|k: int| 0 <= k < d.len() && d[k] == x;
                    assert(distinct(s)[k] == x);
                } else if !d.contains(x) {
                    assert(distinct(s)[d.len() as int] == x);
                }
            }
            if distinct(s).contains(x) {
                let k = choose|k: int| 0 <= k < distinct(s).len() && distinct(s)[k] == x;
                if k < d.len() {
                    assert(d[k] == x);
                    assert(d.contains(x));
                    assert(s.drop_last().contains(x));
                    let i = choose|i: int| 0 <= i < s.drop_last().len() && s.drop_last()[i] == x;
                    assert(s[i] == x);
                } else {
                    assert(s[s.len() - 1] == x);
                }
            }
        }
    }
}

// ---------------------------------------------------------------------------
// Sorting
// ---------------------------------------------------------------------------

/// `x` put into `s`, as far to the end as `before` allows.
pub open spec fn placed<T>(s: Seq<T>, x: T, before: spec_fn(T, T) -> bool) -> Seq<T>
    decreases s.len(),
{
    if s.len() > 0 && before(x, s.last()) {
        placed(s.drop_last(), x, before).push(s.last())
    } else {
        s.push(x)
    }
}

/// `s` in the order of `before`; elements that `before` does not tell apart keep
/// their order.
pub open spec fn sorted_by<T>(s: Seq<T>, before: spec_fn(T, T) -> bool) -> Seq<T>
    decreases s.len(),
{
    if s.len() == 0 {
        s
    } else {
        placed(sorted_by(s.drop_last(), before), s.last(), before)
    }
}

/// No element stands after one that it should come before.
pub open spec fn in_order<T>(s: Seq<T>, before: spec_fn(T, T) -> bool) -> bool {
    forall|i: int, j: int|
        #![trigger s[i], s[j]]
        0 <= i < j < s.len() ==> !before(s[j], s[i])
}

/// `before` is a strict weak order.
pub open spec fn is_ranking<T>(before: spec_fn(T, T) -> bool) -> bool {
    &&& forall|a: T, b: T| #[trigger] before(a, b) ==> !before(b, a)
    &&& forall|a: T, b: T, c: T|
        #![trigger before(a, b), before(b, c)]
        !before(a, b) && !before(b, c) ==> !before(a, c)
}

pub proof fn lemma_placed_len<T>(s: Seq<T>, x: T, before: spec_fn(T, T) -> bool)
    ensures
        placed(s, x, before).len() == s.len() + 1,
    decreases s.len(),
{
    if s.len() > 0 && before(x, s.last()) {
        lemma_placed_len(s.drop_last(), x, before);
    }
}

proof fn lemma_placed_multiset<T>(s: Seq<T>, x: T, before: spec_fn(T, T) -> bool)
    ensures
        placed(s, x, before).to_multiset() =~= s.to_multiset().insert(x),
    decreases s.len(),
{
    broadcast use vstd::seq_lib::group_to_multiset_ensures;

    if s.len() > 0 && before(x, s.last()) {
        lemma_placed_multiset(s.drop_last(), x, before);
        assert(s =~= s.drop_last().push(s.last()));
    }
}

/// Sorting only rearranges.
pub proof fn lemma_sorted_rearranges<T>(s: Seq<T>, before: spec_fn(T, T) -> bool)
    ensures
        sorted_by(s, before).to_multiset() =~= s.to_multiset(),
        sorted_by(s, before).len() == s.len(),
    decreases s.len(),
{
    broadcast use vstd::seq_lib::group_to_multiset_ensures;

    if s.len() > 0 {
        lemma_sorted_rearranges(s.drop_last(), before);
        lemma_placed_multiset(sorted_by(s.drop_last(), before), s.last(), before);
        lemma_placed_len(sorted_by(s.drop_last(), before), s.last(), before);
        assert(s =~= s.drop_last().push(s.last()));
    }
}

/// Sorting keeps every element and brings in none.
pub proof fn lemma_sorted_members<T>(s: Seq<T>, before: spec_fn(T, T) -> bool)
    ensures
        forall|x: T| #[trigger] sorted_by(s, before).contains(x) <==> s.contains(x),
        sorted_by(s, before).len() == s.len(),
{
    lemma_sorted_rearranges(s, before);
    assert forall|x: T| #[trigger] sorted_by(s, before).contains(x) <==> s.contains(x) by {
        vstd::seq_lib::to_multiset_contains(s, x);
        vstd::seq_lib::to_multiset_contains(sorted_by(s, before), x);
    }
}

proof fn lemma_placed_member<T>(s: Seq<T>, x: T, before: spec_fn(T, T) -> bool, i: int)
    requires
        0 <= i < placed(s, x, before).len(),
    ensures
        placed(s, x, before)[i] == x || s.contains(placed(s, x, before)[i]),
    decreases s.len(),
{
    lemma_placed_len(s, x, before);
    if s.len() > 0 && before(x, s.last()) {
        lemma_placed_len(s.drop_last(), x, before);
        if i < s.len() {
            lemma_placed_member(s.drop_last(), x, before, i);
            let y = placed(s.drop_last(), x, before)[i];
            if y != x {
                let k = choose|k: int| 0 <= k < s.drop_last().len() && s.drop_last()[k] == y;
                assert(s[k] == y);
            }
        } else {
            assert(s[s.len() - 1] == s.last());
        }
    } else if i < s.len() {
        assert(s[i] == placed(s, x, before)[i]);
    }
}

proof fn lemma_placed_in_order<T>(s: Seq<T>, x: T, before: spec_fn(T, T) -> bool)
    requires
        is_ranking(before),
        in_order(s, before),
    ensures
        in_order(placed(s, x, before), before),
    decreases s.len(),
{
    let r = placed(s, x, before);
    lemma_placed_len(s, x, before);
    if s.len() > 0 && before(x, s.last()) {
        let front = s.drop_last();
        assert(in_order(front, before)) by {
            assert forall|i: int, j: int|
                #![trigger front[i], front[j]]
                0 <= i < j < front.len() implies !before(front[j], front[i]) by {
                assert(front[i] == s[i] && front[j] == s[j]);
            }
        }
        lemma_placed_in_order(front, x, before);
        lemma_placed_len(front, x, before);
        let inner = placed(front, x, before);
        assert forall|i: int, j: int|
            #![trigger r[i], r[j]]
            0 <= i < j < r.len() implies !before(r[j], r[i]) by {
            if j < inner.len() {
                assert(r[i] == inner[i] && r[j] == inner[j]);
            } else {
                assert(r[j] == s.last());
                assert(r[i] == inner[i]);
                lemma_placed_member(front, x, before, i);
                if inner[i] != x {
                    let k = choose|k: int| 0 <= k < front.len() && front[k] == inner[i];
                    assert(s[k] == inner[i]);
                    assert(s[s.len() - 1] == s.last());
                }
            }
        }
    } else {
        assert forall|i: int, j: int|
            #![trigger r[i], r[j]]
            0 <= i < j < r.len() implies !before(r[j], r[i]) by {
            if j == s.len() {
                assert(r[i] == s[i]);
                assert(s[s.len() - 1] == s.last());
                if i < s.len() - 1 {
                    assert(!before(s[s.len() - 1], s[i]));
                    assert(!before(x, s.last()));
                    assert(!before(x, s[i]));
                }
            } else {
                assert(r[i] == s[i] && r[j] == s[j]);
            }
        }
    }
}

/// What comes out of a sort by a strict weak order is in order.
pub proof fn lemma_sorted_in_order<T>(s: Seq<T>, before: spec_fn(T, T) -> bool)
    requires
        is_ranking(before),
    ensures
        in_order(sorted_by(s, before), before),
    decreases s.len(),
{
    if s.len() > 0 {
        lemma_sorted_in_order(s.drop_last(), before);
        lemma_placed_in_order(sorted_by(s.drop_last(), before), s.last(), before);
    }
}

fn place<T, F: Fn(&T, &T) -> bool>(v: &mut Vec<T>, x: T, less: &F, Ghost(before): Ghost<spec_fn(T, T) -> bool>)
    requires
        forall|a: &T, b: &T| call_requires(*less, (a, b)),
        forall|a: &T, b: &T, r: bool| call_ensures(*less, (a, b), r) ==> r == before(*a, *b),
    ensures
        final(v)@ == placed(old(v)@, x, before),
{
    let ghost s = v@;
    let mut i: usize = v.len();
    proof {
        assert(s.take(i as int) =~= s);
        assert(s.skip(i as int) =~= Seq::<T>::empty());
        assert(placed(s, x, before) =~= placed(s.take(i as int), x, before) + s.skip(i as int));
    }
    while i > 0 && less(&x, &v[i - 1])
        invariant
            v@ == s,
            i <= s.len(),
            forall|a: &T, b: &T| call_requires(*less, (a, b)),
            forall|a: &T, b: &T, r: bool| call_ensures(*less, (a, b), r) ==> r == before(*a, *b),
            placed(s, x, before) == placed(s.take(i as int), x, before) + s.skip(i as int),
        decreases i,
    {
        proof {
            assert(s.take(i as int).drop_last() =~= s.take(i - 1));
            assert(s.take(i as int).last() == s[i - 1]);
            assert(placed(s.take(i - 1), x, before).push(s[i - 1]) + s.skip(i as int) =~= placed(
                s.take(i - 1),
                x,
                before,
            ) + s.skip(i - 1));
        }
        i -= 1;
    }
    proof {
        if i > 0 {
            assert(s.take(i as int).last() == s[i - 1]);
        }
        assert(placed(s.take(i as int), x, before) == s.take(i as int).push(x));
        assert(s.take(i as int).push(x) + s.skip(i as int) =~= s.insert(i as int, x));
    }
    v.insert(i, x);
}

/// An order by a text of each element.
pub open spec fn by_text<T>(key: spec_fn(T) -> Seq<char>) -> spec_fn(T, T) -> bool {
    |a: T, b: T| sorts_before(key(a), key(b))
}

/// An order by a text of each element, the last one first.
pub open spec fn by_text_down<T>(key: spec_fn(T) -> Seq<char>) -> spec_fn(T, T) -> bool {
    |a: T, b: T| sorts_before(key(b), key(a))
}

pub proof fn lemma_by_text_ranks<T>(key: spec_fn(T) -> Seq<char>)
    ensures
        is_ranking(by_text(key)),
        is_ranking(by_text_down(key)),
{
    let up = by_text(key);
    let down = by_text_down(key);
    assert forall|a: T, b: T| #[trigger] up(a, b) implies !up(b, a) by {
        lemma_sorts_total(key(a), key(b));
    }
    assert forall|a: T, b: T| #[trigger] down(a, b) implies !down(b, a) by {
        lemma_sorts_total(key(a), key(b));
    }
    assert forall|a: T, b: T, c: T|
        #![trigger up(a, b), up(b, c)]
        !up(a, b) && !up(b, c) implies !up(a, c) by {
        lemma_not_before(key(a), key(b), key(c));
    }
    assert forall|a: T, b: T, c: T|
        #![trigger down(a, b), down(b, c)]
        !down(a, b) && !down(b, c) implies !down(a, c) by {
        lemma_not_before(key(c), key(b), key(a));
    }
}

/// An order by one text, the last one first, and by another where that does not
/// tell.
pub open spec fn by_down_and_up<T>(
    down: spec_fn(T) -> Seq<char>,
    up: spec_fn(T) -> Seq<char>,
) -> spec_fn(T, T) -> bool {
    |a: T, b: T|
        sorts_before(down(b), down(a)) || (down(a) == down(b) && sorts_before(up(a), up(b)))
}

pub proof fn lemma_by_down_and_up_ranks<T>(
    down: spec_fn(T) -> Seq<char>,
    up: spec_fn(T) -> Seq<char>,
)
    ensures
        is_ranking(by_down_and_up(down, up)),
{
    let f = by_down_and_up(down, up);
    assert forall|a: T, b: T| #[trigger] f(a, b) implies !f(b, a) by {
        lemma_sorts_total(down(a), down(b));
        lemma_sorts_irreflexive(down(a));
        lemma_sorts_total(up(a), up(b));
    }
    assert forall|a: T, b: T, c: T|
        #![trigger f(a, b), f(b, c)]
        !f(a, b) && !f(b, c) implies !f(a, c) by {
        let (x, y, z) = (down(a), down(b), down(c));
        lemma_sorts_total(x, y);
        lemma_sorts_total(y, z);
        lemma_sorts_total(x, z);
        lemma_sorts_irreflexive(x);
        lemma_sorts_irreflexive(y);
        lemma_not_before(z, y, x);
        if x == y && y == z {
            lemma_not_before(up(a), up(b), up(c));
        }
        if sorts_before(x, y) && sorts_before(y, z) {
            lemma_sorts_transitive(x, y, z);
        }
    }
}

/// Not to come before is transitive.
pub proof fn lemma_not_before(a: Seq<char>, b: Seq<char>, c: Seq<char>)
    requires
        !sorts_before(a, b),
        !sorts_before(b, c),
    ensures
        !sorts_before(a, c),
{
    lemma_sorts_total(a, b);
    lemma_sorts_total(b, c);
    lemma_sorts_total(a, c);
    if sorts_before(b, a) && sorts_before(c, b) {
        lemma_sorts_transitive(c, b, a);
    }
}

/// An order of views as an order of what is viewed.
pub open spec fn by_view<T: View>(before: spec_fn(T::V, T::V) -> bool) -> spec_fn(T, T) -> bool {
    |a: T, b: T| before(a@, b@)
}

proof fn lemma_placed_views<T: View>(s: Seq<T>, x: T, before: spec_fn(T::V, T::V) -> bool)
    ensures
        views(placed(s, x, by_view(before))) == placed(views(s), x@, before),
    decreases s.len(),
{
    let t = views(s);
    if s.len() > 0 {
        assert(t.last() == s.last()@);
        assert(views(s.drop_last()) =~= t.drop_last());
        if before(x@, t.last()) {
            lemma_placed_views(s.drop_last(), x, before);
            let p = placed(s.drop_last(), x, by_view(before));
            assert(views(p.push(s.last())) =~= views(p).push(t.last()));
            return;
        }
    }
    assert(views(s.push(x)) =~= t.push(x@));
}

/// To sort by what is seen is to sort what is seen.
pub proof fn lemma_sorted_views<T: View>(s: Seq<T>, before: spec_fn(T::V, T::V) -> bool)
    ensures
        views(sorted_by(s, by_view(before))) == sorted_by(views(s), before),
    decreases s.len(),
{
    if s.len() > 0 {
        lemma_sorted_views(s.drop_last(), before);
        lemma_placed_views(sorted_by(s.drop_last(), by_view(before)), s.last(), before);
        assert(views(s.drop_last()) =~= views(s).drop_last());
    } else {
        assert(views(s) =~= Seq::empty());
    }
}

/// Sorts `v` by `less`, keeping the order of elements that `less` does not tell
/// apart.
pub fn sort<T, F: Fn(&T, &T) -> bool>(v: Vec<T>, less: F, Ghost(before): Ghost<spec_fn(T, T) -> bool>) -> (r: Vec<T>)
    requires
        forall|a: &T, b: &T| call_requires(less, (a, b)),
        forall|a: &T, b: &T, r: bool| call_ensures(less, (a, b), r) ==> r == before(*a, *b),
    ensures
        r@ == sorted_by(v@, before),
{
    let ghost all = v@;
    let mut out: Vec<T> = Vec::new();
    for x in it: v
        invariant
            it.seq() == all,
            forall|a: &T, b: &T| call_requires(less, (a, b)),
            forall|a: &T, b: &T, r: bool| call_ensures(less, (a, b), r) ==> r == before(*a, *b),
            out@ == sorted_by(all.take(it.index()), before),
    {
        assert(all.take(it.index() + 1).drop_last() =~= all.take(it.index()));
        place(&mut out, x, &less, Ghost(before));
    }
    assert(all.take(all.len() as int) =~= all);
    out
}

// ---------------------------------------------------------------------------
// Entries found by name
// ---------------------------------------------------------------------------

/// An entry of a list that is found by its name.
pub trait Named: Sized {
    spec fn key(&self) -> Seq<char>;

    fn key_str(&self) -> (r: &str)
        ensures
            r@ == self.key(),
    ;
}

/// The first position at or after `from` whose entry is called `name`.
pub open spec fn named_from<T: Named>(s: Seq<T>, name: Seq<char>, from: int) -> Option<int>
    decreases s.len() - from,
{
    if from < 0 || from >= s.len() {
        None
    } else if s[from].key() == name {
        Some(from)
    } else {
        named_from(s, name, from + 1)
    }
}

/// The first position whose entry is called `name`.
pub open spec fn named_at<T: Named>(s: Seq<T>, name: Seq<char>) -> Option<int> {
    named_from(s, name, 0)
}

/// What `named_from` gives back, put without recursion.
pub proof fn lemma_named_from<T: Named>(s: Seq<T>, name: Seq<char>, from: int)
    requires
        0 <= from,
    ensures
        match named_from(s, name, from) {
            Some(i) => from <= i < s.len() && s[i].key() == name && forall|j: int|
                from <= j < i ==> (#[trigger] s[j]).key() != name,
            None => forall|j: int| from <= j < s.len() ==> (#[trigger] s[j]).key() != name,
        },
    decreases s.len() - from,
{
    if from < s.len() && s[from].key() != name {
        lemma_named_from(s, name, from + 1);
    }
}

/// The position of the first entry called `name`.
pub fn position<T: Named>(v: &Vec<T>, name: &str) -> (r: Option<usize>)
    ensures
        match r {
            Some(i) => named_at(v@, name@) == Some(i as int) && i < v@.len() && v@[i as int].key()
                == name@,
            None => named_at(v@, name@) is None,
        },
{
    let mut i: usize = 0;
    while i < v.len()
        invariant
            i <= v@.len(),
            named_at(v@, name@) == named_from(v@, name@, i as int),
        decreases v@.len() - i,
    {
        if same(v[i].key_str(), name) {
            return Some(i);
        }
        i += 1;
    }
    None
}

/// `s` with `e` in the place of the first entry of its name, or at the end where
/// there is none.
pub open spec fn with_entry<T: Named>(s: Seq<T>, e: T) -> Seq<T> {
    match named_at(s, e.key()) {
        Some(i) => s.update(i, e),
        None => s.push(e),
    }
}

/// Puts `e` in the place of the first entry of its name, or at the end.
pub fn put_entry<T: Named>(v: &mut Vec<T>, e: T)
    ensures
        final(v)@ == with_entry(old(v)@, e),
{
    match position(v, e.key_str()) {
        Some(i) => {
            v.set(i, e);
        },
        None => {
            v.push(e);
        },
    }
}

/// `s` without the entries called `name`.
pub open spec fn without_entry<T: Named>(s: Seq<T>, name: Seq<char>) -> Seq<T>
    decreases s.len(),
{
    if s.len() == 0 {
        s
    } else if s.last().key() == name {
        without_entry(s.drop_last(), name)
    } else {
        without_entry(s.drop_last(), name).push(s.last())
    }
}

/// Takes the entries called `name` out of `v`; says whether there were any.
pub fn drop_entry<T: Named>(v: &mut Vec<T>, name: &str) -> (r: bool)
    ensures
        final(v)@ == without_entry(old(v)@, name@),
        r == (named_at(old(v)@, name@) is Some),
{
    let ghost all = v@;
    let ghost mut k: int = 0;
    let mut i: usize = 0;
    let mut found: bool = false;
    proof {
        assert(all.take(0) =~= Seq::<T>::empty());
        assert(v@ =~= without_entry(all.take(0), name@) + all.skip(0));
    }
    while i < v.len()
        invariant
            0 <= k <= all.len(),
            i <= v@.len(),
            i == without_entry(all.take(k), name@).len(),
            v@ == without_entry(all.take(k), name@) + all.skip(k),
            named_at(all, name@) == (if found {
                named_at(all, name@)
            } else {
                named_from(all, name@, k)
            }),
            found ==> named_at(all, name@) is Some,
        decreases v@.len() - i,
    {
        proof {
            assert(all.take(k + 1).drop_last() =~= all.take(k));
            assert(v@[i as int] == all[k]);
        }
        let ghost head = without_entry(all.take(k), name@);
        if same(v[i].key_str(), name) {
            v.remove(i);
            found = true;
            assert(v@ =~= head + all.skip(k + 1));
        } else {
            i += 1;
            assert(v@ =~= head.push(all[k]) + all.skip(k + 1));
        }
        proof {
            k = k + 1;
        }
    }
    proof {
        assert(all.take(k) =~= all);
        assert(v@ =~= without_entry(all, name@));
    }
    found
}

/// No two entries share a name.
pub open spec fn names_differ<T: Named>(s: Seq<T>) -> bool {
    forall|i: int, j: int|
        #![trigger s[i], s[j]]
        0 <= i < j < s.len() ==> s[i].key() != s[j].key()
}

/// Putting an entry keeps names apart.
pub proof fn lemma_put_names_differ<T: Named>(s: Seq<T>, e: T)
    requires
        names_differ(s),
    ensures
        names_differ(with_entry(s, e)),
{
    lemma_named_from(s, e.key(), 0);
}

/// After a put the entry is found under its name, and every other name finds
/// what it found before.
pub proof fn lemma_put_then_find<T: Named>(s: Seq<T>, e: T, name: Seq<char>)
    ensures
        ({
            let t = with_entry(s, e);
            if name == e.key() {
                named_at(t, name) matches Some(i) && t[i] == e
            } else {
                match (named_at(s, name), named_at(t, name)) {
                    (Some(i), Some(j)) => i == j && t[j] == s[i],
                    (None, None) => true,
                    _ => false,
                }
            }
        }),
{
    let t = with_entry(s, e);
    lemma_named_from(s, e.key(), 0);
    lemma_named_from(s, name, 0);
    lemma_named_from(t, name, 0);
    if name == e.key() {
        match named_at(s, name) {
            Some(i) => {
                assert(t[i].key() == name);
                let j = named_at(t, name)->0;
                if j < i {
                    assert(t[j] == s[j]);
                }
            },
            None => {
                assert(t[s.len() as int].key() == name);
                let j = named_at(t, name)->0;
                if j < s.len() {
                    assert(t[j] == s[j]);
                }
            },
        }
    } else {
        match named_at(t, name) {
            Some(j) => {
                assert(t[j].key() == name);
                assert(j < s.len());
                assert(t[j] == s[j]);
                let i = named_at(s, name)->0;
                if i < j {
                    assert(t[i] == s[i]);
                }
            },
            None => {
                if named_at(s, name) is Some {
                    let i = named_at(s, name)->0;
                    assert(t[i] == s[i]);
                }
            },
        }
    }
}

/// What is left after entries were dropped: exactly the others.
pub proof fn lemma_without_members<T: Named>(s: Seq<T>, name: Seq<char>)
    ensures
        forall|i: int|
            0 <= i < without_entry(s, name).len() ==> (#[trigger] without_entry(s, name)[i]).key()
                != name && s.contains(without_entry(s, name)[i]),
        forall|j: int|
            0 <= j < s.len() && (#[trigger] s[j]).key() != name ==> without_entry(s, name).contains(
                s[j],
            ),
        without_entry(s, name).len() <= s.len(),
    decreases s.len(),
{
    if s.len() > 0 {
        let front = s.drop_last();
        let w0 = without_entry(front, name);
        let w = without_entry(s, name);
        lemma_without_members(front, name);
        assert forall|i: int| 0 <= i < w.len() implies (#[trigger] w[i]).key() != name && s.contains(
            w[i],
        ) by {
            if i < w0.len() {
                assert(w[i] == w0[i]);
                let k = choose|k: int| 0 <= k < front.len() && front[k] == w0[i];
                assert(s[k] == w[i]);
            } else {
                assert(s[s.len() - 1] == w[i]);
            }
        }
        assert forall|j: int| 0 <= j < s.len() && (#[trigger] s[j]).key() != name implies w.contains(
            s[j],
        ) by {
            if j < front.len() {
                assert(front[j] == s[j]);
                let k = choose|k: int| 0 <= k < w0.len() && w0[k] == s[j];
                assert(w[k] == s[j]);
            } else {
                assert(w[w0.len() as int] == s[j]);
            }
        }
    }
}

/// Dropping entries keeps names apart.
pub proof fn lemma_drop_names_differ<T: Named>(s: Seq<T>, name: Seq<char>)
    requires
        names_differ(s),
    ensures
        names_differ(without_entry(s, name)),
    decreases s.len(),
{
    if s.len() > 0 {
        let front = s.drop_last();
        let w0 = without_entry(front, name);
        let w = without_entry(s, name);
        assert(names_differ(front)) by {
            assert forall|i: int, j: int|
                #![trigger front[i], front[j]]
                0 <= i < j < front.len() implies front[i].key() != front[j].key() by {
                assert(front[i] == s[i] && front[j] == s[j]);
            }
        }
        lemma_drop_names_differ(front, name);
        lemma_without_members(front, name);
        if s.last().key() != name {
            assert forall|i: int, j: int|
                #![trigger w[i], w[j]]
                0 <= i < j < w.len() implies w[i].key() != w[j].key() by {
                assert(w[i] == w0[i]);
                if j < w0.len() {
                    assert(w[j] == w0[j]);
                } else {
                    let k = choose|k: int| 0 <= k < front.len() && front[k] == w0[i];
                    assert(s[k] == w[i]);
                    assert(s[s.len() - 1] == w[j]);
                }
            }
        }
    }
}

/// After a drop the name is not found.
pub proof fn lemma_drop_then_find<T: Named>(s: Seq<T>, name: Seq<char>)
    ensures
        named_at(without_entry(s, name), name) is None,
{
    lemma_without_members(s, name);
    lemma_named_from(without_entry(s, name), name, 0);
}

/// An entry of another name is found as before once those called `name` are gone.
pub proof fn lemma_drop_then_find_other<T: Named>(s: Seq<T>, name: Seq<char>, other: Seq<char>)
    requires
        names_differ(s),
        other != name,
    ensures
        match (named_at(s, other), named_at(without_entry(s, name), other)) {
            (Some(i), Some(j)) => s[i] == without_entry(s, name)[j],
            (None, None) => true,
            _ => false,
        },
{
    let w = without_entry(s, name);
    lemma_without_members(s, name);
    lemma_named_from(s, other, 0);
    lemma_named_from(w, other, 0);
    if let Some(i) = named_at(s, other) {
        let k = choose|k: int| 0 <= k < w.len() && w[k] == s[i];
        assert(w[k].key() == other);
    }
    if let Some(j) = named_at(w, other) {
        let k = choose|k: int| 0 <= k < s.len() && s[k] == w[j];
        assert(s[k].key() == other);
    }
}

proof fn lemma_placed_members<T>(s: Seq<T>, x: T, before: spec_fn(T, T) -> bool)
    ensures
        forall|k: int|
            0 <= k < placed(s, x, before).len() ==> (#[trigger] placed(s, x, before)[k]) == x
                || s.contains(placed(s, x, before)[k]),
    decreases s.len(),
{
    let p = placed(s, x, before);
    if s.len() > 0 && before(x, s.last()) {
        let q = placed(s.drop_last(), x, before);
        lemma_placed_members(s.drop_last(), x, before);
        assert forall|k: int| 0 <= k < p.len() implies (#[trigger] p[k]) == x || s.contains(p[k]) by {
            if k < q.len() {
                assert(q[k] == p[k]);
                if q[k] != x {
                    let j = choose|j: int| 0 <= j < s.drop_last().len() && s.drop_last()[j] == q[k];
                    assert(s[j] == p[k]);
                }
            } else {
                assert(p[k] == s[s.len() - 1]);
            }
        }
    } else {
        assert forall|k: int| 0 <= k < p.len() implies (#[trigger] p[k]) == x || s.contains(p[k]) by {
            if k < s.len() {
                assert(p[k] == s[k]);
            }
        }
    }
}

proof fn lemma_placed_names<T: Named>(s: Seq<T>, x: T, before: spec_fn(T, T) -> bool)
    requires
        names_differ(s),
        forall|i: int| 0 <= i < s.len() ==> (#[trigger] s[i]).key() != x.key(),
    ensures
        names_differ(placed(s, x, before)),
    decreases s.len(),
{
    if s.len() > 0 && before(x, s.last()) {
        let front = s.drop_last();
        let q = placed(front, x, before);
        assert forall|i: int| 0 <= i < front.len() implies (#[trigger] front[i]).key() != x.key() by {
            assert(front[i] == s[i]);
        }
        assert forall|i: int, j: int|
            #![trigger front[i], front[j]]
            0 <= i < j < front.len() implies front[i].key() != front[j].key() by {
            assert(front[i] == s[i] && front[j] == s[j]);
        }
        lemma_placed_names(front, x, before);
        lemma_placed_members(front, x, before);
        let p = q.push(s.last());
        assert forall|i: int, j: int|
            #![trigger p[i], p[j]]
            0 <= i < j < p.len() implies p[i].key() != p[j].key() by {
            assert(p[i] == q[i]);
            if j < q.len() {
                assert(p[j] == q[j]);
            } else {
                assert(p[j] == s[s.len() - 1]);
                if q[i] != x {
                    let k = choose|k: int| 0 <= k < front.len() && front[k] == q[i];
                    assert(s[k] == q[i]);
                }
            }
        }
    } else {
        let p = s.push(x);
        assert forall|i: int, j: int|
            #![trigger p[i], p[j]]
            0 <= i < j < p.len() implies p[i].key() != p[j].key() by {
            assert(p[i] == s[i]);
            if j < s.len() {
                assert(p[j] == s[j]);
            }
        }
    }
}

/// Sorting keeps the entries, and keeps names apart.
pub proof fn lemma_sorted_names<T: Named>(s: Seq<T>, before: spec_fn(T, T) -> bool)
    requires
        names_differ(s),
    ensures
        names_differ(sorted_by(s, before)),
        forall|k: int|
            0 <= k < sorted_by(s, before).len() ==> s.contains(#[trigger] sorted_by(s, before)[k]),
    decreases s.len(),
{
    if s.len() > 0 {
        let front = s.drop_last();
        let q = sorted_by(front, before);
        assert forall|i: int, j: int|
            #![trigger front[i], front[j]]
            0 <= i < j < front.len() implies front[i].key() != front[j].key() by {
            assert(front[i] == s[i] && front[j] == s[j]);
        }
        lemma_sorted_names(front, before);
        assert forall|i: int| 0 <= i < q.len() implies (#[trigger] q[i]).key() != s.last().key() by {
            let k = choose|k: int| 0 <= k < front.len() && front[k] == q[i];
            assert(s[k] == q[i]);
            assert(s[s.len() - 1] == s.last());
        }
        lemma_placed_names(q, s.last(), before);
        lemma_placed_members(q, s.last(), before);
        let p = sorted_by(s, before);
        assert forall|k: int| 0 <= k < p.len() implies s.contains(#[trigger] p[k]) by {
            if p[k] == s.last() {
                assert(s[s.len() - 1] == p[k]);
            } else {
                let j = choose|j: int| 0 <= j < q.len() && q[j] == p[k];
                let m = choose|m: int| 0 <= m < front.len() && front[m] == q[j];
                assert(s[m] == p[k]);
            }
        }
    }
}

// ---------------------------------------------------------------------------
// A map from text to text
// ---------------------------------------------------------------------------

/// What `key` stands for in a list of pairs: the value of the first pair with
/// that key.
pub open spec fn lookup(entries: Seq<(String, String)>, key: Seq<char>) -> Option<Seq<char>>
    decreases entries.len(),
{
    if entries.len() == 0 {
        None
    } else if entries[0].0@ == key {
        Some(entries[0].1@)
    } else {
        lookup(entries.drop_first(), key)
    }
}

/// A key stands for the value of its first pair.
pub proof fn lemma_lookup_at(entries: Seq<(String, String)>, key: Seq<char>, i: int)
    requires
        0 <= i < entries.len(),
        entries[i].0@ == key,
        forall|j: int| 0 <= j < i ==> (#[trigger] entries[j]).0@ != key,
    ensures
        lookup(entries, key) == Some(entries[i].1@),
    decreases i,
{
    if i > 0 {
        assert(entries[0].0@ != key);
        let rest = entries.drop_first();
        assert forall|j: int| 0 <= j < i - 1 implies (#[trigger] rest[j]).0@ != key by {
            assert(rest[j] == entries[j + 1]);
        }
        lemma_lookup_at(rest, key, i - 1);
    }
}

proof fn lemma_lookup_none(entries: Seq<(String, String)>, key: Seq<char>)
    requires
        forall|j: int| 0 <= j < entries.len() ==> (#[trigger] entries[j]).0@ != key,
    ensures
        lookup(entries, key) is None,
    decreases entries.len(),
{
    if entries.len() > 0 {
        assert(entries[0].0@ != key);
        let rest = entries.drop_first();
        assert forall|j: int| 0 <= j < rest.len() implies (#[trigger] rest[j]).0@ != key by {
            assert(rest[j] == entries[j + 1]);
        }
        lemma_lookup_none(rest, key);
    }
}

/// What `lookup` gives back, put without recursion.
pub proof fn lemma_lookup(entries: Seq<(String, String)>, key: Seq<char>)
    ensures
        match lookup(entries, key) {
            Some(v) => exists|i: int|
                #![trigger entries[i]]
                0 <= i < entries.len() && entries[i].0@ == key && entries[i].1@ == v && forall|j: int|
                    0 <= j < i ==> (#[trigger] entries[j]).0@ != key,
            None => forall|j: int| 0 <= j < entries.len() ==> (#[trigger] entries[j]).0@ != key,
        },
    decreases entries.len(),
{
    if entries.len() > 0 && entries[0].0@ != key {
        let rest = entries.drop_first();
        lemma_lookup(rest, key);
        match lookup(rest, key) {
            Some(v) => {
                let i = choose|i: int|
                    #![trigger rest[i]]
                    0 <= i < rest.len() && rest[i].0@ == key && rest[i].1@ == v && forall|j: int|
                        0 <= j < i ==> (#[trigger] rest[j]).0@ != key;
                assert(entries[i + 1] == rest[i]);
                assert forall|j: int| 0 <= j < i + 1 implies (#[trigger] entries[j]).0@ != key by {
                    if j > 0 {
                        assert(rest[j - 1] == entries[j]);
                    }
                }
            },
            None => {
                assert forall|j: int| 0 <= j < entries.len() implies (#[trigger] entries[j]).0@
                    != key by {
                    if j > 0 {
                        assert(rest[j - 1] == entries[j]);
                    }
                }
            },
        }
    } else if entries.len() > 0 {
        assert(entries[0].0@ == key);
    }
}

/// A map from text to text, kept as a list of pairs.
#[derive(Clone, Debug)]
pub struct TextMap {
    pub entries: Vec<(String, String)>,
}

impl View for TextMap {
    type V = Map<Seq<char>, Seq<char>>;

    open spec fn view(&self) -> Map<Seq<char>, Seq<char>> {
        Map::new(
            |k: Seq<char>| lookup(self.entries@, k) is Some,
            |k: Seq<char>| lookup(self.entries@, k)->0,
        )
    }
}

impl TextMap {
    /// The empty map.
    pub fn new() -> (r: Self)
        ensures
            r@ == Map::<Seq<char>, Seq<char>>::empty(),
    {
        let r = TextMap { entries: Vec::new() };
        assert(r@ =~= Map::<Seq<char>, Seq<char>>::empty());
        r
    }

    fn find(&self, key: &str) -> (r: Option<usize>)
        ensures
            match r {
                Some(i) => i < self.entries@.len() && self.entries@[i as int].0@ == key@ && lookup(
                    self.entries@,
                    key@,
                ) == Some(self.entries@[i as int].1@) && forall|j: int|
                    0 <= j < i ==> (#[trigger] self.entries@[j]).0@ != key@,
                None => lookup(self.entries@, key@) is None && forall|j: int|
                    0 <= j < self.entries@.len() ==> (#[trigger] self.entries@[j]).0@ != key@,
            },
    {
        let mut i: usize = 0;
        while i < self.entries.len()
            invariant
                i <= self.entries@.len(),
                forall|j: int| 0 <= j < i ==> (#[trigger] self.entries@[j]).0@ != key@,
            decreases self.entries@.len() - i,
        {
            if same(self.entries[i].0.as_str(), key) {
                proof {
                    lemma_lookup_at(self.entries@, key@, i as int);
                }
                return Some(i);
            }
            i += 1;
        }
        proof {
            lemma_lookup_none(self.entries@, key@);
        }
        None
    }

    /// What `key` stands for.
    pub fn get(&self, key: &str) -> (r: Option<String>)
        ensures
            match r {
                Some(v) => self@.contains_key(key@) && v@ == self@[key@],
                None => !self@.contains_key(key@),
            },
    {
        match self.find(key) {
            Some(i) => Some(self.entries[i].1.clone()),
            None => None,
        }
    }

    /// What `key` stands for, or the empty text.
    pub fn get_or_empty(&self, key: &str) -> (r: String)
        ensures
            r@ == text_or_empty(self@, key@),
    {
        match self.get(key) {
            Some(v) => v,
            None => String::new(),
        }
    }

    /// Lets `key` stand for `value`.
    pub fn insert(&mut self, key: &str, value: &str)
        ensures
            final(self)@ == old(self)@.insert(key@, value@),
    {
        let ghost before = self.entries@;
        match self.find(key) {
            Some(i) => {
                self.entries.set(i, (key.to_owned(), value.to_owned()));
                proof {
                    let after = self.entries@;
                    assert forall|k: Seq<char>| lookup(after, k) == (if k == key@ {
                        Some(value@)
                    } else {
                        lookup(before, k)
                    }) by {
                        lemma_lookup_updated(before, i as int, after[i as int], k);
                    }
                }
            },
            None => {
                self.entries.push((key.to_owned(), value.to_owned()));
                proof {
                    let after = self.entries@;
                    assert forall|k: Seq<char>| lookup(after, k) == (if k == key@ {
                        Some(value@)
                    } else {
                        lookup(before, k)
                    }) by {
                        lemma_lookup_pushed(before, after[before.len() as int], k);
                    }
                }
            },
        }
        assert(self@ =~= old(self)@.insert(key@, value@));
    }

    /// Lets `key` stand for nothing.
    pub fn remove(&mut self, key: &str)
        ensures
            final(self)@ == old(self)@.remove(key@),
    {
        let ghost before = self.entries@;
        let mut i: usize = 0;
        while i < self.entries.len()
            invariant
                i <= self.entries@.len(),
                forall|j: int| 0 <= j < i ==> (#[trigger] self.entries@[j]).0@ != key@,
                forall|k: Seq<char>|
                    k != key@ ==> #[trigger] lookup(self.entries@, k) == lookup(before, k),
            decreases self.entries@.len() - i,
        {
            let ghost now = self.entries@;
            if same(self.entries[i].0.as_str(), key) {
                self.entries.remove(i);
                proof {
                    assert forall|k: Seq<char>| k != key@ implies #[trigger] lookup(
                        self.entries@,
                        k,
                    ) == lookup(before, k) by {
                        lemma_lookup_removed(now, i as int, k);
                    }
                    assert forall|j: int| 0 <= j < i implies (#[trigger] self.entries@[j]).0@
                        != key@ by {
                        assert(self.entries@[j] == now[j]);
                    }
                }
            } else {
                i += 1;
            }
        }
        proof {
            lemma_lookup_none(self.entries@, key@);
            assert(self@ =~= old(self)@.remove(key@));
        }
    }
}

/// What `key` stands for in `m`, or the empty text.
pub open spec fn text_or_empty(m: Map<Seq<char>, Seq<char>>, key: Seq<char>) -> Seq<char> {
    if m.contains_key(key) {
        m[key]
    } else {
        Seq::empty()
    }
}

proof fn lemma_lookup_updated(s: Seq<(String, String)>, i: int, e: (String, String), k: Seq<char>)
    requires
        0 <= i < s.len(),
        s[i].0@ == e.0@,
        forall|j: int| 0 <= j < i ==> (#[trigger] s[j]).0@ != e.0@,
    ensures
        lookup(s.update(i, e), k) == (if k == e.0@ {
            Some(e.1@)
        } else {
            lookup(s, k)
        }),
{
    let t = s.update(i, e);
    if k == e.0@ {
        assert forall|j: int| 0 <= j < i implies (#[trigger] t[j]).0@ != k by {
            assert(t[j] == s[j]);
        }
        lemma_lookup_at(t, k, i);
    } else {
        lemma_lookup(s, k);
        match lookup(s, k) {
            Some(v) => {
                let n = choose|n: int|
                    #![trigger s[n]]
                    0 <= n < s.len() && s[n].0@ == k && s[n].1@ == v && forall|j: int|
                        0 <= j < n ==> (#[trigger] s[j]).0@ != k;
                assert(t[n] == s[n]);
                assert forall|j: int| 0 <= j < n implies (#[trigger] t[j]).0@ != k by {
                    if j != i {
                        assert(t[j] == s[j]);
                    }
                }
                lemma_lookup_at(t, k, n);
            },
            None => {
                assert forall|j: int| 0 <= j < t.len() implies (#[trigger] t[j]).0@ != k by {
                    if j != i {
                        assert(t[j] == s[j]);
                    }
                }
                lemma_lookup_none(t, k);
            },
        }
    }
}

proof fn lemma_lookup_pushed(s: Seq<(String, String)>, e: (String, String), k: Seq<char>)
    requires
        lookup(s, e.0@) is None,
    ensures
        lookup(s.push(e), k) == (if k == e.0@ {
            Some(e.1@)
        } else {
            lookup(s, k)
        }),
{
    let t = s.push(e);
    lemma_lookup(s, k);
    match lookup(s, k) {
        Some(v) => {
            let n = choose|n: int|
                #![trigger s[n]]
                0 <= n < s.len() && s[n].0@ == k && s[n].1@ == v && forall|j: int|
                    0 <= j < n ==> (#[trigger] s[j]).0@ != k;
            assert(t[n] == s[n]);
            assert forall|j: int| 0 <= j < n implies (#[trigger] t[j]).0@ != k by {
                assert(t[j] == s[j]);
            }
            lemma_lookup_at(t, k, n);
        },
        None => {
            assert forall|j: int| 0 <= j < s.len() implies (#[trigger] t[j]).0@ != k by {
                assert(t[j] == s[j]);
            }
            if k == e.0@ {
                lemma_lookup_at(t, k, s.len() as int);
            } else {
                lemma_lookup_none(t, k);
            }
        },
    }
}

proof fn lemma_lookup_removed(s: Seq<(String, String)>, i: int, k: Seq<char>)
    requires
        0 <= i < s.len(),
        s[i].0@ != k,
    ensures
        lookup(s.remove(i), k) == lookup(s, k),
{
    let t = s.remove(i);
    lemma_lookup(s, k);
    match lookup(s, k) {
        Some(v) => {
            let n = choose|n: int|
                #![trigger s[n]]
                0 <= n < s.len() && s[n].0@ == k && s[n].1@ == v && forall|j: int|
                    0 <= j < n ==> (#[trigger] s[j]).0@ != k;
            let m = if n < i {
                n
            } else {
                n - 1
            };
            assert(t[m] == s[n]);
            assert forall|j: int| 0 <= j < m implies (#[trigger] t[j]).0@ != k by {
                if j < i {
                    assert(t[j] == s[j]);
                } else {
                    assert(t[j] == s[j + 1]);
                }
            }
            lemma_lookup_at(t, k, m);
        },
        None => {
            assert forall|j: int| 0 <= j < t.len() implies (#[trigger] t[j]).0@ != k by {
                if j < i {
                    assert(t[j] == s[j]);
                } else {
                    assert(t[j] == s[j + 1]);
                }
            }
            lemma_lookup_none(t, k);
        },
    }
}

} // verus!
