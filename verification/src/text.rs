//! Text: what the string operations used throughout the library mean, and
//! executable versions of them.
use vstd::prelude::*;

verus! {

/// `String::push` appends one character at the end.
pub assume_specification[ String::push ](s: &mut String, c: char)
    ensures
        final(s)@ == old(s)@.push(c),
;

/// What `str::to_lowercase` makes of a text.
pub uninterp spec fn lowercase(s: Seq<char>) -> Seq<char>;

/// A text of ASCII characters alone.
pub open spec fn all_ascii(s: Seq<char>) -> bool {
    forall|i: int| 0 <= i < s.len() ==> (#[trigger] s[i]) <= '\u{7f}'
}

/// An ASCII text with `a` to `z` for `A` to `Z`.
pub open spec fn ascii_lowered(s: Seq<char>) -> Seq<char> {
    Seq::new(
        s.len(),
        |i: int|
            if 'A' <= s[i] <= 'Z' {
                (s[i] as u32 + 32) as char
            } else {
                s[i]
            },
    )
}

/// `str::to_lowercase` gives the lower-case form of a text, as Unicode has it. Of
/// an ASCII text that is the text with small letters for capitals.
pub assume_specification[ str::to_lowercase ](s: &str) -> (r: String)
    ensures
        r@ == lowercase(s@),
        all_ascii(s@) ==> r@ == ascii_lowered(s@),
;

/// The characters of `s`, in order.
pub fn chars_of(s: &str) -> (v: Vec<char>)
    ensures
        v@ == s@,
{
    let mut v: Vec<char> = Vec::new();
    for c in it: s.chars()
        invariant
            it.seq() == s@,
            v@ == s@.take(it.index()),
    {
        v.push(c);
        assert(s@.take(it.index() + 1) =~= s@.take(it.index()).push(c));
    }
    assert(s@.take(s@.len() as int) =~= s@);
    v
}

/// Whether two texts are the same.
pub fn same(a: &str, b: &str) -> (r: bool)
    ensures
        r == (a@ == b@),
{
    a.to_owned() == b.to_owned()
}

// ---------------------------------------------------------------------------
// Concatenation
// ---------------------------------------------------------------------------

/// `a` then `b`.
pub fn cat2(a: &str, b: &str) -> (r: String)
    ensures
        r@ == a@ + b@,
{
    let mut r = a.to_owned();
    r.append(b);
    r
}

/// `a`, `b`, then `c`.
pub fn cat3(a: &str, b: &str, c: &str) -> (r: String)
    ensures
        r@ == a@ + b@ + c@,
{
    let mut r = cat2(a, b);
    r.append(c);
    r
}

/// `a`, `b`, `c`, then `d`.
pub fn cat4(a: &str, b: &str, c: &str, d: &str) -> (r: String)
    ensures
        r@ == a@ + b@ + c@ + d@,
{
    let mut r = cat3(a, b, c);
    r.append(d);
    r
}

/// `a`, `b`, `c`, `d`, then `e`.
pub fn cat5(a: &str, b: &str, c: &str, d: &str, e: &str) -> (r: String)
    ensures
        r@ == a@ + b@ + c@ + d@ + e@,
{
    let mut r = cat4(a, b, c, d);
    r.append(e);
    r
}

/// The text of an optional string.
pub open spec fn opt_text(o: Option<String>) -> Option<Seq<char>> {
    match o {
        Some(s) => Some(s@),
        None => None,
    }
}

/// The text of an optional string, empty where there is none.
pub open spec fn text_or_nothing(o: Option<String>) -> Seq<char> {
    match o {
        Some(s) => s@,
        None => Seq::empty(),
    }
}

/// The same text again, where there is one.
pub fn copy_opt(o: &Option<String>) -> (r: Option<String>)
    ensures
        opt_text(r) == opt_text(*o),
{
    match o {
        Some(s) => Some(s.clone()),
        None => None,
    }
}

/// The string in `o`, or the empty one.
pub fn or_empty(o: &Option<String>) -> (r: String)
    ensures
        r@ == text_or_nothing(*o),
{
    match o {
        Some(s) => s.clone(),
        None => String::new(),
    }
}

/// The texts of a list of strings.
pub open spec fn texts(v: Seq<String>) -> Seq<Seq<char>> {
    Seq::new(v.len(), |i: int| v[i]@)
}

/// The texts of a list after one more string.
pub proof fn lemma_texts_push(v: Seq<String>, s: String)
    ensures
        texts(v.push(s)) == texts(v).push(s@),
{
    assert(texts(v.push(s)) =~= texts(v).push(s@));
}

/// Adds a text to a list.
pub fn push_text(v: &mut Vec<String>, s: &str)
    ensures
        texts(final(v)@) == texts(old(v)@).push(s@),
{
    let t = s.to_owned();
    proof {
        lemma_texts_push(v@, t);
    }
    v.push(t);
}

/// An empty list of strings.
pub fn no_texts() -> (v: Vec<String>)
    ensures
        v@.len() == 0,
        texts(v@) == Seq::<Seq<char>>::empty(),
{
    let v: Vec<String> = Vec::new();
    assert(texts(v@) =~= Seq::<Seq<char>>::empty());
    v
}

/// The parts with `sep` between neighbours.
pub open spec fn joined(parts: Seq<Seq<char>>, sep: Seq<char>) -> Seq<char>
    decreases parts.len(),
{
    if parts.len() == 0 {
        Seq::empty()
    } else if parts.len() == 1 {
        parts[0]
    } else {
        joined(parts.drop_last(), sep) + sep + parts.last()
    }
}

/// Joins `parts`, putting `sep` between neighbours.
pub fn join(parts: &Vec<String>, sep: &str) -> (r: String)
    ensures
        r@ == joined(texts(parts@), sep@),
{
    let mut r = String::new();
    let mut i: usize = 0;
    while i < parts.len()
        invariant
            i <= parts@.len(),
            r@ == joined(texts(parts@).take(i as int), sep@),
        decreases parts@.len() - i,
    {
        assert(texts(parts@).take(i + 1).drop_last() =~= texts(parts@).take(i as int));
        if i == 0 {
            r = parts[i].clone();
        } else {
            r.append(sep);
            r.append(parts[i].as_str());
        }
        i += 1;
    }
    assert(texts(parts@).take(i as int) =~= texts(parts@));
    r
}

// ---------------------------------------------------------------------------
// Searching
// ---------------------------------------------------------------------------

/// `p` stands in `s` at position `i`.
pub open spec fn occurs_at(s: Seq<char>, p: Seq<char>, i: int) -> bool {
    0 <= i && i + p.len() <= s.len() && s.subrange(i, i + p.len()) == p
}

/// `s` begins with `p`.
pub open spec fn has_prefix(s: Seq<char>, p: Seq<char>) -> bool {
    p.len() <= s.len() && s.take(p.len() as int) == p
}

/// `s` ends with `p`.
pub open spec fn has_suffix(s: Seq<char>, p: Seq<char>) -> bool {
    p.len() <= s.len() && s.skip(s.len() - p.len()) == p
}

/// `p` stands somewhere in `s`.
pub open spec fn has_part(s: Seq<char>, p: Seq<char>) -> bool {
    exists|i: int| occurs_at(s, p, i)
}

/// The first position at or after `from` where `p` stands in `s`.
pub open spec fn find_from(s: Seq<char>, p: Seq<char>, from: int) -> Option<int>
    decreases s.len() + 1 - from,
{
    if from < 0 || from + p.len() > s.len() {
        None
    } else if occurs_at(s, p, from) {
        Some(from)
    } else {
        find_from(s, p, from + 1)
    }
}

/// What `find_from` gives back, put without recursion.
pub proof fn lemma_find_from(s: Seq<char>, p: Seq<char>, from: int)
    requires
        0 <= from,
    ensures
        match find_from(s, p, from) {
            Some(i) => from <= i && occurs_at(s, p, i) && forall|j: int|
                from <= j < i ==> !occurs_at(s, p, j),
            None => forall|j: int| from <= j ==> !occurs_at(s, p, j),
        },
    decreases s.len() + 1 - from,
{
    if from + p.len() > s.len() {
    } else if occurs_at(s, p, from) {
    } else {
        lemma_find_from(s, p, from + 1);
    }
}

fn matches_at(s: &Vec<char>, p: &Vec<char>, i: usize) -> (r: bool)
    requires
        i + p@.len() <= s@.len(),
    ensures
        r == occurs_at(s@, p@, i as int),
{
    let n: usize = s.len();
    let mut k: usize = 0;
    while k < p.len()
        invariant
            k <= p@.len(),
            n == s@.len(),
            i + p@.len() <= s@.len(),
            forall|j: int| 0 <= j < k ==> s@[i + j] == p@[j],
        decreases p@.len() - k,
    {
        if s[i + k] != p[k] {
            assert(s@.subrange(i as int, i + p@.len())[k as int] != p@[k as int]);
            return false;
        }
        k += 1;
    }
    assert(s@.subrange(i as int, i + p@.len()) =~= p@);
    true
}

/// The first position, counted in characters, where `p` stands in `s`.
pub fn find(s: &str, p: &str) -> (r: Option<usize>)
    ensures
        match r {
            Some(i) => find_from(s@, p@, 0) == Some(i as int),
            None => find_from(s@, p@, 0) is None,
        },
{
    let sv = chars_of(s);
    let pv = chars_of(p);
    if pv.len() > sv.len() {
        return None;
    }
    let last: usize = sv.len() - pv.len();
    let mut i: usize = 0;
    while i <= last
        invariant
            sv@ == s@,
            pv@ == p@,
            pv@.len() <= sv@.len(),
            last == sv@.len() - pv@.len(),
            i <= last + 1,
            find_from(s@, p@, 0) == find_from(s@, p@, i as int),
        decreases last + 1 - i,
    {
        if matches_at(&sv, &pv, i) {
            return Some(i);
        }
        if i == last {
            assert(find_from(s@, p@, i + 1) is None);
            return None;
        }
        i += 1;
    }
    None
}

/// Whether `p` stands somewhere in `s`.
pub fn contains(s: &str, p: &str) -> (r: bool)
    ensures
        r == has_part(s@, p@),
{
    proof {
        lemma_find_from(s@, p@, 0);
    }
    find(s, p).is_some()
}

/// Whether `s` begins with `p`.
pub fn starts_with(s: &str, p: &str) -> (r: bool)
    ensures
        r == has_prefix(s@, p@),
{
    let sv = chars_of(s);
    let pv = chars_of(p);
    assert(p@.len() <= s@.len() ==> s@.take(p@.len() as int) =~= s@.subrange(0, p@.len() as int));
    pv.len() <= sv.len() && matches_at(&sv, &pv, 0)
}

/// Whether `s` ends with `p`.
pub fn ends_with(s: &str, p: &str) -> (r: bool)
    ensures
        r == has_suffix(s@, p@),
{
    let sv = chars_of(s);
    let pv = chars_of(p);
    if pv.len() > sv.len() {
        return false;
    }
    assert(s@.skip(s@.len() - p@.len()) =~= s@.subrange(s@.len() - p@.len(), s@.len() as int));
    matches_at(&sv, &pv, sv.len() - pv.len())
}

/// What follows the prefix `p` of `s`, if `s` begins with `p`.
pub fn strip_prefix<'a>(s: &'a str, p: &str) -> (r: Option<&'a str>)
    ensures
        match r {
            Some(t) => has_prefix(s@, p@) && t@ == s@.skip(p@.len() as int),
            None => !has_prefix(s@, p@),
        },
{
    if starts_with(s, p) {
        let n: usize = s.unicode_len();
        let t = s.substring_char(p.unicode_len(), n);
        assert(t@ =~= s@.skip(p@.len() as int));
        Some(t)
    } else {
        None
    }
}

/// What precedes the suffix `p` of `s`, if `s` ends with `p`.
pub fn strip_suffix<'a>(s: &'a str, p: &str) -> (r: Option<&'a str>)
    ensures
        match r {
            Some(t) => has_suffix(s@, p@) && t@ == s@.take(s@.len() - p@.len()),
            None => !has_suffix(s@, p@),
        },
{
    if ends_with(s, p) {
        let n: usize = s.unicode_len();
        let m: usize = p.unicode_len();
        let t = s.substring_char(0, n - m);
        assert(t@ =~= s@.take(s@.len() - p@.len()));
        Some(t)
    } else {
        None
    }
}

/// The first position of `c` in `s`.
pub open spec fn char_from(s: Seq<char>, c: char, from: int) -> Option<int>
    decreases s.len() - from,
{
    if from < 0 || from >= s.len() {
        None
    } else if s[from] == c {
        Some(from)
    } else {
        char_from(s, c, from + 1)
    }
}

/// What `char_from` gives back, put without recursion.
pub proof fn lemma_char_from(s: Seq<char>, c: char, from: int)
    requires
        0 <= from,
    ensures
        match char_from(s, c, from) {
            Some(i) => from <= i < s.len() && s[i] == c && forall|j: int|
                from <= j < i ==> s[j] != c,
            None => forall|j: int| from <= j < s.len() ==> s[j] != c,
        },
    decreases s.len() - from,
{
    if from < s.len() && s[from] != c {
        lemma_char_from(s, c, from + 1);
    }
}

/// The first position of `c` in `s`, counted in characters.
pub fn find_char(s: &str, c: char) -> (r: Option<usize>)
    ensures
        match r {
            Some(i) => char_from(s@, c, 0) == Some(i as int) && i < s@.len(),
            None => char_from(s@, c, 0) is None,
        },
{
    let v = chars_of(s);
    let mut i: usize = 0;
    while i < v.len()
        invariant
            v@ == s@,
            i <= v@.len(),
            char_from(s@, c, 0) == char_from(s@, c, i as int),
        decreases v@.len() - i,
    {
        if v[i] == c {
            return Some(i);
        }
        i += 1;
    }
    None
}

/// The last position of `c` in `s`.
pub open spec fn last_char(s: Seq<char>, c: char) -> Option<int>
    decreases s.len(),
{
    if s.len() == 0 {
        None
    } else if s.last() == c {
        Some(s.len() - 1)
    } else {
        last_char(s.drop_last(), c)
    }
}

/// The last position of `c` in `s`, counted in characters.
pub fn rfind_char(s: &str, c: char) -> (r: Option<usize>)
    ensures
        match r {
            Some(i) => last_char(s@, c) == Some(i as int) && i < s@.len(),
            None => last_char(s@, c) is None,
        },
{
    let v = chars_of(s);
    let mut i: usize = v.len();
    assert(s@.take(i as int) =~= s@);
    while i > 0
        invariant
            v@ == s@,
            i <= v@.len(),
            last_char(s@, c) == last_char(s@.take(i as int), c),
        decreases i,
    {
        assert(s@.take(i as int).drop_last() =~= s@.take(i - 1));
        if v[i - 1] == c {
            return Some(i - 1);
        }
        i -= 1;
    }
    None
}

/// Whether the character `c` stands somewhere in `s`.
pub fn contains_char(s: &str, c: char) -> (r: bool)
    ensures
        r == s@.contains(c),
{
    proof {
        lemma_char_from(s@, c, 0);
    }
    find_char(s, c).is_some()
}

// ---------------------------------------------------------------------------
// Trimming
// ---------------------------------------------------------------------------

/// White space: the characters with the Unicode `White_Space` property.
pub open spec fn is_space(c: char) -> bool {
    let n = c as u32;
    ||| 0x9 <= n <= 0xd
    ||| n == 0x20
    ||| n == 0x85
    ||| n == 0xa0
    ||| n == 0x1680
    ||| 0x2000 <= n <= 0x200a
    ||| n == 0x2028
    ||| n == 0x2029
    ||| n == 0x202f
    ||| n == 0x205f
    ||| n == 0x3000
}

/// Whether `c` is white space.
pub fn space(c: char) -> (r: bool)
    ensures
        r == is_space(c),
{
    let n: u32 = c as u32;
    (0x9 <= n && n <= 0xd) || n == 0x20 || n == 0x85 || n == 0xa0 || n == 0x1680 || (0x2000 <= n
        && n <= 0x200a) || n == 0x2028 || n == 0x2029 || n == 0x202f || n == 0x205f || n == 0x3000
}

/// `s` without the white space at its start.
pub open spec fn trimmed_start(s: Seq<char>) -> Seq<char>
    decreases s.len(),
{
    if s.len() > 0 && is_space(s[0]) {
        trimmed_start(s.drop_first())
    } else {
        s
    }
}

/// `s` without the white space at its end.
pub open spec fn trimmed_end(s: Seq<char>) -> Seq<char>
    decreases s.len(),
{
    if s.len() > 0 && is_space(s.last()) {
        trimmed_end(s.drop_last())
    } else {
        s
    }
}

/// `s` without the white space at its two ends.
pub open spec fn trimmed(s: Seq<char>) -> Seq<char> {
    trimmed_end(trimmed_start(s))
}

/// `s` without the white space at its start.
pub fn trim_start<'a>(s: &'a str) -> (r: &'a str)
    ensures
        r@ == trimmed_start(s@),
{
    let v = chars_of(s);
    let mut i: usize = 0;
    assert(s@.skip(0) =~= s@);
    while i < v.len() && space(v[i])
        invariant
            v@ == s@,
            i <= v@.len(),
            trimmed_start(s@) == trimmed_start(s@.skip(i as int)),
        decreases v@.len() - i,
    {
        assert(s@.skip(i as int).drop_first() =~= s@.skip(i + 1));
        i += 1;
    }
    let r = s.substring_char(i, v.len());
    assert(r@ =~= s@.skip(i as int));
    r
}

/// `s` without the white space at its end.
pub fn trim_end<'a>(s: &'a str) -> (r: &'a str)
    ensures
        r@ == trimmed_end(s@),
{
    let v = chars_of(s);
    let mut i: usize = v.len();
    assert(s@.take(i as int) =~= s@);
    while i > 0 && space(v[i - 1])
        invariant
            v@ == s@,
            i <= v@.len(),
            trimmed_end(s@) == trimmed_end(s@.take(i as int)),
        decreases i,
    {
        assert(s@.take(i as int).drop_last() =~= s@.take(i - 1));
        i -= 1;
    }
    let r = s.substring_char(0, i);
    assert(r@ =~= s@.take(i as int));
    r
}

/// `s` without the white space at its two ends.
pub fn trim<'a>(s: &'a str) -> (r: &'a str)
    ensures
        r@ == trimmed(s@),
{
    trim_end(trim_start(s))
}

/// `s` without the run of `c` at its end.
pub open spec fn without_end(s: Seq<char>, c: char) -> Seq<char>
    decreases s.len(),
{
    if s.len() > 0 && s.last() == c {
        without_end(s.drop_last(), c)
    } else {
        s
    }
}

/// `s` without the run of `c` at its start.
pub open spec fn without_start(s: Seq<char>, c: char) -> Seq<char>
    decreases s.len(),
{
    if s.len() > 0 && s[0] == c {
        without_start(s.drop_first(), c)
    } else {
        s
    }
}

/// `s` without the run of `c` at its end.
pub fn trim_end_char<'a>(s: &'a str, c: char) -> (r: &'a str)
    ensures
        r@ == without_end(s@, c),
{
    let v = chars_of(s);
    let mut i: usize = v.len();
    assert(s@.take(i as int) =~= s@);
    while i > 0 && v[i - 1] == c
        invariant
            v@ == s@,
            i <= v@.len(),
            without_end(s@, c) == without_end(s@.take(i as int), c),
        decreases i,
    {
        assert(s@.take(i as int).drop_last() =~= s@.take(i - 1));
        i -= 1;
    }
    let r = s.substring_char(0, i);
    assert(r@ =~= s@.take(i as int));
    r
}

/// `s` without the run of `c` at its start.
pub fn trim_start_char<'a>(s: &'a str, c: char) -> (r: &'a str)
    ensures
        r@ == without_start(s@, c),
{
    let v = chars_of(s);
    let mut i: usize = 0;
    assert(s@.skip(0) =~= s@);
    while i < v.len() && v[i] == c
        invariant
            v@ == s@,
            i <= v@.len(),
            without_start(s@, c) == without_start(s@.skip(i as int), c),
        decreases v@.len() - i,
    {
        assert(s@.skip(i as int).drop_first() =~= s@.skip(i + 1));
        i += 1;
    }
    let r = s.substring_char(i, v.len());
    assert(r@ =~= s@.skip(i as int));
    r
}

// ---------------------------------------------------------------------------
// Splitting
// ---------------------------------------------------------------------------

/// The pieces of `s` between the occurrences of `c`: one more than there are
/// occurrences.
pub open spec fn pieces(s: Seq<char>, c: char) -> Seq<Seq<char>>
    decreases s.len(),
{
    if s.len() == 0 {
        seq![Seq::empty()]
    } else {
        let before = pieces(s.drop_last(), c);
        if s.last() == c {
            before.push(Seq::empty())
        } else {
            before.drop_last().push(before.last().push(s.last()))
        }
    }
}

/// There is always a last piece.
pub proof fn lemma_pieces_nonempty(s: Seq<char>, c: char)
    ensures
        pieces(s, c).len() > 0,
    decreases s.len(),
{
    if s.len() > 0 {
        lemma_pieces_nonempty(s.drop_last(), c);
    }
}

/// Splits `s` at each `c`.
pub fn split(s: &str, c: char) -> (r: Vec<String>)
    ensures
        texts(r@) == pieces(s@, c),
        r@.len() > 0,
{
    let v = chars_of(s);
    let mut out: Vec<String> = Vec::new();
    let mut cur = String::new();
    let mut i: usize = 0;
    proof {
        assert(s@.take(0) =~= Seq::<char>::empty());
        assert(texts(out@).push(cur@) =~= pieces(s@.take(0), c));
    }
    while i < v.len()
        invariant
            v@ == s@,
            i <= v@.len(),
            texts(out@).push(cur@) == pieces(s@.take(i as int), c),
        decreases v@.len() - i,
    {
        let x = v[i];
        proof {
            assert(s@.take(i + 1).drop_last() =~= s@.take(i as int));
            assert(texts(out@).push(cur@).drop_last() =~= texts(out@));
        }
        if x == c {
            proof {
                lemma_texts_push(out@, cur);
            }
            out.push(cur);
            cur = String::new();
        } else {
            cur.push(x);
        }
        i += 1;
        assert(texts(out@).push(cur@) =~= pieces(s@.take(i as int), c));
    }
    assert(s@.take(i as int) =~= s@);
    proof {
        lemma_texts_push(out@, cur);
    }
    out.push(cur);
    out
}

/// A line's text without the carriage return that may end it.
pub open spec fn without_cr(s: Seq<char>) -> Seq<char> {
    if s.len() > 0 && s.last() == '\r' {
        s.drop_last()
    } else {
        s
    }
}

/// Adds `t` to a list of texts, unless it is there.
pub fn push_new(v: &mut Vec<String>, t: &str)
    ensures
        texts(final(v)@) == (if texts(old(v)@).contains(t@) {
            texts(old(v)@)
        } else {
            texts(old(v)@).push(t@)
        }),
{
    let mut i: usize = 0;
    while i < v.len()
        invariant
            i <= v@.len(),
            v@ == old(v)@,
            forall|k: int| 0 <= k < i ==> (#[trigger] texts(v@)[k]) != t@,
        decreases v@.len() - i,
    {
        assert(texts(v@)[i as int] == v@[i as int]@);
        if same(v[i].as_str(), t) {
            return;
        }
        i += 1;
    }
    push_text(v, t);
}

/// The lines of a text: the pieces between line feeds, each complete line
/// without the carriage return that may stand before its line feed. What
/// follows the last line feed is a line only if it is not empty.
pub open spec fn lines_of(s: Seq<char>) -> Seq<Seq<char>> {
    let all = pieces(s, '\n');
    let full = Seq::new((all.len() - 1) as nat, |i: int| without_cr(all[i]));
    if all.last().len() == 0 {
        full
    } else {
        full.push(all.last())
    }
}

/// The lines of `s`.
pub fn lines(s: &str) -> (r: Vec<String>)
    ensures
        texts(r@) == lines_of(s@),
{
    let all = split(s, '\n');
    let ghost ps = pieces(s@, '\n');
    let n: usize = all.len() - 1;
    let mut out: Vec<String> = Vec::new();
    let mut i: usize = 0;
    while i < n
        invariant
            i <= n,
            n == all@.len() - 1,
            texts(all@) == ps,
            texts(out@) == Seq::new(i as nat, |k: int| without_cr(ps[k])),
        decreases n - i,
    {
        let line = all[i].as_str();
        assert(line@ == texts(all@)[i as int]);
        let m: usize = line.unicode_len();
        let t = if m > 0 && line.get_char(m - 1) == '\r' {
            line.substring_char(0, m - 1).to_owned()
        } else {
            line.to_owned()
        };
        proof {
            assert(t@ =~= without_cr(ps[i as int]));
            lemma_texts_push(out@, t);
        }
        out.push(t);
        i += 1;
        assert(texts(out@) =~= Seq::new(i as nat, |k: int| without_cr(ps[k])));
    }
    assert(all@[n as int]@ == texts(all@)[n as int]);
    if all[n].as_str().unicode_len() > 0 {
        let last = all[n].clone();
        proof {
            lemma_texts_push(out@, last);
        }
        out.push(last);
    }
    out
}

/// What stands before and after the first `c` of `s`.
pub fn split_once<'a>(s: &'a str, c: char) -> (r: Option<(&'a str, &'a str)>)
    ensures
        match (r, char_from(s@, c, 0)) {
            (Some((a, b)), Some(i)) => a@ == s@.take(i) && b@ == s@.skip(i + 1),
            (None, None) => true,
            _ => false,
        },
{
    match find_char(s, c) {
        Some(i) => {
            let n: usize = s.unicode_len();
            let a = s.substring_char(0, i);
            let b = s.substring_char(i + 1, n);
            assert(a@ =~= s@.take(i as int));
            assert(b@ =~= s@.skip(i + 1));
            Some((a, b))
        },
        None => None,
    }
}

/// What stands before and after the last `c` of `s`.
pub fn rsplit_once<'a>(s: &'a str, c: char) -> (r: Option<(&'a str, &'a str)>)
    ensures
        match (r, last_char(s@, c)) {
            (Some((a, b)), Some(i)) => a@ == s@.take(i) && b@ == s@.skip(i + 1),
            (None, None) => true,
            _ => false,
        },
{
    match rfind_char(s, c) {
        Some(i) => {
            let n: usize = s.unicode_len();
            let a = s.substring_char(0, i);
            let b = s.substring_char(i + 1, n);
            assert(a@ =~= s@.take(i as int));
            assert(b@ =~= s@.skip(i + 1));
            Some((a, b))
        },
        None => None,
    }
}

/// The pieces of `s` between the occurrences of `sep`, found from the left.
pub open spec fn split_by(s: Seq<char>, sep: Seq<char>) -> Seq<Seq<char>>
    decreases s.len(),
{
    match find_from(s, sep, 0) {
        Some(i) => if sep.len() > 0 && 0 <= i && i + sep.len() <= s.len() {
            seq![s.take(i)] + split_by(s.skip(i + sep.len()), sep)
        } else {
            seq![s]
        },
        None => seq![s],
    }
}

/// Splits `s` at each occurrence of `sep`.
pub fn split_text(s: &str, sep: &str) -> (r: Vec<String>)
    requires
        sep@.len() > 0,
    ensures
        texts(r@) == split_by(s@, sep@),
{
    let mut out = no_texts();
    let m: usize = sep.unicode_len();
    let mut rest: &str = s;
    assert(texts(out@) + split_by(rest@, sep@) =~= split_by(s@, sep@));
    loop
        invariant
            m == sep@.len(),
            m > 0,
            texts(out@) + split_by(rest@, sep@) == split_by(s@, sep@),
        decreases rest@.len(),
    {
        match find(rest, sep) {
            Some(i) => {
                proof {
                    lemma_find_from(rest@, sep@, 0);
                }
                let n: usize = rest.unicode_len();
                let head = rest.substring_char(0, i);
                let tail = rest.substring_char(i + m, n);
                let ghost before = texts(out@);
                push_text(&mut out, head);
                proof {
                    assert(head@ =~= rest@.take(i as int));
                    assert(tail@ =~= rest@.skip(i + sep@.len()));
                    assert(texts(out@) + split_by(tail@, sep@) =~= before + split_by(
                        rest@,
                        sep@,
                    ));
                }
                rest = tail;
            },
            None => {
                let ghost before = texts(out@);
                push_text(&mut out, rest);
                assert(texts(out@) =~= before + split_by(rest@, sep@));
                return out;
            },
        }
    }
}

/// Splitting and joining with the same separator gives the text back.
pub proof fn lemma_split_joined(s: Seq<char>, sep: Seq<char>)
    requires
        sep.len() > 0,
    ensures
        joined(split_by(s, sep), sep) == s,
        split_by(s, sep).len() > 0,
    decreases s.len(),
{
    lemma_find_from(s, sep, 0);
    match find_from(s, sep, 0) {
        Some(i) => {
            let tail = s.skip(i + sep.len());
            lemma_split_joined(tail, sep);
            lemma_joined_cons(s.take(i), split_by(tail, sep), sep);
            assert(s =~= s.take(i) + sep + tail) by {
                assert(s.subrange(i, i + sep.len()) == sep);
            }
        },
        None => {},
    }
}

/// Joining a list that begins with `first`.
pub proof fn lemma_joined_cons(first: Seq<char>, rest: Seq<Seq<char>>, sep: Seq<char>)
    requires
        rest.len() > 0,
    ensures
        joined(seq![first] + rest, sep) == first + sep + joined(rest, sep),
    decreases rest.len(),
{
    let all = seq![first] + rest;
    if rest.len() == 1 {
        assert(all.drop_last() =~= seq![first]);
        assert(joined(seq![first], sep) == first);
        assert(all.last() == rest[0]);
    } else {
        lemma_joined_cons(first, rest.drop_last(), sep);
        assert(all.drop_last() =~= seq![first] + rest.drop_last());
        assert(all.last() == rest.last());
        assert(first + sep + joined(rest.drop_last(), sep) + sep + rest.last() =~= first + sep + (
        joined(rest.drop_last(), sep) + sep + rest.last()));
    }
}

/// The pieces joined again give the text back, and none of them holds what they were
/// split at.
pub proof fn lemma_pieces(s: Seq<char>, c: char)
    ensures
        pieces(s, c).len() > 0,
        joined(pieces(s, c), seq![c]) == s,
        forall|i: int| 0 <= i < pieces(s, c).len() ==> !(#[trigger] pieces(s, c)[i]).contains(c),
    decreases s.len(),
{
    let all = pieces(s, c);
    if s.len() == 0 {
        assert(joined(all, seq![c]) =~= s);
    } else {
        let front = s.drop_last();
        let before = pieces(front, c);
        lemma_pieces(front, c);
        if s.last() == c {
            assert(all.drop_last() =~= before);
            assert(joined(all, seq![c]) =~= s);
        } else {
            assert(all.drop_last() =~= before.drop_last());
            assert(joined(all, seq![c]) =~= joined(before, seq![c]).push(s.last()));
            assert(joined(all, seq![c]) =~= s);
            assert forall|i: int| 0 <= i < all.len() implies !(#[trigger] all[i]).contains(c) by {
                assert(!before[i].contains(c));
                if i == all.len() - 1 && all[i].contains(c) {
                    let k = choose|k: int| 0 <= k < all[i].len() && all[i][k] == c;
                    assert(before[i][k] == c);
                }
            }
        }
    }
}

/// A piece holds nothing that the whole does not hold.
pub proof fn lemma_pieces_hold(s: Seq<char>, c: char, j: int, d: char)
    requires
        0 <= j < pieces(s, c).len(),
        !s.contains(d),
    ensures
        !pieces(s, c)[j].contains(d),
    decreases s.len(),
{
    let all = pieces(s, c);
    if s.len() > 0 {
        let front = s.drop_last();
        let before = pieces(front, c);
        lemma_pieces(front, c);
        if front.contains(d) {
            let k = choose|k: int| 0 <= k < front.len() && front[k] == d;
            assert(s[k] == d);
        }
        if j < before.len() {
            lemma_pieces_hold(front, c, j, d);
        }
        if all[j].contains(d) {
            let k = choose|k: int| 0 <= k < all[j].len() && all[j][k] == d;
            if j < before.len() && k < before[j].len() {
                assert(before[j][k] == d);
            } else {
                assert(s[s.len() - 1] == d);
            }
        }
    }
}

proof fn lemma_pieces_append(s: Seq<char>, t: Seq<char>, c: char)
    requires
        !t.contains(c),
    ensures
        pieces(s + seq![c] + t, c) == pieces(s, c).push(t),
    decreases t.len(),
{
    let all = s + seq![c] + t;
    if t.len() == 0 {
        assert(all.drop_last() =~= s);
        assert(all.last() == c);
        assert(t =~= Seq::empty());
    } else {
        let u = t.drop_last();
        assert forall|k: int| 0 <= k < u.len() implies u[k] != c by {
            assert(t[k] != c);
        }
        lemma_pieces_append(s, u, c);
        assert(all.drop_last() =~= s + seq![c] + u);
        assert(all.last() == t.last());
        assert(t[t.len() - 1] != c);
        let before = pieces(s, c).push(u);
        assert(before.last() == u);
        assert(before.drop_last() =~= pieces(s, c));
        assert(u.push(t.last()) =~= t);
        assert(pieces(all, c) == before.drop_last().push(before.last().push(t.last())));
    }
}

/// A text without the separator is one piece.
pub proof fn lemma_one_piece(t: Seq<char>, c: char)
    requires
        !t.contains(c),
    ensures
        pieces(t, c) == seq![t],
    decreases t.len(),
{
    if t.len() == 0 {
        assert(t =~= Seq::empty());
    } else {
        let u = t.drop_last();
        assert forall|k: int| 0 <= k < u.len() implies u[k] != c by {
            assert(t[k] != c);
        }
        lemma_one_piece(u, c);
        assert(t[t.len() - 1] != c);
        let before = seq![u];
        assert(before.drop_last() =~= Seq::empty());
        assert(u.push(t.last()) =~= t);
        assert(pieces(t, c) == before.drop_last().push(before.last().push(t.last())));
    }
}

/// The last piece is what stands behind the last occurrence.
pub proof fn lemma_last_piece(s: Seq<char>, t: Seq<char>, c: char)
    requires
        !t.contains(c),
    ensures
        pieces(s + seq![c] + t, c) == pieces(s, c).push(t),
{
    lemma_pieces_append(s, t, c);
}

/// Joining and splitting again gives the pieces back.
pub proof fn lemma_joined_pieces(parts: Seq<Seq<char>>, c: char)
    requires
        parts.len() > 0,
        forall|i: int| 0 <= i < parts.len() ==> !(#[trigger] parts[i]).contains(c),
    ensures
        pieces(joined(parts, seq![c]), c) == parts,
    decreases parts.len(),
{
    if parts.len() == 1 {
        lemma_one_piece(parts[0], c);
        assert(parts =~= seq![parts[0]]);
    } else {
        let front = parts.drop_last();
        assert forall|i: int| 0 <= i < front.len() implies !(#[trigger] front[i]).contains(c) by {
            assert(front[i] == parts[i]);
        }
        lemma_joined_pieces(front, c);
        assert(!parts[parts.len() - 1].contains(c));
        lemma_pieces_append(joined(front, seq![c]), parts.last(), c);
        assert(front.push(parts.last()) =~= parts);
    }
}

/// What a piece but the first begins with stands in the whole behind a separator.
pub proof fn lemma_piece_start(parts: Seq<Seq<char>>, c: char, j: int, p: Seq<char>)
    requires
        1 <= j < parts.len(),
        has_prefix(parts[j], p),
    ensures
        has_part(joined(parts, seq![c]), seq![c] + p),
    decreases parts.len(),
{
    let front = joined(parts.drop_last(), seq![c]);
    let all = joined(parts, seq![c]);
    if j == parts.len() - 1 {
        let n = front.len() as int;
        assert(all.subrange(n, n + 1 + p.len()) =~= seq![c] + p) by {
            assert(parts[j].take(p.len() as int) == p);
            assert forall|k: int| 0 <= k < p.len() implies all[front.len() + 1 + k] == p[k] by {
                assert(parts[j].take(p.len() as int)[k] == p[k]);
            }
        }
        assert(occurs_at(all, seq![c] + p, front.len() as int));
    } else {
        lemma_piece_start(parts.drop_last(), c, j, p);
        let i = choose|i: int| occurs_at(front, seq![c] + p, i);
        assert(all.subrange(i, i + 1 + p.len()) =~= front.subrange(i, i + 1 + p.len()));
        assert(occurs_at(all, seq![c] + p, i));
    }
}

/// What stands in the whole behind a separator, a piece but the first begins with.
pub proof fn lemma_behind_separator(
    parts: Seq<Seq<char>>,
    c: char,
    p: Seq<char>,
    q: int,
) -> (j: int)
    requires
        parts.len() > 0,
        forall|i: int| 0 <= i < parts.len() ==> !(#[trigger] parts[i]).contains(c),
        !p.contains(c),
        occurs_at(joined(parts, seq![c]), seq![c] + p, q),
    ensures
        1 <= j < parts.len(),
        has_prefix(parts[j], p),
    decreases parts.len(),
{
    let all = joined(parts, seq![c]);
    let sep = seq![c] + p;
    assert forall|k: int| 0 <= k < sep.len() implies all[q + k] == sep[k] by {
        assert(all.subrange(q, q + sep.len())[k] == sep[k]);
    }
    assert(all[q] == sep[0]);
    let last = parts.last();
    assert(!parts[parts.len() - 1].contains(c));
    if parts.len() == 1 {
        assert(parts[0][q] == c);
        0
    } else {
        let before = parts.drop_last();
        let front = joined(before, seq![c]);
        let n = front.len() as int;
        if q > n {
            assert(last[q - n - 1] == c);
            0
        } else if q == n {
            assert(last.take(p.len() as int) =~= p) by {
                assert forall|k: int| 0 <= k < p.len() implies last[k] == p[k] by {
                    assert(all[q + (k + 1)] == sep[k + 1]);
                }
            }
            parts.len() - 1
        } else if q + sep.len() <= n {
            assert(front.subrange(q, q + sep.len()) =~= all.subrange(q, q + sep.len()));
            assert forall|i: int| 0 <= i < before.len() implies !(#[trigger] before[i]).contains(
                c,
            ) by {
                assert(before[i] == parts[i]);
            }
            lemma_behind_separator(before, c, p, q)
        } else {
            assert(all[n] == c);
            assert(all[q + (n - q)] == sep[n - q]);
            assert(p[n - q - 1] == c);
            0
        }
    }
}

/// What a piece but the last ends with stands in the whole before a separator.
pub proof fn lemma_piece_end(parts: Seq<Seq<char>>, c: char, j: int, e: char)
    requires
        0 <= j < parts.len() - 1,
        parts[j].len() > 0,
        parts[j].last() == e,
    ensures
        has_part(joined(parts, seq![c]), seq![e, c]),
    decreases parts.len(),
{
    let before = parts.drop_last();
    let front = joined(before, seq![c]);
    let all = joined(parts, seq![c]);
    let n = front.len() as int;
    if j == parts.len() - 2 {
        assert(front.len() > 0 && front.last() == e) by {
            if before.len() > 1 {
                assert(before.last() == parts[j]);
            } else {
                assert(before[0] == parts[j]);
            }
        }
        assert(all.subrange(n - 1, n + 1) =~= seq![e, c]);
        assert(occurs_at(all, seq![e, c], n - 1));
    } else {
        lemma_piece_end(before, c, j, e);
        let i = choose|i: int| occurs_at(front, seq![e, c], i);
        assert(all.subrange(i, i + 2) =~= front.subrange(i, i + 2));
        assert(occurs_at(all, seq![e, c], i));
    }
}

/// What neither the parts nor the separator hold, the joined text does not hold.
pub proof fn lemma_joined_lacks(parts: Seq<Seq<char>>, sep: Seq<char>, c: char)
    requires
        forall|i: int| 0 <= i < parts.len() ==> !(#[trigger] parts[i]).contains(c),
        !sep.contains(c),
    ensures
        !joined(parts, sep).contains(c),
    decreases parts.len(),
{
    let all = joined(parts, sep);
    if parts.len() == 1 {
        assert(!parts[0].contains(c));
    } else if parts.len() > 1 {
        let before = parts.drop_last();
        assert forall|i: int| 0 <= i < before.len() implies !(#[trigger] before[i]).contains(c) by {
            assert(before[i] == parts[i]);
        }
        lemma_joined_lacks(before, sep, c);
        let front = joined(before, sep);
        let n = front.len() as int;
        assert(!parts[parts.len() - 1].contains(c));
        if all.contains(c) {
            let k = choose|k: int| 0 <= k < all.len() && all[k] == c;
            if k < n {
                assert(front[k] == c);
            } else if k < n + sep.len() {
                assert(sep[k - n] == c);
            } else {
                assert(parts.last()[k - n - sep.len()] == c);
            }
        }
    }
}

/// The pieces between separators hold no separator, and nothing that the whole does
/// not hold.
pub proof fn lemma_split_pieces(s: Seq<char>, sep: Seq<char>)
    requires
        sep.len() > 0,
    ensures
        forall|i: int|
            0 <= i < split_by(s, sep).len() ==> !has_part(#[trigger] split_by(s, sep)[i], sep),
        forall|i: int, c: char|
            0 <= i < split_by(s, sep).len() && (#[trigger] split_by(s, sep)[i]).contains(c)
                ==> #[trigger] s.contains(c),
    decreases s.len(),
{
    lemma_find_from(s, sep, 0);
    match find_from(s, sep, 0) {
        Some(i) => {
            let head = s.take(i);
            let tail = s.skip(i + sep.len());
            lemma_split_pieces(tail, sep);
            let all = split_by(s, sep);
            let rest = split_by(tail, sep);
            assert(all == seq![head] + rest);
            assert forall|k: int| 0 <= k < all.len() implies !has_part(#[trigger] all[k], sep) by {
                if k == 0 {
                    if has_part(head, sep) {
                        let j = choose|j: int| occurs_at(head, sep, j);
                        assert(s.subrange(j, j + sep.len()) =~= head.subrange(j, j + sep.len()));
                        assert(occurs_at(s, sep, j));
                    }
                } else {
                    assert(all[k] == rest[k - 1]);
                }
            }
            assert forall|k: int, c: char|
                0 <= k < all.len() && (#[trigger] all[k]).contains(c) implies #[trigger] s.contains(
                c,
            ) by {
                if k == 0 {
                    let x = choose|x: int| 0 <= x < head.len() && head[x] == c;
                    assert(s[x] == c);
                } else {
                    assert(all[k] == rest[k - 1]);
                    assert(tail.contains(c));
                    let x = choose|x: int| 0 <= x < tail.len() && tail[x] == c;
                    assert(s[x + i + sep.len()] == c);
                }
            }
        },
        None => {
            assert(split_by(s, sep) == seq![s]);
            if has_part(s, sep) {
                let j = choose|j: int| occurs_at(s, sep, j);
                assert(!occurs_at(s, sep, j));
            }
        },
    }
}

/// Joining and splitting again gives the parts back, where none of them holds the
/// separator and the separator does not overlap itself.
pub proof fn lemma_joined_split(parts: Seq<Seq<char>>, sep: Seq<char>)
    requires
        parts.len() > 0,
        sep.len() > 0,
        forall|k: int| 1 <= k < sep.len() ==> #[trigger] sep[k] != sep[0],
        forall|i: int| 0 <= i < parts.len() ==> !has_part(#[trigger] parts[i], sep),
    ensures
        split_by(joined(parts, sep), sep) == parts,
    decreases parts.len(),
{
    let s = joined(parts, sep);
    lemma_find_from(s, sep, 0);
    let first = parts[0];
    assert(!has_part(first, sep));
    if parts.len() == 1 {
        if find_from(s, sep, 0) is Some {
            assert(occurs_at(first, sep, find_from(s, sep, 0)->0));
        }
        assert(split_by(s, sep) =~= parts);
    } else {
        let rest = parts.drop_first();
        assert(parts =~= seq![first] + rest);
        lemma_joined_cons(first, rest, sep);
        let tail = joined(rest, sep);
        let n = first.len() as int;
        assert(s == first + sep + tail);
        assert(s.subrange(n, n + sep.len()) =~= sep);
        assert(occurs_at(s, sep, n));
        let i = find_from(s, sep, 0)->0;
        assert(i <= n);
        if i < n {
            assert(occurs_at(s, sep, i));
            if i + sep.len() <= n {
                assert(first.subrange(i, i + sep.len()) =~= s.subrange(i, i + sep.len()));
                assert(occurs_at(first, sep, i));
            } else {
                assert(s.subrange(i, i + sep.len())[n - i] == sep[n - i]);
                assert(s[n] == sep[0]);
            }
        }
        assert(i == n);
        assert forall|k: int| 0 <= k < rest.len() implies !has_part(#[trigger] rest[k], sep) by {
            assert(rest[k] == parts[k + 1]);
        }
        lemma_joined_split(rest, sep);
        assert(s.take(n) =~= first);
        assert(s.skip(n + sep.len()) =~= tail);
    }
}

// ---------------------------------------------------------------------------
// Rewriting
// ---------------------------------------------------------------------------

/// `s` with every `c` replaced by `by`.
pub open spec fn replaced(s: Seq<char>, c: char, by: Seq<char>) -> Seq<char>
    decreases s.len(),
{
    if s.len() == 0 {
        Seq::empty()
    } else if s.last() == c {
        replaced(s.drop_last(), c, by) + by
    } else {
        replaced(s.drop_last(), c, by).push(s.last())
    }
}

/// Replaces every `c` of `s` by `by`.
pub fn replace_char(s: &str, c: char, by: &str) -> (r: String)
    ensures
        r@ == replaced(s@, c, by@),
{
    let v = chars_of(s);
    let mut r = String::new();
    let mut i: usize = 0;
    while i < v.len()
        invariant
            v@ == s@,
            i <= v@.len(),
            r@ == replaced(s@.take(i as int), c, by@),
        decreases v@.len() - i,
    {
        let x = v[i];
        assert(s@.take(i + 1).drop_last() =~= s@.take(i as int));
        if x == c {
            r.append(by);
        } else {
            r.push(x);
        }
        i += 1;
    }
    assert(s@.take(i as int) =~= s@);
    r
}

/// The ASCII letters `A` to `Z` as `a` to `z`; any other character as it is.
pub open spec fn lower_char(c: char) -> char {
    if 'A' <= c && c <= 'Z' {
        ((c as u32 + 32) as u8) as char
    } else {
        c
    }
}

/// `c` as an ASCII letter or digit.
pub open spec fn is_alnum(c: char) -> bool {
    ('a' <= c && c <= 'z') || ('A' <= c && c <= 'Z') || ('0' <= c && c <= '9')
}

/// Whether `c` is an ASCII letter or digit.
pub fn alnum(c: char) -> (r: bool)
    ensures
        r == is_alnum(c),
{
    ('a' <= c && c <= 'z') || ('A' <= c && c <= 'Z') || ('0' <= c && c <= '9')
}

/// The lower-case form of an ASCII letter; any other character as it is.
pub fn to_lower_char(c: char) -> (r: char)
    ensures
        r == lower_char(c),
{
    if 'A' <= c && c <= 'Z' {
        (c as u8 + 32) as char
    } else {
        c
    }
}

/// `s` with a dash for every character that is no ASCII letter or digit.
pub open spec fn dashed(s: Seq<char>) -> Seq<char> {
    Seq::new(
        s.len(),
        |i: int|
            if is_alnum(s[i]) {
                s[i]
            } else {
                '-'
            },
    )
}

/// `s` with a dash for every character that is no ASCII letter or digit.
pub fn to_dashed(s: &str) -> (r: String)
    ensures
        r@ == dashed(s@),
{
    let v = chars_of(s);
    let mut r = String::new();
    let mut i: usize = 0;
    while i < v.len()
        invariant
            v@ == s@,
            i <= v@.len(),
            r@ == dashed(s@).take(i as int),
        decreases v@.len() - i,
    {
        let c = v[i];
        let ghost before = r@;
        if alnum(c) {
            r.push(c);
        } else {
            r.push('-');
        }
        i += 1;
        assert(dashed(s@).take(i as int) =~= before.push(dashed(s@)[i - 1]));
    }
    assert(dashed(s@).take(i as int) =~= dashed(s@));
    r
}

/// `s` with its ASCII letters in lower case.
pub open spec fn ascii_lower(s: Seq<char>) -> Seq<char> {
    Seq::new(s.len(), |i: int| lower_char(s[i]))
}

/// `s` with its ASCII letters in lower case.
pub fn to_ascii_lower(s: &str) -> (r: String)
    ensures
        r@ == ascii_lower(s@),
{
    let v = chars_of(s);
    let mut r = String::new();
    let mut i: usize = 0;
    while i < v.len()
        invariant
            v@ == s@,
            i <= v@.len(),
            r@ == ascii_lower(s@).take(i as int),
        decreases v@.len() - i,
    {
        r.push(to_lower_char(v[i]));
        i += 1;
        assert(ascii_lower(s@).take(i as int) =~= ascii_lower(s@).take(i - 1).push(
            lower_char(s@[i - 1]),
        ));
    }
    assert(ascii_lower(s@).take(i as int) =~= ascii_lower(s@));
    r
}

/// The ASCII letters `a` to `z` as `A` to `Z`; any other character as it is.
pub open spec fn upper_char(c: char) -> char {
    if 'a' <= c && c <= 'z' {
        ((c as u32 - 32) as u8) as char
    } else {
        c
    }
}

/// The upper-case form of an ASCII letter; any other character as it is.
pub fn to_upper_char(c: char) -> (r: char)
    ensures
        r == upper_char(c),
{
    if 'a' <= c && c <= 'z' {
        (c as u8 - 32) as char
    } else {
        c
    }
}

/// `s` with its ASCII letters in upper case.
pub open spec fn ascii_upper(s: Seq<char>) -> Seq<char> {
    Seq::new(s.len(), |i: int| upper_char(s[i]))
}

/// `s` with its ASCII letters in upper case.
pub fn to_ascii_upper(s: &str) -> (r: String)
    ensures
        r@ == ascii_upper(s@),
{
    let v = chars_of(s);
    let mut r = String::new();
    let mut i: usize = 0;
    while i < v.len()
        invariant
            v@ == s@,
            i <= v@.len(),
            r@ == ascii_upper(s@).take(i as int),
        decreases v@.len() - i,
    {
        r.push(to_upper_char(v[i]));
        i += 1;
        assert(ascii_upper(s@).take(i as int) =~= ascii_upper(s@).take(i - 1).push(
            upper_char(s@[i - 1]),
        ));
    }
    assert(ascii_upper(s@).take(i as int) =~= ascii_upper(s@));
    r
}

// ---------------------------------------------------------------------------
// Decimal numbers
// ---------------------------------------------------------------------------

/// The decimal digit for `n < 10`.
pub open spec fn digit(n: nat) -> char {
    (48 + n) as u8 as char
}

/// `n` in decimal, without leading zeros.
pub open spec fn dec(n: nat) -> Seq<char>
    decreases n,
{
    if n < 10 {
        seq![digit(n)]
    } else {
        dec(n / 10).push(digit(n % 10))
    }
}

/// `n` in decimal, with a sign if it is negative.
pub open spec fn dec_int(n: int) -> Seq<char> {
    if n < 0 {
        seq!['-'] + dec((-n) as nat)
    } else {
        dec(n as nat)
    }
}

/// A number in decimal is made of digits.
pub proof fn lemma_dec_digits(n: nat)
    ensures
        dec(n).len() >= 1,
        forall|i: int| 0 <= i < dec(n).len() ==> '0' <= #[trigger] dec(n)[i] && dec(n)[i] <= '9',
    decreases n,
{
    if n >= 10 {
        lemma_dec_digits(n / 10);
        let front = dec(n / 10);
        assert(dec(n) =~= front.push(digit(n % 10)));
        assert forall|i: int| 0 <= i < dec(n).len() implies '0' <= #[trigger] dec(n)[i] && dec(n)[i]
            <= '9' by {
            if i < front.len() {
                assert(dec(n)[i] == front[i]);
            }
        }
    }
}

/// Different numbers are written differently.
pub proof fn lemma_dec_differs(a: nat, b: nat)
    requires
        dec(a) == dec(b),
    ensures
        a == b,
    decreases a,
{
    lemma_dec_digits(a / 10);
    lemma_dec_digits(b / 10);
    assert(dec(a).last() == digit(a % 10));
    assert(dec(b).last() == digit(b % 10));
    if a >= 10 && b >= 10 {
        assert(dec(a).drop_last() =~= dec(a / 10));
        assert(dec(b).drop_last() =~= dec(b / 10));
        lemma_dec_differs(a / 10, b / 10);
    }
}

/// Texts that end in a dash and different numbers differ.
pub proof fn lemma_numbered_differ(front: Seq<char>, a: nat, front2: Seq<char>, b: nat)
    requires
        a != b,
    ensures
        front + "-"@ + dec(a) != front2 + "-"@ + dec(b),
{
    reveal_strlit("-");
    lemma_dec_digits(a);
    lemma_dec_digits(b);
    let x = front + "-"@ + dec(a);
    let y = front2 + "-"@ + dec(b);
    if x == y {
        let (na, nb) = (dec(a).len() as int, dec(b).len() as int);
        assert(x[x.len() - na - 1] == '-');
        assert(y[y.len() - nb - 1] == '-');
        if na < nb {
            assert(y[y.len() - na - 1] == dec(b)[nb - na - 1]);
        } else if nb < na {
            assert(x[x.len() - nb - 1] == dec(a)[na - nb - 1]);
        } else {
            assert(dec(a) =~= x.skip(x.len() - na));
            assert(dec(b) =~= y.skip(y.len() - nb));
            lemma_dec_differs(a, b);
        }
    }
}

fn push_dec(s: &mut String, n: u64)
    ensures
        final(s)@ == old(s)@ + dec(n as nat),
    decreases n,
{
    if n < 10 {
        s.push((48 + n as u8) as char);
        assert(old(s)@ + dec(n as nat) =~= old(s)@.push(digit(n as nat)));
    } else {
        push_dec(s, n / 10);
        s.push((48 + (n % 10) as u8) as char);
        assert(old(s)@ + dec(n as nat) =~= (old(s)@ + dec((n / 10) as nat)).push(
            digit((n % 10) as nat),
        ));
    }
}

/// `n` in decimal.
pub fn dec_u64(n: u64) -> (r: String)
    ensures
        r@ == dec(n as nat),
{
    let mut s = String::new();
    push_dec(&mut s, n);
    assert(s@ =~= dec(n as nat));
    s
}

/// `n` in decimal.
pub fn dec_i64(n: i64) -> (r: String)
    ensures
        r@ == dec_int(n as int),
{
    let mut s = String::new();
    if n < 0 {
        s.push('-');
        let m: u64 = (-(n as i128)) as u64;
        push_dec(&mut s, m);
        assert(s@ =~= seq!['-'] + dec(m as nat));
    } else {
        push_dec(&mut s, n as u64);
        assert(s@ =~= dec(n as nat));
    }
    s
}

// ---------------------------------------------------------------------------
// Order
// ---------------------------------------------------------------------------

/// `a` comes before `b` in the order of strings: by the first character that
/// differs, a proper prefix first.
pub open spec fn sorts_before(a: Seq<char>, b: Seq<char>) -> bool
    decreases a.len(),
{
    if b.len() == 0 {
        false
    } else if a.len() == 0 {
        true
    } else if a[0] == b[0] {
        sorts_before(a.drop_first(), b.drop_first())
    } else {
        a[0] < b[0]
    }
}

/// Whether `a` comes before `b`.
pub fn less(a: &str, b: &str) -> (r: bool)
    ensures
        r == sorts_before(a@, b@),
{
    let x = chars_of(a);
    let y = chars_of(b);
    let mut i: usize = 0;
    assert(a@.skip(0) =~= a@);
    assert(b@.skip(0) =~= b@);
    while i < x.len() && i < y.len() && x[i] == y[i]
        invariant
            x@ == a@,
            y@ == b@,
            i <= x@.len(),
            i <= y@.len(),
            sorts_before(a@, b@) == sorts_before(a@.skip(i as int), b@.skip(i as int)),
        decreases x@.len() - i,
    {
        assert(a@.skip(i as int).drop_first() =~= a@.skip(i + 1));
        assert(b@.skip(i as int).drop_first() =~= b@.skip(i + 1));
        i += 1;
    }
    if i >= y.len() {
        false
    } else if i >= x.len() {
        true
    } else {
        x[i] < y[i]
    }
}

/// No text comes before itself.
pub proof fn lemma_sorts_irreflexive(a: Seq<char>)
    ensures
        !sorts_before(a, a),
    decreases a.len(),
{
    if a.len() > 0 {
        lemma_sorts_irreflexive(a.drop_first());
    }
}

/// Of two different texts one comes before the other.
pub proof fn lemma_sorts_total(a: Seq<char>, b: Seq<char>)
    ensures
        sorts_before(a, b) || sorts_before(b, a) || a == b,
        !(sorts_before(a, b) && sorts_before(b, a)),
    decreases a.len(),
{
    if a.len() > 0 && b.len() > 0 && a[0] == b[0] {
        lemma_sorts_total(a.drop_first(), b.drop_first());
        if a.drop_first() == b.drop_first() {
            assert(a =~= seq![a[0]] + a.drop_first());
            assert(b =~= seq![b[0]] + b.drop_first());
            assert(a =~= b);
        }
    } else if a.len() == 0 && b.len() == 0 {
        assert(a =~= b);
    }
}

/// The order of texts is transitive.
pub proof fn lemma_sorts_transitive(a: Seq<char>, b: Seq<char>, c: Seq<char>)
    requires
        sorts_before(a, b),
        sorts_before(b, c),
    ensures
        sorts_before(a, c),
    decreases a.len(),
{
    if a.len() > 0 && a[0] == b[0] && b[0] == c[0] {
        lemma_sorts_transitive(a.drop_first(), b.drop_first(), c.drop_first());
    }
}

// ---------------------------------------------------------------------------
// Laws
// ---------------------------------------------------------------------------

proof fn lemma_trimmed_start(s: Seq<char>) -> (n: int)
    ensures
        0 <= n <= s.len(),
        trimmed_start(s) == s.skip(n),
        forall|k: int| 0 <= k < n ==> is_space(#[trigger] s[k]),
        n < s.len() ==> !is_space(s[n]),
    decreases s.len(),
{
    if s.len() > 0 && is_space(s[0]) {
        let n = lemma_trimmed_start(s.drop_first()) + 1;
        assert(s.drop_first().skip(n - 1) =~= s.skip(n));
        assert forall|k: int| 0 <= k < n implies is_space(#[trigger] s[k]) by {
            if k > 0 {
                assert(s.drop_first()[k - 1] == s[k]);
            }
        }
        n
    } else {
        assert(s.skip(0) =~= s);
        0
    }
}

proof fn lemma_trimmed_end(s: Seq<char>) -> (n: int)
    ensures
        0 <= n <= s.len(),
        trimmed_end(s) == s.take(n),
        forall|k: int| n <= k < s.len() ==> is_space(#[trigger] s[k]),
        n > 0 ==> !is_space(s[n - 1]),
    decreases s.len(),
{
    if s.len() > 0 && is_space(s.last()) {
        let n = lemma_trimmed_end(s.drop_last());
        assert(s.drop_last().take(n) =~= s.take(n));
        assert forall|k: int| n <= k < s.len() implies is_space(#[trigger] s[k]) by {
            if k < s.len() - 1 {
                assert(s.drop_last()[k] == s[k]);
            }
        }
        n
    } else {
        assert(s.take(s.len() as int) =~= s);
        s.len() as int
    }
}

/// What is trimmed has nothing left to be trimmed off.
pub proof fn lemma_trimmed_again(s: Seq<char>)
    ensures
        trimmed(trimmed(s)) == trimmed(s),
{
    let i = lemma_trimmed_start(s);
    let t = s.skip(i);
    let n = lemma_trimmed_end(t);
    let u = t.take(n);
    if n > 0 {
        assert(u[0] == s[i]);
        assert(u.last() == t[n - 1]);
    }
}

/// What is trimmed off a text is white space at its two ends, all of it and nothing else.
pub proof fn law_white_space_is_trimmed_off(s: &str, r: &str)
    requires
        call_ensures(trim, (s,), r),
    ensures
        exists|i: int, j: int| #[trigger]
            s@.subrange(i, j) == r@ && 0 <= i <= j <= s@.len() && (forall|k: int|
                0 <= k < s@.len() && (k < i || j <= k) ==> is_space(#[trigger] s@[k])),
        r@.len() > 0 ==> !is_space(r@[0]) && !is_space(r@.last()),
{
    let i = lemma_trimmed_start(s@);
    let t = s@.skip(i);
    let n = lemma_trimmed_end(t);
    let j = i + n;
    assert(s@.subrange(i, j) =~= t.take(n));
    assert forall|k: int| 0 <= k < s@.len() && (k < i || j <= k) implies is_space(#[trigger] s@[k]) by {
        if j <= k {
            assert(t[k - i] == s@[k]);
        }
    }
    if r@.len() > 0 {
        assert(r@[0] == s@[i]);
        assert(r@.last() == t[n - 1]);
    }
}

pub proof fn lemma_without_end(s: Seq<char>, c: char) -> (n: int)
    ensures
        0 <= n <= s.len(),
        without_end(s, c) == s.take(n),
        forall|k: int| n <= k < s.len() ==> #[trigger] s[k] == c,
        n > 0 ==> s[n - 1] != c,
    decreases s.len(),
{
    if s.len() > 0 && s.last() == c {
        let n = lemma_without_end(s.drop_last(), c);
        assert(s.drop_last().take(n) =~= s.take(n));
        assert forall|k: int| n <= k < s.len() implies #[trigger] s[k] == c by {
            if k < s.len() - 1 {
                assert(s.drop_last()[k] == s[k]);
            }
        }
        n
    } else {
        assert(s.take(s.len() as int) =~= s);
        s.len() as int
    }
}

pub proof fn lemma_without_start(s: Seq<char>, c: char) -> (n: int)
    ensures
        0 <= n <= s.len(),
        without_start(s, c) == s.skip(n),
        forall|k: int| 0 <= k < n ==> #[trigger] s[k] == c,
        n < s.len() ==> s[n] != c,
    decreases s.len(),
{
    if s.len() > 0 && s[0] == c {
        let n = lemma_without_start(s.drop_first(), c) + 1;
        assert(s.drop_first().skip(n - 1) =~= s.skip(n));
        assert forall|k: int| 0 <= k < n implies #[trigger] s[k] == c by {
            if k > 0 {
                assert(s.drop_first()[k - 1] == s[k]);
            }
        }
        n
    } else {
        assert(s.skip(0) =~= s);
        0
    }
}

/// What is taken off the end or the start of a text is the run of one character there, all of
/// it and nothing else.
pub proof fn law_runs_at_the_ends_are_taken_off(s: &str, c: char, front: &str, back: &str)
    requires
        call_ensures(trim_end_char, (s, c), front),
        call_ensures(trim_start_char, (s, c), back),
    ensures
        exists|n: int| #[trigger]
            s@.take(n) == front@ && 0 <= n <= s@.len() && (forall|k: int|
                n <= k < s@.len() ==> #[trigger] s@[k] == c),
        front@.len() > 0 ==> front@.last() != c,
        exists|n: int| #[trigger]
            s@.skip(n) == back@ && 0 <= n <= s@.len() && (forall|k: int|
                0 <= k < n ==> #[trigger] s@[k] == c),
        back@.len() > 0 ==> back@[0] != c,
{
    let n = lemma_without_end(s@, c);
    assert(s@.take(n) == front@);
    let m = lemma_without_start(s@, c);
    assert(s@.skip(m) == back@);
}

/// The lines of a text that ends in a line feed are what stands between the line feeds.
pub proof fn law_lines_stand_between_line_feeds(s: &str, r: Vec<String>, i: int)
    requires
        call_ensures(lines, (s,), r),
    ensures
        r@.len() == pieces(s@, '\n').len() - (if s@.len() == 0 || s@.last() == '\n' {
            1int
        } else {
            0int
        }),
        0 <= i < r@.len() ==> ({
            let piece = pieces(s@, '\n')[i];
            ||| r@[i]@ == piece
            ||| i < pieces(s@, '\n').len() - 1 && piece == r@[i]@.push('\r')
        }),
        0 <= i < r@.len() && i < pieces(s@, '\n').len() - 1 && pieces(s@, '\n')[i].len() > 0
            && pieces(s@, '\n')[i].last() == '\r' ==> pieces(s@, '\n')[i] == r@[i]@.push('\r'),
{
    let all = pieces(s@, '\n');
    let t = texts(r@);
    lemma_pieces_nonempty(s@, '\n');
    assert(t.len() == r@.len());
    assert(all.last().len() == 0 <==> s@.len() == 0 || s@.last() == '\n') by {
        if s@.len() > 0 {
            lemma_pieces_nonempty(s@.drop_last(), '\n');
        }
    }
    if 0 <= i < r@.len() {
        assert(t[i] == r@[i]@);
        let p = all[i];
        if p.len() > 0 && p.last() == '\r' {
            assert(p =~= p.drop_last().push('\r'));
        }
    }
}

proof fn lemma_char_from_here(s: Seq<char>, c: char, from: int, i: int)
    requires
        0 <= from <= i < s.len(),
        s[i] == c,
        forall|k: int| from <= k < i ==> #[trigger] s[k] != c,
    ensures
        char_from(s, c, from) == Some(i),
    decreases i - from,
{
    if from < i {
        lemma_char_from_here(s, c, from + 1, i);
    }
}

/// A text is split at the first of the characters: what stands before it holds none.
pub proof fn law_split_at_the_first<'a>(
    s: &'a str,
    a: Seq<char>,
    b: Seq<char>,
    c: char,
    r: Option<(&'a str, &'a str)>,
)
    requires
        call_ensures(split_once, (s, c), r),
    ensures
        s@ == a.push(c) + b && !a.contains(c) ==> (r matches Some((x, y)) && x@ == a && y@ == b),
        !s@.contains(c) ==> r is None,
{
    if s@ == a.push(c) + b && !a.contains(c) {
        let n = a.len() as int;
        assert(s@[n] == c);
        assert forall|k: int| 0 <= k < n implies #[trigger] s@[k] != c by {
            assert(a[k] == s@[k]);
            assert(a.contains(a[k]));
        }
        lemma_char_from_here(s@, c, 0, n);
        assert(s@.take(n) =~= a);
        assert(s@.skip(n + 1) =~= b);
    }
    lemma_char_from(s@, c, 0);
    if r is Some {
        let i = char_from(s@, c, 0)->0;
        assert(s@.contains(s@[i]));
    }
}

/// Only the letters change their case, each into the letter thirty-two further on or back.
pub proof fn law_letters_change_their_case(c: char, lower: char, upper: char, r: bool)
    requires
        call_ensures(to_lower_char, (c,), lower),
        call_ensures(to_upper_char, (c,), upper),
        call_ensures(alnum, (c,), r),
    ensures
        65 <= c as u32 <= 90 ==> lower as u32 == c as u32 + 32 && upper == c,
        97 <= c as u32 <= 122 ==> upper as u32 == c as u32 - 32 && lower == c,
        !(65 <= c as u32 <= 90) && !(97 <= c as u32 <= 122) ==> lower == c && upper == c,
        r <==> 65 <= c as u32 <= 90 || 97 <= c as u32 <= 122 || 48 <= c as u32 <= 57,
{
}

/// Every character that is no letter and no digit is a dash, and the others stay.
pub proof fn law_dashes_stand_for_the_rest(s: &str, r: String, i: int)
    requires
        call_ensures(to_dashed, (s,), r),
        0 <= i < s@.len(),
    ensures
        r@.len() == s@.len(),
        ({
            let c = s@[i];
            if ('A' <= c && c <= 'Z') || ('a' <= c && c <= 'z') || ('0' <= c && c <= '9') {
                r@[i] == c
            } else {
                r@[i] == '-'
            }
        }),
{
}

/// What a run of decimal digits stands for.
pub open spec fn digits_stand_for(s: Seq<char>) -> int {
    s.fold_left(0int, |n: int, c: char| 10 * n + (c as u32 - 48))
}

proof fn lemma_dec_stands_for(n: nat)
    ensures
        digits_stand_for(dec(n)) == n,
        n > 0 ==> dec(n)[0] != '0',
    decreases n,
{
    reveal_with_fuel(Seq::fold_left, 2);
    let f = |n: int, c: char| 10 * n + (c as u32 - 48);
    if n < 10 {
        assert(dec(n).drop_last() =~= Seq::empty());
        assert(dec(n).last() == digit(n));
    } else {
        lemma_dec_stands_for(n / 10);
        lemma_dec_digits(n / 10);
        assert(dec(n).drop_last() =~= dec(n / 10));
        assert(dec(n).last() == digit(n % 10));
        assert(dec(n)[0] == dec(n / 10)[0]);
    }
}

/// A number is written in decimal digits that stand for it, without a zero in front.
pub proof fn law_numbers_are_written_in_decimal(n: u64, r: String)
    requires
        call_ensures(dec_u64, (n,), r),
    ensures
        digits_stand_for(r@) == n,
        r@.len() >= 1,
        forall|i: int| 0 <= i < r@.len() ==> '0' <= #[trigger] r@[i] && r@[i] <= '9',
        r@[0] == '0' ==> n == 0 && r@.len() == 1,
{
    lemma_dec_stands_for(n as nat);
    lemma_dec_digits(n as nat);
}

/// A negative number is a minus before the number without it.
pub proof fn law_negative_numbers_have_a_minus(n: i64, r: String)
    requires
        call_ensures(dec_i64, (n,), r),
    ensures
        n >= 0 ==> digits_stand_for(r@) == n && r@[0] != '-',
        n < 0 ==> r@[0] == '-' && digits_stand_for(r@.skip(1)) == -n,
{
    if n < 0 {
        lemma_dec_stands_for((-n) as nat);
        assert(r@.skip(1) =~= dec((-n) as nat));
    } else {
        lemma_dec_stands_for(n as nat);
        lemma_dec_digits(n as nat);
    }
}

proof fn lemma_sorts_at(a: Seq<char>, b: Seq<char>, k: int)
    requires
        0 <= k <= a.len(),
        k <= b.len(),
        a.take(k) == b.take(k),
        (k == a.len() && k < b.len()) || (k < a.len() && k < b.len() && a[k] < b[k]),
    ensures
        sorts_before(a, b),
    decreases k,
{
    if k > 0 {
        assert(a[0] == a.take(k)[0] && b[0] == b.take(k)[0]);
        assert(a.drop_first().take(k - 1) =~= a.take(k).drop_first());
        assert(b.drop_first().take(k - 1) =~= b.take(k).drop_first());
        lemma_sorts_at(a.drop_first(), b.drop_first(), k - 1);
    }
}

/// The first character that differs decides which text comes first; one that goes on where
/// the other ends comes after it.
pub proof fn law_first_difference_decides(
    a: &str,
    b: &str,
    k: int,
    less_ab: bool,
    less_ba: bool,
)
    requires
        call_ensures(less, (a, b), less_ab),
        call_ensures(less, (b, a), less_ba),
        0 <= k <= a@.len(),
        k <= b@.len(),
        a@.take(k) == b@.take(k),
        (k == a@.len() && k < b@.len()) || (k < a@.len() && k < b@.len() && a@[k] < b@[k]),
    ensures
        less_ab,
        !less_ba,
{
    lemma_sorts_at(a@, b@, k);
    lemma_sorts_total(a@, b@);
}

} // verus!
