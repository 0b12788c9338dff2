//! Unix paths as text.
use crate::error::{other, AppResult};
use crate::text::{
    cat2, cat3, contains, has_prefix, has_suffix, last_char, lemma_last_piece, no_texts, opt_text,
    pieces, push_text, rfind_char, same, split, starts_with, strip_suffix, texts,
};
use vstd::prelude::*;

verus! {

/// The parts of a path that name something: neither empty nor `.`.
pub open spec fn named_parts(ps: Seq<Seq<char>>) -> Seq<Seq<char>>
    decreases ps.len(),
{
    if ps.len() == 0 {
        Seq::empty()
    } else {
        let front = named_parts(ps.drop_last());
        if ps.last().len() == 0 || ps.last() == "."@ {
            front
        } else {
            front.push(ps.last())
        }
    }
}

/// The parts of a path that name something.
pub open spec fn parts(path: Seq<char>) -> Seq<Seq<char>> {
    named_parts(pieces(path, '/'))
}

/// The parts of a path that name something.
pub fn path_parts(path: &str) -> (r: Vec<String>)
    ensures
        texts(r@) == parts(path@),
{
    let ps = split(path, '/');
    let ghost all = texts(ps@);
    let mut out = no_texts();
    let mut i: usize = 0;
    assert(all.take(0) =~= Seq::empty());
    while i < ps.len()
        invariant
            i <= ps@.len(),
            all == texts(ps@),
            texts(out@) == named_parts(all.take(i as int)),
        decreases ps@.len() - i,
    {
        assert(all.take(i + 1).drop_last() =~= all.take(i as int));
        assert(all[i as int] == ps@[i as int]@);
        let p = ps[i].as_str();
        if !p.is_empty() && !same(p, ".") {
            push_text(&mut out, p);
        }
        i += 1;
    }
    assert(all.take(i as int) =~= all);
    out
}

/// The name at the end of a path. A path that ends in `..` has none.
pub open spec fn name_of(path: Seq<char>) -> Option<Seq<char>> {
    let ps = parts(path);
    if ps.len() == 0 || ps.last() == ".."@ {
        None
    } else {
        Some(ps.last())
    }
}

/// The name at the end of a path. A path that ends in `..` has none.
pub fn file_name(path: &str) -> (r: Option<String>)
    ensures
        opt_text(r) == name_of(path@),
{
    let ps = path_parts(path);
    assert(texts(ps@).len() == ps@.len());
    if ps.len() == 0 {
        return None;
    }
    let last = &ps[ps.len() - 1];
    assert(last@ == texts(ps@).last());
    if same(last.as_str(), "..") {
        None
    } else {
        Some(last.clone())
    }
}

/// A path starts at the root.
pub open spec fn at_root(path: Seq<char>) -> bool {
    has_prefix(path, "/"@)
}

/// A path starts with `.` as a part of its own.
pub open spec fn at_dot(path: Seq<char>) -> bool {
    path == "."@ || has_prefix(path, "./"@)
}

/// How many steps a path has: its named parts, and one for the root or the `.`
/// that it starts with.
pub open spec fn steps(path: Seq<char>) -> int {
    parts(path).len() + (if at_root(path) || at_dot(path) {
        1int
    } else {
        0
    })
}

/// Whether a path has exactly two steps.
pub fn has_two_steps(path: &str) -> (r: bool)
    ensures
        r == (steps(path@) == 2),
{
    let ps = path_parts(path);
    assert(texts(ps@).len() == ps@.len());
    if starts_with(path, "/") || same(path, ".") || starts_with(path, "./") {
        ps.len() == 1
    } else {
        ps.len() == 2
    }
}

/// A path goes up somewhere.
pub open spec fn goes_up(path: Seq<char>) -> bool {
    parts(path).contains(".."@)
}

/// Whether a path goes up somewhere.
pub fn has_parent_dir(path: &str) -> (r: bool)
    ensures
        r == goes_up(path@),
{
    let ps = path_parts(path);
    let ghost all = texts(ps@);
    let mut i: usize = 0;
    while i < ps.len()
        invariant
            i <= ps@.len(),
            all == texts(ps@),
            all == parts(path@),
            forall|k: int| 0 <= k < i ==> #[trigger] all[k] != ".."@,
        decreases ps@.len() - i,
    {
        assert(all[i as int] == ps@[i as int]@);
        if same(ps[i].as_str(), "..") {
            assert(all.contains(".."@));
            return true;
        }
        i += 1;
    }
    false
}

/// The path of `name` in the directory `dir`.
pub open spec fn joined_path(dir: Seq<char>, name: Seq<char>) -> Seq<char> {
    if dir.len() == 0 || has_suffix(dir, "/"@) {
        dir + name
    } else {
        dir + "/"@ + name
    }
}

/// The path of `name`, a relative path, in the directory `dir`.
pub fn join_path(dir: &str, name: &str) -> (r: String)
    ensures
        r@ == joined_path(dir@, name@),
{
    if dir.is_empty() || strip_suffix(dir, "/").is_some() {
        cat2(dir, name)
    } else {
        cat3(dir, "/", name)
    }
}

/// The directory that an absolute path without detours names something in.
pub open spec fn parent_of(path: Seq<char>) -> Option<Seq<char>> {
    match last_char(path, '/') {
        None => None,
        Some(i) => if path.len() == 1 {
            None
        } else if i == 0 {
            Some("/"@)
        } else {
            Some(path.take(i))
        },
    }
}

/// Whether `path`, absolute and without detours, names something directly in
/// `dir`.
pub fn is_directly_in(path: &str, dir: &str) -> (r: bool)
    ensures
        r == (parent_of(path@) == Some(dir@)),
{
    match rfind_char(path, '/') {
        None => false,
        Some(i) => {
            let n = path.unicode_len();
            if n == 1 {
                false
            } else if i == 0 {
                same(dir, "/")
            } else {
                same(path.substring_char(0, i), dir)
            }
        },
    }
}

/// `path`, absolute and without detours, is `dir` or somewhere in it.
pub open spec fn is_within(path: Seq<char>, dir: Seq<char>) -> bool {
    path == dir || has_prefix(path, dir + "/"@) || dir == "/"@
}

/// Whether `path`, absolute and without detours, is `dir` or somewhere in it.
pub fn within(path: &str, dir: &str) -> (r: bool)
    ensures
        r == is_within(path@, dir@),
{
    let under = cat2(dir, "/");
    same(path, dir) || starts_with(path, under.as_str()) || same(dir, "/")
}

/// A file name without its extension. A dot at the start begins no extension.
pub open spec fn stem_of(name: Seq<char>) -> Seq<char> {
    match last_char(name, '.') {
        Some(i) => if i > 0 {
            name.take(i)
        } else {
            name
        },
        None => name,
    }
}

/// A file name without its extension. A dot at the start begins no extension.
pub fn file_stem(name: &str) -> (r: String)
    ensures
        r@ == stem_of(name@),
{
    match rfind_char(name, '.') {
        Some(i) => {
            if i > 0 {
                name.substring_char(0, i).to_owned()
            } else {
                name.to_owned()
            }
        },
        None => name.to_owned(),
    }
}

// ---------------------------------------------------------------------------
// The user's directories
// ---------------------------------------------------------------------------

/// The user's home directory: what `HOME` says, or else what `USERPROFILE` says.
pub fn home_dir<'a>(home: Option<&'a str>, profile: Option<&'a str>) -> (r: Option<&'a str>)
    ensures
        r == (if home is Some {
            home
        } else {
            profile
        }),
{
    if home.is_some() {
        home
    } else {
        profile
    }
}

/// Where the stores of a user are, below the home directory.
pub open spec fn store_dir(apple: bool) -> Seq<char> {
    if apple {
        "Library/Application Support/k7s"@
    } else {
        ".config/k7s"@
    }
}

/// The directory of a user's stores. `apple` says whether this is macOS.
pub fn user_config_dir(home: Option<&str>, profile: Option<&str>, apple: bool) -> (r: AppResult<
    String,
>)
    ensures
        match (r, home, profile) {
            (Ok(d), Some(h), _) => d@ == joined_path(h@, store_dir(apple)),
            (Ok(d), None, Some(p)) => d@ == joined_path(p@, store_dir(apple)),
            (Err(e), None, None) => e.is_other("no HOME or USERPROFILE"@),
            _ => false,
        },
{
    match home_dir(home, profile) {
        Some(h) => Ok(
            join_path(
                h,
                if apple {
                    "Library/Application Support/k7s"
                } else {
                    ".config/k7s"
                },
            ),
        ),
        None => Err(other("no HOME or USERPROFILE")),
    }
}

// ---------------------------------------------------------------------------
// Laws
// ---------------------------------------------------------------------------

proof fn lemma_named_parts(ps: Seq<Seq<char>>)
    ensures
        named_parts(ps) == ps.filter(|p: Seq<char>| p.len() > 0 && p != "."@),
    decreases ps.len(),
{
    reveal(Seq::filter);
    if ps.len() > 0 {
        lemma_named_parts(ps.drop_last());
    }
}

/// The parts of a path are what stands between its slashes, without what is empty or a
/// single dot, in order.
pub proof fn law_parts_stand_between_slashes(path: &str, r: Vec<String>)
    requires
        call_ensures(path_parts, (path,), r),
    ensures
        texts(r@) == pieces(path@, '/').filter(|p: Seq<char>| p.len() > 0 && p != "."@),
{
    lemma_named_parts(pieces(path@, '/'));
}

/// A file is called what stands behind the last slash of its path.
pub proof fn law_file_name_stands_last(path: &str, dir: Seq<char>, name: Seq<char>, r: Option<
    String,
>)
    requires
        call_ensures(file_name, (path,), r),
        path@ == dir + seq!['/'] + name,
        !name.contains('/'),
        name.len() > 0,
        name != "."@,
    ensures
        name == ".."@ ==> r is None,
        name != ".."@ ==> opt_text(r) == Some(name),
{
    lemma_last_piece(dir, name, '/');
    let ps = pieces(path@, '/');
    assert(ps.last() == name);
}

/// A path goes up exactly where one of its parts is two dots.
pub proof fn law_path_goes_up_by_two_dots(path: &str, r: bool)
    requires
        call_ensures(has_parent_dir, (path,), r),
    ensures
        r <==> exists|i: int|
            0 <= i < pieces(path@, '/').len() && #[trigger] pieces(path@, '/')[i] == ".."@,
{
    reveal_strlit("..");
    reveal_strlit(".");
    assert(".."@.len() == 2 && "."@.len() == 1);
    let ps = pieces(path@, '/');
    let f = |p: Seq<char>| p.len() > 0 && p != "."@;
    lemma_named_parts(ps);
    if parts(path@).contains(".."@) {
        ps.lemma_filter_contains_rev(f, ".."@);
        let i = choose|i: int| 0 <= i < ps.len() && ps[i] == ".."@;
        assert(ps[i] == ".."@);
    }
    if exists|i: int| 0 <= i < ps.len() && #[trigger] ps[i] == ".."@ {
        let i = choose|i: int| 0 <= i < ps.len() && #[trigger] ps[i] == ".."@;
        ps.lemma_filter_contains(f, i);
    }
}

/// A path in a directory is the directory, a slash and the name; no second slash is added
/// to one that ends in one.
pub proof fn law_joined_by_one_slash(dir: &str, name: &str, r: String)
    requires
        call_ensures(join_path, (dir, name), r),
    ensures
        dir@.len() > 0 && dir@.last() != '/' ==> r@ == dir@ + "/"@ + name@,
        dir@.len() == 0 || dir@.last() == '/' ==> r@ == dir@ + name@,
{
    reveal_strlit("/");
    assert("/"@.len() == 1);
    if dir@.len() > 0 {
        let end = dir@.skip(dir@.len() - 1);
        assert(end =~= seq![dir@.last()]);
        assert("/"@ =~= seq!['/']);
        assert(end == "/"@ ==> end[0] == '/');
    }
}

/// The parent of what stands behind a directory and a slash is that directory, unless another
/// slash follows.
pub proof fn lemma_parent(dir: Seq<char>, name: Seq<char>)
    requires
        dir.len() > 0,
        name.len() > 0,
    ensures
        parent_of(dir + seq!['/'] + name) == Some(dir) <==> !name.contains('/'),
{
    let path = dir + seq!['/'] + name;
    lemma_last_char(path, '/');
    let n = dir.len() as int;
    assert(path[n] == '/');
    let i = last_char(path, '/')->0;
    assert(i >= n);
    if name.contains('/') {
        let k = choose|k: int| 0 <= k < name.len() && name[k] == '/';
        assert(path[n + 1 + k] == '/');
        assert(i >= n + 1 + k);
        assert(path.take(i).len() > dir.len());
    } else {
        if i > n {
            assert(name[i - n - 1] == '/');
        }
        assert(path.take(n) =~= dir);
    }
}

/// What is directly in a directory is the directory, a slash and a name, and nothing deeper
/// is.
pub proof fn law_directly_in_a_directory(path: &str, dir: &str, name: Seq<char>, r: bool)
    requires
        call_ensures(is_directly_in, (path, dir), r),
        dir@.len() > 0,
        dir@.last() != '/',
        path@ == dir@ + seq!['/'] + name,
        name.len() > 0,
    ensures
        r <==> !name.contains('/'),
{
    lemma_parent(dir@, name);
}

proof fn lemma_last_char(s: Seq<char>, c: char)
    ensures
        match last_char(s, c) {
            Some(i) => 0 <= i < s.len() && s[i] == c && forall|j: int| i < j < s.len() ==> s[j] != c,
            None => forall|j: int| 0 <= j < s.len() ==> s[j] != c,
        },
    decreases s.len(),
{
    if s.len() > 0 && s.last() != c {
        lemma_last_char(s.drop_last(), c);
        assert forall|j: int| 0 <= j < s.len() - 1 implies s.drop_last()[j] == s[j] by {}
    }
}

/// A path is within a directory where it is the directory or goes on from it behind a
/// slash; a longer name is not within a shorter one.
pub proof fn law_within_a_directory(path: &str, dir: &str, rest: Seq<char>, r: bool)
    requires
        call_ensures(within, (path, dir), r),
        path@ == dir@ + rest,
        dir@ != "/"@,
    ensures
        r <==> rest.len() == 0 || rest[0] == '/',
{
    reveal_strlit("/");
    assert("/"@ =~= seq!['/']);
    let n = dir@.len() as int;
    if rest.len() == 0 {
        assert(path@ =~= dir@);
    } else {
        assert(path@.len() != dir@.len());
        if rest[0] == '/' {
            assert(path@.take(n + 1) =~= dir@ + "/"@);
        } else if has_prefix(path@, dir@ + "/"@) {
            assert(path@.take(n + 1)[n] == '/');
        }
    }
}

/// The stem of a file name is what stands before its last dot, unless nothing does.
pub proof fn law_stem_stands_before_the_last_dot(
    name: &str,
    stem: Seq<char>,
    ext: Seq<char>,
    r: String,
)
    requires
        call_ensures(file_stem, (name,), r),
    ensures
        !name@.contains('.') ==> r@ == name@,
        name@ == stem + seq!['.'] + ext && !ext.contains('.') && stem.len() > 0 ==> r@ == stem,
        name@ == stem + seq!['.'] + ext && !ext.contains('.') && stem.len() == 0 ==> r@ == name@,
{
    lemma_last_char(name@, '.');
    if name@ == stem + seq!['.'] + ext && !ext.contains('.') {
        let n = stem.len() as int;
        assert(name@[n] == '.');
        let i = last_char(name@, '.')->0;
        if i > n {
            assert(ext[i - n - 1] == '.');
        }
        assert(name@.take(n) =~= stem);
    }
    if !name@.contains('.') && last_char(name@, '.') is Some {
        assert(name@[last_char(name@, '.')->0] == '.');
    }
}

/// The stores of a user are in the user's home directory, in the place that the system
/// keeps such things in.
pub proof fn law_stores_are_in_the_home_directory(
    home: Option<&str>,
    profile: Option<&str>,
    apple: bool,
    r: AppResult<String>,
)
    requires
        call_ensures(user_config_dir, (home, profile, apple), r),
    ensures
        home matches Some(h) ==> (h@.len() > 0 && h@.last() != '/' ==> (r matches Ok(d) && d@ == h@
            + "/"@ + (if apple {
            "Library/Application Support/k7s"@
        } else {
            ".config/k7s"@
        }))),
        home is None ==> (profile matches Some(h) ==> (h@.len() > 0 && h@.last() != '/' ==> (
        r matches Ok(d) && d@ == h@ + "/"@ + (if apple {
            "Library/Application Support/k7s"@
        } else {
            ".config/k7s"@
        })))),
        home is None && profile is None ==> r is Err,
{
    reveal_strlit("/");
    assert("/"@ =~= seq!['/']);
    let d = match home {
        Some(h) => Some(h),
        None => profile,
    };
    if let Some(h) = d {
        if h@.len() > 0 {
            let end = h@.skip(h@.len() - 1);
            assert(end =~= seq![h@.last()]);
            assert(end == "/"@ ==> end[0] == '/');
        }
    }
}

} // verus!
