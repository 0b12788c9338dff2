//! Redaction of rendered manifests.
//!
//! A manifest is a text of documents. The values of the Secrets among them are
//! replaced line by line; everything else stays as it is, down to the comments that
//! say which template a document comes from.
use crate::text::{
    cat2, char_from, chars_of, ends_with, find_char, find_from, has_part, has_prefix, has_suffix,
    is_space, join, joined, lemma_behind_separator, lemma_char_from, lemma_find_from,
    lemma_joined_lacks, lemma_joined_pieces, lemma_joined_split, lemma_piece_end, lemma_piece_start,
    lemma_pieces, lemma_pieces_hold, lemma_split_joined, lemma_split_pieces, lines, lines_of,
    no_texts, occurs_at, pieces, push_text, same, space, split_by, split_text, texts, trim,
    trim_end, trim_start, trimmed, trimmed_end, trimmed_start, without_cr,
};
use vstd::prelude::*;

verus! {

// ---------------------------------------------------------------------------
// Keys and scalars
// ---------------------------------------------------------------------------

/// A scalar without the quotes that may stand around it.
pub open spec fn plain_word(s: Seq<char>) -> Seq<char> {
    if s.len() >= 2 && s[0] == s.last() && (s[0] == '"' || s[0] == '\'') {
        s.subrange(1, s.len() - 1)
    } else {
        s
    }
}

/// Where a comment begins, at `from` or behind it: at a `#` after white space.
pub open spec fn comment_from(s: Seq<char>, from: int) -> Option<int>
    decreases s.len() - from,
{
    if from < 1 || from >= s.len() {
        None
    } else if s[from] == '#' && is_space(s[from - 1]) {
        Some(from)
    } else {
        comment_from(s, from + 1)
    }
}

/// `s` without the comment that may end it.
pub open spec fn uncommented(s: Seq<char>) -> Seq<char> {
    match comment_from(s, 1) {
        Some(i) => s.take(i),
        None => s,
    }
}

/// The key that an unindented line begins with, and where the colon behind it stands.
pub open spec fn top_key(line: Seq<char>) -> Option<(Seq<char>, int)> {
    match char_from(line, ':', 0) {
        Some(i) => Some((plain_word(trimmed_end(line.take(i))), i)),
        None => None,
    }
}

/// What a line holds behind its colon at `i`.
pub open spec fn scalar_at(line: Seq<char>, i: int) -> Seq<char> {
    trimmed(uncommented(line.skip(i + 1)))
}

/// A line says of its document that it is a Secret.
pub open spec fn declares_secret(line: Seq<char>) -> bool {
    match top_key(line) {
        Some((key, i)) => {
            &&& key == "kind"@
            &&& i + 1 < line.len()
            &&& is_space(line[i + 1])
            &&& plain_word(scalar_at(line, i)) == "Secret"@
        },
        None => false,
    }
}

/// A document of a manifest declares a Secret: its own kind says so, not that of
/// something nested in it.
pub open spec fn is_secret(doc: Seq<char>) -> bool {
    exists|i: int| 0 <= i < lines_of(doc).len() && declares_secret(#[trigger] lines_of(doc)[i])
}

/// Where the colon stands in a line that opens a section of values.
pub open spec fn value_key(line: Seq<char>) -> Option<int> {
    match top_key(line) {
        Some((key, i)) => if key == "data"@ || key == "stringData"@ {
            Some(i)
        } else {
            None
        },
        None => None,
    }
}

/// A scalar holds no values: it is nothing at all, null, or an empty mapping.
pub open spec fn holds_nothing(v: Seq<char>) -> bool {
    ||| v.len() == 0
    ||| v == "null"@
    ||| v == "~"@
    ||| v.len() >= 2 && v[0] == '{' && v.last() == '}' && trimmed(v.subrange(1, v.len() - 1)).len()
        == 0
}

// ---------------------------------------------------------------------------
// Lines
// ---------------------------------------------------------------------------

/// How far a line is indented.
pub open spec fn indent_of(line: Seq<char>) -> int {
    line.len() - trimmed_start(line).len()
}

/// A line is blank.
pub open spec fn is_blank(line: Seq<char>) -> bool {
    trimmed_start(line).len() == 0
}

/// A line stands no deeper than the keys of its section, which are indented by `keys`,
/// once that is known.
pub open spec fn at_keys(line: Seq<char>, keys: Option<int>) -> bool {
    keys is None || indent_of(line) <= keys->0
}

/// A line in a section of values holds none of them: it is blank or a comment. What
/// looks like a comment and stands deeper than the keys may belong to a value.
pub open spec fn is_remark(line: Seq<char>, keys: Option<int>) -> bool {
    is_blank(line) || (line[indent_of(line)] == '#' && at_keys(line, keys))
}

/// How far the keys of a section are indented after one more line: as far as the
/// line that is indented least.
pub open spec fn keys_after(keys: Option<int>, line: Seq<char>) -> Option<int> {
    if is_remark(line, keys) {
        keys
    } else if at_keys(line, keys) {
        Some(indent_of(line))
    } else {
        keys
    }
}

/// A line in a section of values whose keys are indented by `keys`. Of a key the key
/// is shown, of a line that goes on with a value nothing. A comment may hold a key and
/// its value too; one without a colon stays as it is.
pub open spec fn redacted_line(line: Seq<char>, keys: Option<int>) -> Seq<char> {
    let colon = char_from(line, ':', 0);
    if is_blank(line) {
        line
    } else if at_keys(line, keys) && colon is Some {
        line.take(colon->0) + ": <redacted>"@
    } else if is_remark(line, keys) {
        line
    } else {
        line.take(indent_of(line)) + "<redacted>"@
    }
}

/// A line of a Secret as it is shown. `block` says whether the line before it is in a
/// section of values, and how far the keys of that section are indented, once that is
/// known.
pub open spec fn shown_line(block: Option<Option<int>>, line: Seq<char>) -> Seq<char> {
    match value_key(line) {
        Some(i) => if holds_nothing(scalar_at(line, i)) {
            line
        } else {
            line.take(i + 1) + " <redacted>"@
        },
        None => if block is Some && (is_blank(line) || indent_of(line) > 0) {
            redacted_line(line, block->0)
        } else {
            line
        },
    }
}

/// What is known of the section of values behind a line. Where the line of the section
/// holds a value, all that is indented goes on with it; where it says that there are no
/// values, the section ends with it. An unindented comment does not end a section.
pub open spec fn block_after(block: Option<Option<int>>, line: Seq<char>) -> Option<Option<int>> {
    match value_key(line) {
        Some(i) => if scalar_at(line, i).len() == 0 {
            Some(None)
        } else if holds_nothing(scalar_at(line, i)) {
            None
        } else {
            Some(Some(0))
        },
        None => if block is None {
            None
        } else if is_blank(line) || indent_of(line) > 0 {
            Some(keys_after(block->0, line))
        } else if line[0] == '#' {
            block
        } else {
            None
        },
    }
}

/// The lines of a Secret with its values replaced, and what is known of the section of
/// values behind them.
pub open spec fn redacted_lines(ls: Seq<Seq<char>>) -> (Seq<Seq<char>>, Option<Option<int>>)
    decreases ls.len(),
{
    if ls.len() == 0 {
        (Seq::empty(), None)
    } else {
        let (out, block) = redacted_lines(ls.drop_last());
        (out.push(shown_line(block, ls.last())), block_after(block, ls.last()))
    }
}

// ---------------------------------------------------------------------------
// Documents
// ---------------------------------------------------------------------------

/// A Secret document with its values replaced.
pub open spec fn redacted_doc(doc: Seq<char>) -> Seq<char> {
    joined(redacted_lines(lines_of(doc)).0, "\n"@) + (if has_suffix(doc, "\n"@) {
        "\n"@
    } else {
        Seq::empty()
    })
}

/// A document of a manifest as it is shown.
pub open spec fn shown_doc(doc: Seq<char>) -> Seq<char> {
    if is_secret(doc) {
        redacted_doc(doc)
    } else {
        doc
    }
}

/// The documents of a manifest as they are shown.
pub open spec fn shown_docs(docs: Seq<Seq<char>>) -> Seq<Seq<char>> {
    Seq::new(docs.len(), |i: int| shown_doc(docs[i]))
}

/// A manifest as it is shown: the values of its Secrets replaced.
pub open spec fn redacted_manifest(m: Seq<char>) -> Seq<char> {
    if m.len() == 0 {
        Seq::empty()
    } else {
        joined(shown_docs(split_by(m, "\n---"@)), "\n---"@)
    }
}

// ---------------------------------------------------------------------------
// Reading a line
// ---------------------------------------------------------------------------

fn unquote<'a>(s: &'a str) -> (r: &'a str)
    ensures
        r@ == plain_word(s@),
{
    let n: usize = s.unicode_len();
    if n >= 2 {
        let q = s.get_char(0);
        if q == s.get_char(n - 1) && (q == '"' || q == '\'') {
            return s.substring_char(1, n - 1);
        }
    }
    s
}

fn without_comment<'a>(s: &'a str) -> (r: &'a str)
    ensures
        r@ == uncommented(s@),
{
    let v = chars_of(s);
    let mut i: usize = 1;
    while i < v.len()
        invariant
            v@ == s@,
            1 <= i,
            comment_from(s@, 1) == comment_from(s@, i as int),
        decreases v@.len() - i,
    {
        if v[i] == '#' && space(v[i - 1]) {
            let r = s.substring_char(0, i);
            assert(r@ =~= s@.take(i as int));
            return r;
        }
        i += 1;
    }
    s
}

fn find_key<'a>(line: &'a str) -> (r: Option<(&'a str, usize)>)
    ensures
        match r {
            Some((key, i)) => top_key(line@) == Some((key@, i as int)) && i < line@.len(),
            None => top_key(line@) is None,
        },
{
    match find_char(line, ':') {
        Some(i) => {
            let before = line.substring_char(0, i);
            assert(before@ =~= line@.take(i as int));
            Some((unquote(trim_end(before)), i))
        },
        None => None,
    }
}

fn scalar_behind<'a>(line: &'a str, i: usize) -> (r: &'a str)
    requires
        i < line@.len(),
    ensures
        r@ == scalar_at(line@, i as int),
{
    let n: usize = line.unicode_len();
    let rest = line.substring_char(i + 1, n);
    assert(rest@ =~= line@.skip(i + 1));
    trim(without_comment(rest))
}

fn says_secret(line: &str) -> (r: bool)
    ensures
        r == declares_secret(line@),
{
    match find_key(line) {
        Some((key, i)) => same(key, "kind") && line.unicode_len() - i > 1 && space(
            line.get_char(i + 1),
        ) && same(unquote(scalar_behind(line, i)), "Secret"),
        None => false,
    }
}

fn opens_values(line: &str) -> (r: Option<usize>)
    ensures
        match r {
            Some(i) => value_key(line@) == Some(i as int) && i < line@.len(),
            None => value_key(line@) is None,
        },
{
    match find_key(line) {
        Some((key, i)) => if same(key, "data") || same(key, "stringData") {
            Some(i)
        } else {
            None
        },
        None => None,
    }
}

fn is_nothing(v: &str) -> (r: bool)
    ensures
        r == holds_nothing(v@),
{
    let n: usize = v.unicode_len();
    if n == 0 || same(v, "null") || same(v, "~") {
        return true;
    }
    n >= 2 && v.get_char(0) == '{' && v.get_char(n - 1) == '}' && trim(
        v.substring_char(1, n - 1),
    ).unicode_len() == 0
}

proof fn lemma_indent(line: Seq<char>)
    ensures
        0 <= indent_of(line) <= line.len(),
        is_blank(line) <==> indent_of(line) == line.len(),
        forall|k: int| 0 <= k < indent_of(line) ==> is_space(#[trigger] line[k]),
        indent_of(line) < line.len() ==> !is_space(line[indent_of(line)]),
    decreases line.len(),
{
    if line.len() > 0 && is_space(line[0]) {
        let rest = line.drop_first();
        lemma_indent(rest);
        assert(indent_of(line) == indent_of(rest) + 1);
        assert forall|k: int| 0 <= k < indent_of(line) implies is_space(#[trigger] line[k]) by {
            if k > 0 {
                assert(line[k] == rest[k - 1]);
            }
        }
        if indent_of(line) < line.len() {
            assert(line[indent_of(line)] == rest[indent_of(rest)]);
        }
    }
}

fn indent(line: &str) -> (r: usize)
    ensures
        r == indent_of(line@),
        0 <= r <= line@.len(),
        is_blank(line@) <==> r == line@.len(),
{
    proof {
        lemma_indent(line@);
    }
    line.unicode_len() - trim_start(line).unicode_len()
}

// ---------------------------------------------------------------------------
// Redacting
// ---------------------------------------------------------------------------

/// How far the keys of a section are indented, as a mathematical number.
pub open spec fn keys_of(keys: Option<usize>) -> Option<int> {
    match keys {
        Some(k) => Some(k as int),
        None => None,
    }
}

fn redact_line(line: &str, keys: Option<usize>) -> (r: (String, Option<usize>))
    ensures
        r.0@ == redacted_line(line@, keys_of(keys)),
        keys_of(r.1) == keys_after(keys_of(keys), line@),
{
    let n: usize = indent(line);
    if n == line.unicode_len() {
        return (line.to_owned(), keys);
    }
    let is_key = match keys {
        Some(k) => n <= k,
        None => true,
    };
    if is_key {
        let is_comment = line.get_char(n) == '#';
        let next = if is_comment { keys } else { Some(n) };
        if let Some(i) = find_char(line, ':') {
            let key = line.substring_char(0, i);
            assert(key@ =~= line@.take(i as int));
            return (cat2(key, ": <redacted>"), next);
        }
        if is_comment {
            return (line.to_owned(), next);
        }
    }
    let margin = line.substring_char(0, n);
    assert(margin@ =~= line@.take(n as int));
    (cat2(margin, "<redacted>"), if is_key { Some(n) } else { keys })
}

/// Whether a document of a manifest declares a Secret.
pub fn is_secret_doc(doc: &str) -> (r: bool)
    ensures
        r == is_secret(doc@),
{
    let ls = lines(doc);
    let ghost all = lines_of(doc@);
    let mut i: usize = 0;
    while i < ls.len()
        invariant
            i <= ls@.len(),
            texts(ls@) == all,
            all == lines_of(doc@),
            forall|j: int| 0 <= j < i ==> !declares_secret(#[trigger] all[j]),
        decreases ls@.len() - i,
    {
        assert(all[i as int] == ls@[i as int]@);
        if says_secret(ls[i].as_str()) {
            return true;
        }
        i += 1;
    }
    false
}

/// Replaces the values under `data:` and `stringData:` of a Secret document.
pub fn redact_doc(doc: &str) -> (r: String)
    ensures
        r@ == redacted_doc(doc@),
{
    let ls = lines(doc);
    let ghost all = lines_of(doc@);
    let mut out = no_texts();
    let mut inside: bool = false;
    let mut keys: Option<usize> = None;
    let mut i: usize = 0;
    assert(texts(out@) =~= redacted_lines(all.take(0)).0);
    while i < ls.len()
        invariant
            i <= ls@.len(),
            texts(ls@) == all,
            texts(out@) == redacted_lines(all.take(i as int)).0,
            redacted_lines(all.take(i as int)).1 == (if inside {
                Some(keys_of(keys))
            } else {
                None
            }),
        decreases ls@.len() - i,
    {
        proof {
            assert(all.take(i + 1).drop_last() =~= all.take(i as int));
            assert(all[i as int] == ls@[i as int]@);
        }
        let line = ls[i].as_str();
        let n: usize = indent(line);
        if let Some(colon) = opens_values(line) {
            let scalar = scalar_behind(line, colon);
            if is_nothing(scalar) {
                inside = scalar.unicode_len() == 0;
                keys = None;
                push_text(&mut out, line);
            } else {
                inside = true;
                keys = Some(0);
                let len: usize = line.unicode_len();
                let key = line.substring_char(0, colon + 1);
                assert(key@ =~= line@.take(colon + 1));
                let t = cat2(key, " <redacted>");
                push_text(&mut out, t.as_str());
            }
        } else if inside && (n > 0 || line.unicode_len() == 0) {
            let (t, next) = redact_line(line, keys);
            keys = next;
            push_text(&mut out, t.as_str());
        } else {
            if inside && line.get_char(0) != '#' {
                inside = false;
            }
            push_text(&mut out, line);
        }
        i += 1;
    }
    assert(all.take(i as int) =~= all);
    let mut s = join(&out, "\n");
    if ends_with(doc, "\n") {
        s.append("\n");
    }
    assert(s@ =~= redacted_doc(doc@));
    s
}

/// Replaces the values of the Secrets in a rendered manifest. Everything else
/// stays as it is, down to the comments that say which template a document comes
/// from.
pub fn redact_secret_manifests(manifest: &str) -> (r: String)
    ensures
        r@ == redacted_manifest(manifest@),
{
    if manifest.is_empty() {
        return String::new();
    }
    proof {
        reveal_strlit("\n---");
    }
    let docs = split_text(manifest, "\n---");
    let ghost all = split_by(manifest@, "\n---"@);
    let mut out = no_texts();
    let mut i: usize = 0;
    assert(texts(out@) =~= shown_docs(all).take(0));
    while i < docs.len()
        invariant
            i <= docs@.len(),
            texts(docs@) == all,
            texts(out@) == shown_docs(all).take(i as int),
        decreases docs@.len() - i,
    {
        assert(all[i as int] == docs@[i as int]@);
        let doc = docs[i].as_str();
        let ghost before = texts(out@);
        if is_secret_doc(doc) {
            let t = redact_doc(doc);
            push_text(&mut out, t.as_str());
        } else {
            push_text(&mut out, doc);
        }
        assert(texts(out@) =~= before.push(shown_docs(all)[i as int]));
        assert(shown_docs(all).take(i + 1) =~= before.push(shown_docs(all)[i as int]));
        i += 1;
    }
    assert(shown_docs(all).take(i as int) =~= shown_docs(all));
    join(&out, "\n---")
}

// ---------------------------------------------------------------------------
// Laws
// ---------------------------------------------------------------------------

/// A manifest without Secrets is shown as it is.
pub proof fn law_other_documents_stay(m: Seq<char>)
    requires
        forall|i: int|
            0 <= i < split_by(m, "\n---"@).len() ==> !is_secret(
                #[trigger] split_by(m, "\n---"@)[i],
            ),
    ensures
        redacted_manifest(m) == m,
{
    reveal_strlit("\n---");
    let docs = split_by(m, "\n---"@);
    assert(shown_docs(docs) =~= docs);
    lemma_split_joined(m, "\n---"@);
    if m.len() == 0 {
        assert(m =~= Seq::empty());
    }
}

/// Two lines in a section of values whose keys are indented by `keys` differ in
/// nothing but a value: they are indented alike, and what is a key, commented out or
/// not, is the same key.
pub open spec fn same_but_value(a: Seq<char>, b: Seq<char>, keys: Option<int>) -> bool {
    &&& !is_blank(a)
    &&& !is_blank(b)
    &&& indent_of(a) > 0
    &&& indent_of(a) == indent_of(b)
    &&& a.take(indent_of(a)) == b.take(indent_of(b))
    &&& at_keys(a, keys) ==> {
        &&& char_from(a, ':', 0) == char_from(b, ':', 0)
        &&& match char_from(a, ':', 0) {
            Some(i) => a.take(i) == b.take(i),
            None => a[indent_of(a)] != '#' && b[indent_of(b)] != '#',
        }
    }
}

proof fn lemma_trimmed_end_prefix(s: Seq<char>)
    ensures
        trimmed_end(s).len() <= s.len(),
        trimmed_end(s) =~= s.take(trimmed_end(s).len() as int),
    decreases s.len(),
{
    if s.len() > 0 && is_space(s.last()) {
        lemma_trimmed_end_prefix(s.drop_last());
        let n = trimmed_end(s.drop_last()).len() as int;
        assert(s.take(n) =~= s.drop_last().take(n));
    }
}

proof fn lemma_key_begins_line(line: Seq<char>)
    requires
        top_key(line) is Some,
        (top_key(line)->0).0.len() > 0,
    ensures
        line.len() > 0,
        line[0] == (top_key(line)->0).0[0] || line[0] == '"' || line[0] == '\'',
{
    let (key, i) = top_key(line)->0;
    lemma_char_from(line, ':', 0);
    let before = line.take(i);
    let word = trimmed_end(before);
    lemma_trimmed_end_prefix(before);
    assert(word.len() > 0);
    assert(word[0] == before[0]);
}

proof fn lemma_value_key(line: Seq<char>)
    requires
        value_key(line) is Some,
    ensures
        line.len() > 0,
        line[0] == 'd' || line[0] == 's' || line[0] == '"' || line[0] == '\'',
        0 <= value_key(line)->0 < line.len(),
        line[value_key(line)->0] == ':',
{
    reveal_strlit("data");
    reveal_strlit("stringData");
    lemma_key_begins_line(line);
    lemma_char_from(line, ':', 0);
}

proof fn lemma_indented_opens_nothing(line: Seq<char>)
    requires
        indent_of(line) > 0,
    ensures
        value_key(line) is None,
{
    lemma_indent(line);
    assert(is_space(line[0]));
    if value_key(line) is Some {
        lemma_value_key(line);
    }
}

proof fn lemma_colon_behind_indent(line: Seq<char>)
    ensures
        char_from(line, ':', 0) matches Some(i) ==> {
            &&& indent_of(line) <= i < line.len()
            &&& line[indent_of(line)] == (if indent_of(line) < i {
                line.take(i)[indent_of(line)]
            } else {
                ':'
            })
        },
{
    lemma_indent(line);
    lemma_char_from(line, ':', 0);
    if let Some(i) = char_from(line, ':', 0) {
        if i < indent_of(line) {
            assert(is_space(line[i]));
        }
    }
}

/// The values of a Secret do not show, whatever they are: exchanging the value
/// in a line of a section of values, or a line that goes on with a value, for
/// another one changes nothing in what is shown.
pub proof fn law_values_of_secrets_do_not_show(ls: Seq<Seq<char>>, p: int, other: Seq<char>)
    requires
        0 <= p < ls.len(),
        redacted_lines(ls.take(p)).1 is Some,
        same_but_value(ls[p], other, redacted_lines(ls.take(p)).1->0),
    ensures
        redacted_lines(ls.update(p, other)) == redacted_lines(ls),
    decreases ls.len(),
{
    let t = ls.update(p, other);
    if p == ls.len() - 1 {
        assert(t.drop_last() =~= ls.drop_last());
        assert(ls.take(p) =~= ls.drop_last());
        lemma_indented_opens_nothing(ls[p]);
        lemma_indented_opens_nothing(other);
        if char_from(ls[p], ':', 0) is Some {
            lemma_colon_behind_indent(ls[p]);
            lemma_colon_behind_indent(other);
        }
    } else {
        assert(t.drop_last() =~= ls.drop_last().update(p, other));
        assert(ls.drop_last().take(p) =~= ls.take(p));
        law_values_of_secrets_do_not_show(ls.drop_last(), p, other);
    }
}

/// Nor does a value that stands in the line of its section: of such a line nothing
/// shows but the key, and what is indented below it goes on with the value.
pub proof fn law_values_in_the_line_of_a_section_do_not_show(
    block: Option<Option<int>>,
    a: Seq<char>,
    b: Seq<char>,
)
    requires
        value_key(a) is Some,
        value_key(b) == value_key(a),
        a.take(value_key(a)->0) == b.take(value_key(a)->0),
        !holds_nothing(scalar_at(a, value_key(a)->0)),
        !holds_nothing(scalar_at(b, value_key(a)->0)),
    ensures
        shown_line(block, a) == shown_line(block, b),
        block_after(block, a) == block_after(block, b),
{
    let i = value_key(a)->0;
    lemma_value_key(a);
    lemma_value_key(b);
    assert(a.take(i + 1) =~= a.take(i).push(':'));
    assert(b.take(i + 1) =~= b.take(i).push(':'));
}

proof fn lemma_indent_is(line: Seq<char>, n: int)
    requires
        0 <= n < line.len(),
        forall|k: int| 0 <= k < n ==> is_space(#[trigger] line[k]),
        !is_space(line[n]),
    ensures
        indent_of(line) == n,
        !is_blank(line),
{
    lemma_indent(line);
    if indent_of(line) < n {
        assert(is_space(line[indent_of(line)]));
    }
    if indent_of(line) > n {
        assert(is_space(line[n]));
    }
}

proof fn lemma_first_colon(line: Seq<char>, i: int)
    requires
        0 <= i < line.len(),
        line[i] == ':',
        forall|k: int| 0 <= k < i ==> #[trigger] line[k] != ':',
    ensures
        char_from(line, ':', 0) == Some(i),
{
    lemma_char_from(line, ':', 0);
    match char_from(line, ':', 0) {
        Some(j) => {
            if j < i {
                assert(line[j] != ':');
            }
        },
        None => {
            assert(line[i] != ':');
        },
    }
}

proof fn lemma_replaced_lacks(front: Seq<char>, end: Seq<char>, c: char)
    requires
        !front.contains(c),
        !end.contains(c),
    ensures
        !(front + end).contains(c),
{
    let all = front + end;
    if all.contains(c) {
        let k = choose|k: int| 0 <= k < all.len() && all[k] == c;
        if k < front.len() {
            assert(front[k] == c);
        } else {
            assert(end[k - front.len()] == c);
        }
    }
}

proof fn lemma_front_lacks(line: Seq<char>, i: int, c: char)
    requires
        0 <= i <= line.len(),
        !line.contains(c),
    ensures
        !line.take(i).contains(c),
{
    let front = line.take(i);
    if front.contains(c) {
        let k = choose|k: int| 0 <= k < front.len() && front[k] == c;
        assert(line[k] == c);
    }
}

proof fn lemma_redacted_line_again(line: Seq<char>, keys: Option<int>)
    requires
        is_blank(line) || indent_of(line) > 0,
    ensures
        ({
            let out = redacted_line(line, keys);
            &&& redacted_line(out, keys) == out
            &&& keys_after(keys, out) == keys_after(keys, line)
            &&& is_blank(out) == is_blank(line)
            &&& indent_of(out) == indent_of(line)
            &&& out == line || (out.len() > 0 && is_space(out[0]))
            &&& forall|c: char|
                (c == '\n' || c == '\r') && !line.contains(c) ==> !#[trigger] out.contains(c)
        }),
{
    reveal_strlit(": <redacted>");
    reveal_strlit("<redacted>");
    lemma_indent(line);
    let out = redacted_line(line, keys);
    let n = indent_of(line);
    let colon = char_from(line, ':', 0);
    if !is_blank(line) && (colon is Some || !is_remark(line, keys)) {
        lemma_char_from(line, ':', 0);
        if colon is Some && at_keys(line, keys) {
            let i = colon->0;
            assert(n <= i) by {
                if i < n {
                    assert(is_space(line[i]));
                }
            }
            assert forall|k: int| 0 <= k < n implies is_space(#[trigger] out[k]) by {
                assert(out[k] == line[k]);
            }
            assert(out[n] == line[n]);
            lemma_indent_is(out, n);
            assert forall|k: int| 0 <= k < i implies #[trigger] out[k] != ':' by {
                assert(out[k] == line[k]);
            }
            lemma_first_colon(out, i);
            assert(out.take(i) =~= line.take(i));
            assert forall|c: char|
                (c == '\n' || c == '\r') && !line.contains(c) implies !#[trigger] out.contains(
                c,
            ) by {
                lemma_front_lacks(line, i, c);
                lemma_replaced_lacks(line.take(i), ": <redacted>"@, c);
            }
        } else {
            assert forall|k: int| 0 <= k < n implies is_space(#[trigger] out[k]) by {
                assert(out[k] == line[k]);
            }
            assert(out[n] == '<');
            lemma_indent_is(out, n);
            assert(out.take(n) =~= line.take(n));
            if colon is None {
                lemma_char_from(out, ':', 0);
                if char_from(out, ':', 0) is Some {
                    let j = char_from(out, ':', 0)->0;
                    assert(j < n ==> out[j] == line[j]);
                    assert(j >= n ==> out[j] == "<redacted>"@[j - n]);
                }
            }
            assert forall|c: char|
                (c == '\n' || c == '\r') && !line.contains(c) implies !#[trigger] out.contains(
                c,
            ) by {
                lemma_front_lacks(line, n, c);
                lemma_replaced_lacks(line.take(n), "<redacted>"@, c);
            }
        }
        assert(is_space(out[0])) by {
            assert(line[0] == out[0]);
        }
    }
}

proof fn lemma_section_line_again(line: Seq<char>)
    requires
        value_key(line) is Some,
        !holds_nothing(scalar_at(line, value_key(line)->0)),
    ensures
        ({
            let i = value_key(line)->0;
            let out = line.take(i + 1) + " <redacted>"@;
            &&& value_key(out) == Some(i)
            &&& !holds_nothing(scalar_at(out, i))
            &&& out.take(i + 1) == line.take(i + 1)
            &&& out[0] == line[0]
            &&& forall|c: char|
                (c == '\n' || c == '\r') && !line.contains(c) ==> !#[trigger] out.contains(c)
        }),
{
    reveal_strlit(" <redacted>");
    reveal_strlit("null");
    reveal_strlit("~");
    let i = value_key(line)->0;
    let out = line.take(i + 1) + " <redacted>"@;
    lemma_value_key(line);
    lemma_char_from(line, ':', 0);
    assert forall|k: int| 0 <= k < i implies #[trigger] out[k] != ':' by {
        assert(out[k] == line[k]);
    }
    lemma_first_colon(out, i);
    assert(out.take(i) =~= line.take(i));
    let end = " <redacted>"@;
    assert(out.skip(i + 1) =~= end);
    assert(comment_from(end, 1) is None) by {
        reveal_with_fuel(comment_from, 12);
    }
    let word = end.drop_first();
    assert(trimmed_start(word) == word);
    assert(trimmed_start(end) == word);
    assert(trimmed_end(word) == word);
    assert(word[0] == '<');
    assert forall|c: char|
        (c == '\n' || c == '\r') && !line.contains(c) implies !#[trigger] out.contains(c) by {
        lemma_front_lacks(line, i + 1, c);
        lemma_replaced_lacks(line.take(i + 1), end, c);
    }
}

proof fn lemma_declaration(line: Seq<char>)
    requires
        declares_secret(line),
    ensures
        value_key(line) is None,
        !is_blank(line),
        indent_of(line) == 0,
{
    reveal_strlit("kind");
    reveal_strlit("data");
    reveal_strlit("stringData");
    assert("kind"@[0] == 'k' && "data"@[0] == 'd' && "stringData"@[0] == 's');
    lemma_key_begins_line(line);
    lemma_indent_is(line, 0);
}

proof fn lemma_shown_line_again(block: Option<Option<int>>, line: Seq<char>)
    ensures
        ({
            let out = shown_line(block, line);
            &&& shown_line(block, out) == out
            &&& block_after(block, out) == block_after(block, line)
            &&& out == line || (out.len() > 0 && out[0] != '-')
            &&& declares_secret(line) ==> out == line
            &&& forall|c: char|
                (c == '\n' || c == '\r') && !line.contains(c) ==> !#[trigger] out.contains(c)
        }),
{
    if declares_secret(line) {
        lemma_declaration(line);
    }
    match value_key(line) {
        Some(i) => {
            lemma_value_key(line);
            if !holds_nothing(scalar_at(line, i)) {
                lemma_section_line_again(line);
            }
        },
        None => {
            if block is Some && (is_blank(line) || indent_of(line) > 0) {
                lemma_redacted_line_again(line, block->0);
                let out = shown_line(block, line);
                if indent_of(out) > 0 {
                    lemma_indented_opens_nothing(out);
                }
                lemma_indent(line);
                assert(is_blank(line) ==> out == line);
            }
        },
    }
}

proof fn lemma_redacted_lines_again(ls: Seq<Seq<char>>)
    ensures
        ({
            let out = redacted_lines(ls).0;
            &&& redacted_lines(out) == redacted_lines(ls)
            &&& out.len() == ls.len()
            &&& forall|j: int|
                0 <= j < ls.len() ==> (#[trigger] out[j] == ls[j] || (out[j].len() > 0 && out[j][0]
                    != '-'))
            &&& forall|j: int|
                0 <= j < ls.len() && declares_secret(ls[j]) ==> #[trigger] out[j] == ls[j]
            &&& forall|j: int, c: char|
                0 <= j < ls.len() && (c == '\n' || c == '\r') && !ls[j].contains(c)
                    ==> !#[trigger] out[j].contains(c)
        }),
    decreases ls.len(),
{
    let out = redacted_lines(ls).0;
    if ls.len() > 0 {
        let before = ls.drop_last();
        lemma_redacted_lines_again(before);
        let (front, block) = redacted_lines(before);
        lemma_shown_line_again(block, ls.last());
        assert(out.drop_last() =~= front);
        assert forall|j: int| 0 <= j < ls.len() implies (#[trigger] out[j] == ls[j] || (
        out[j].len() > 0 && out[j][0] != '-')) by {
            assert(j < front.len() ==> out[j] == front[j] && ls[j] == before[j]);
        }
        assert forall|j: int| 0 <= j < ls.len() && declares_secret(ls[j]) implies #[trigger] out[j]
            == ls[j] by {
            assert(j < front.len() ==> out[j] == front[j] && ls[j] == before[j]);
        }
        assert forall|j: int, c: char|
            0 <= j < ls.len() && (c == '\n' || c == '\r') && !ls[j].contains(
                c,
            ) implies !#[trigger] out[j].contains(c) by {
            assert(j < front.len() ==> out[j] == front[j] && ls[j] == before[j]);
        }
        assert(redacted_lines(out) == redacted_lines(ls));
    }
}

spec fn shown_pieces(doc: Seq<char>) -> Seq<Seq<char>> {
    let out = redacted_lines(lines_of(doc)).0;
    if pieces(doc, '\n').last().len() == 0 {
        out.push(Seq::empty())
    } else {
        out
    }
}

proof fn lemma_lines_of_pieces(doc: Seq<char>)
    ensures
        ({
            let all = pieces(doc, '\n');
            let ls = lines_of(doc);
            &&& all.len() > 0
            &&& ls.len() == (if all.last().len() == 0 { all.len() - 1 } else { all.len() as int })
            &&& forall|j: int|
                0 <= j < ls.len() ==> #[trigger] ls[j] == (if j < all.len() - 1 {
                    without_cr(all[j])
                } else {
                    all[j]
                })
            &&& forall|j: int, c: char|
                0 <= j < ls.len() && !all[j].contains(c) ==> !#[trigger] ls[j].contains(c)
        }),
{
    let all = pieces(doc, '\n');
    let ls = lines_of(doc);
    lemma_pieces(doc, '\n');
    assert forall|j: int, c: char| 0 <= j < ls.len() && !all[j].contains(c) implies !#[trigger] ls[
        j].contains(c) by {
        if ls[j].contains(c) {
            let k = choose|k: int| 0 <= k < ls[j].len() && ls[j][k] == c;
            assert(all[j][k] == c);
        }
    }
}

proof fn lemma_shown_pieces(doc: Seq<char>)
    requires
        is_secret(doc),
    ensures
        redacted_doc(doc) == joined(shown_pieces(doc), seq!['\n']),
        pieces(redacted_doc(doc), '\n') == shown_pieces(doc),
        shown_pieces(doc).len() == pieces(doc, '\n').len(),
        shown_pieces(doc).last().len() == 0 <==> pieces(doc, '\n').last().len() == 0,
        forall|j: int|
            0 <= j < shown_pieces(doc).len() ==> !(#[trigger] shown_pieces(doc)[j]).contains('\n'),
{
    reveal_strlit("\n");
    assert("\n"@ =~= seq!['\n']);
    let all = pieces(doc, '\n');
    let ls = lines_of(doc);
    let out = redacted_lines(ls).0;
    let shown = shown_pieces(doc);
    lemma_pieces(doc, '\n');
    lemma_lines_of_pieces(doc);
    lemma_redacted_lines_again(ls);
    assert(ls.len() > 0);
    assert forall|j: int| 0 <= j < shown.len() implies !(#[trigger] shown[j]).contains('\n') by {
        if j < out.len() {
            assert(!all[j].contains('\n'));
            assert(!ls[j].contains('\n'));
            assert(!out[j].contains('\n'));
        }
    }
    lemma_joined_pieces(shown, '\n');
    assert(doc.len() > 0) by {
        if doc.len() == 0 {
            assert(all == seq![Seq::<char>::empty()]);
        }
    }
    assert(has_suffix(doc, "\n"@) <==> doc.last() == '\n') by {
        assert(doc.skip(doc.len() - 1) =~= seq![doc.last()]);
        if has_suffix(doc, "\n"@) {
            assert(doc.skip(doc.len() - 1)[0] == '\n');
        }
    }
    assert((all.last().len() == 0) == (doc.last() == '\n'));
    if all.last().len() == 0 {
        assert(shown.drop_last() =~= out);
        assert(joined(shown, seq!['\n']) =~= joined(out, seq!['\n']) + seq!['\n']);
    } else {
        assert(redacted_doc(doc) =~= joined(out, seq!['\n']));
        let j = ls.len() - 1;
        assert(out[j] == ls[j] || out[j].len() > 0);
    }
}

proof fn lemma_shown_doc_again(doc: Seq<char>)
    requires
        is_secret(doc),
        !has_part(redacted_doc(doc), "\r\n"@),
    ensures
        shown_doc(redacted_doc(doc)) == redacted_doc(doc),
{
    reveal_strlit("\n");
    reveal_strlit("\r\n");
    assert("\r\n"@ =~= seq!['\r', '\n']);
    let d = redacted_doc(doc);
    let ls = lines_of(doc);
    let out = redacted_lines(ls).0;
    let shown = shown_pieces(doc);
    lemma_shown_pieces(doc);
    lemma_lines_of_pieces(doc);
    lemma_lines_of_pieces(d);
    lemma_redacted_lines_again(ls);
    let again = lines_of(d);
    assert(again =~= out) by {
        assert forall|j: int| 0 <= j < out.len() implies again[j] == out[j] by {
            assert(shown[j] == out[j]);
            if j < shown.len() - 1 && shown[j].len() > 0 && shown[j].last() == '\r' {
                lemma_piece_end(shown, '\n', j, '\r');
            }
        }
    }
    let p = choose|i: int| 0 <= i < ls.len() && declares_secret(#[trigger] ls[i]);
    assert(out[p] == ls[p]);
    assert(declares_secret(again[p]));
    assert(is_secret(d));
    assert(shown_pieces(d) == shown);
    lemma_shown_pieces(d);
}

proof fn lemma_shown_doc_separates(doc: Seq<char>)
    requires
        !has_part(doc, "\n---"@),
    ensures
        !has_part(shown_doc(doc), "\n---"@),
{
    reveal_strlit("\n---");
    let dashes = seq!['-', '-', '-'];
    assert("\n---"@ =~= seq!['\n'] + dashes);
    let d = shown_doc(doc);
    if is_secret(doc) && has_part(d, "\n---"@) {
        let all = pieces(doc, '\n');
        let ls = lines_of(doc);
        let out = redacted_lines(ls).0;
        let shown = shown_pieces(doc);
        lemma_shown_pieces(doc);
        lemma_pieces(doc, '\n');
        lemma_lines_of_pieces(doc);
        lemma_redacted_lines_again(ls);
        let q = choose|q: int| occurs_at(d, "\n---"@, q);
        assert(!dashes.contains('\n'));
        let j = lemma_behind_separator(shown, '\n', dashes, q);
        assert(shown[j].take(3)[0] == '-');
        assert(shown[j][0] == '-');
        assert(shown[j] == out[j]);
        assert(out[j] == ls[j]);
        assert(has_prefix(all[j], dashes)) by {
            assert(ls[j].take(3) =~= dashes);
            assert(all[j].take(3) =~= ls[j].take(3));
        }
        lemma_piece_start(all, '\n', j, dashes);
    }
}

proof fn lemma_separator()
    ensures
        "\n---"@.len() == 4,
        forall|k: int| 1 <= k < "\n---"@.len() ==> #[trigger] "\n---"@[k] != "\n---"@[0],
        !"\n---"@.contains('\r'),
{
    reveal_strlit("\n---");
}

proof fn lemma_shown_doc_lacks_returns(doc: Seq<char>)
    requires
        is_secret(doc),
        !doc.contains('\r'),
    ensures
        !has_part(redacted_doc(doc), "\r\n"@),
{
    reveal_strlit("\r\n");
    let d = redacted_doc(doc);
    let all = pieces(doc, '\n');
    let ls = lines_of(doc);
    let out = redacted_lines(ls).0;
    let shown = shown_pieces(doc);
    lemma_pieces(doc, '\n');
    lemma_shown_pieces(doc);
    lemma_lines_of_pieces(doc);
    lemma_redacted_lines_again(ls);
    assert forall|j: int| 0 <= j < shown.len() implies !(#[trigger] shown[j]).contains('\r') by {
        if j < out.len() {
            lemma_pieces_hold(doc, '\n', j, '\r');
            assert(!ls[j].contains('\r'));
            assert(!out[j].contains('\r'));
        }
    }
    lemma_joined_lacks(shown, seq!['\n'], '\r');
    if has_part(d, "\r\n"@) {
        let q = choose|q: int| occurs_at(d, "\r\n"@, q);
        assert(d.subrange(q, q + 2)[0] == '\r');
        assert(d[q] == '\r');
    }
}

/// Redacting keeps the documents apart: the result has as many of them as the manifest,
/// each in its place, and one that declares no Secret is the one that was there.
pub proof fn law_documents_keep_their_places(m: Seq<char>)
    ensures
        split_by(redacted_manifest(m), "\n---"@) == shown_docs(split_by(m, "\n---"@)),
        split_by(redacted_manifest(m), "\n---"@).len() == split_by(m, "\n---"@).len(),
        forall|i: int|
            0 <= i < split_by(m, "\n---"@).len() && !is_secret(split_by(m, "\n---"@)[i])
                ==> #[trigger] split_by(redacted_manifest(m), "\n---"@)[i] == split_by(
                m,
                "\n---"@,
            )[i],
{
    let sep = "\n---"@;
    lemma_separator();
    let docs = split_by(m, sep);
    let shown = shown_docs(docs);
    lemma_split_joined(m, sep);
    lemma_split_pieces(m, sep);
    assert forall|i: int| 0 <= i < shown.len() implies !has_part(#[trigger] shown[i], sep) by {
        assert(!has_part(docs[i], sep));
        lemma_shown_doc_separates(docs[i]);
    }
    if m.len() == 0 {
        assert(m =~= Seq::empty());
        assert(redacted_manifest(m) == m);
        lemma_find_from(m, sep, 0);
        assert(docs =~= seq![m]);
        assert(lines_of(m).len() == 0);
        assert(shown =~= docs);
    } else {
        lemma_joined_split(shown, sep);
    }
}

/// Redacting what was redacted changes nothing, on every manifest in whose redacted
/// Secrets no line still ends in a carriage return. A line that ends in two of them
/// loses one each time.
pub proof fn law_redacting_again_changes_nothing(m: Seq<char>)
    requires
        forall|i: int|
            0 <= i < split_by(m, "\n---"@).len() && is_secret(#[trigger] split_by(m, "\n---"@)[i])
                ==> !has_part(redacted_doc(split_by(m, "\n---"@)[i]), "\r\n"@),
    ensures
        redacted_manifest(redacted_manifest(m)) == redacted_manifest(m),
{
    let sep = "\n---"@;
    let docs = split_by(m, sep);
    let shown = shown_docs(docs);
    law_documents_keep_their_places(m);
    assert forall|i: int| 0 <= i < shown.len() implies shown_doc(#[trigger] shown[i])
        == shown[i] by {
        if is_secret(docs[i]) {
            lemma_shown_doc_again(docs[i]);
        }
    }
    assert(shown_docs(shown) =~= shown);
}

/// Redacting a manifest without carriage returns twice is redacting it once.
pub proof fn law_redacting_twice_is_redacting_once(m: Seq<char>)
    requires
        !m.contains('\r'),
    ensures
        redacted_manifest(redacted_manifest(m)) == redacted_manifest(m),
{
    let sep = "\n---"@;
    let docs = split_by(m, sep);
    lemma_separator();
    lemma_split_pieces(m, sep);
    assert forall|i: int| 0 <= i < docs.len() && is_secret(#[trigger] docs[i]) implies !has_part(
        redacted_doc(docs[i]),
        "\r\n"@,
    ) by {
        assert(!docs[i].contains('\r'));
        lemma_shown_doc_lacks_returns(docs[i]);
    }
    law_redacting_again_changes_nothing(m);
}

/// A document is a Secret where one of its lines, not indented, is `kind: Secret`; and where it
/// is one, such a line names the kind and the word.
pub proof fn law_kind_says_what_is_a_secret(doc: &str, r: bool)
    requires
        call_ensures(is_secret_doc, (doc,), r),
    ensures
        (exists|i: int| 0 <= i < lines_of(doc@).len() && #[trigger] lines_of(doc@)[i]
            == "kind: Secret"@) ==> r,
        r ==> exists|i: int|
            #![trigger lines_of(doc@)[i]]
            0 <= i < lines_of(doc@).len() && lines_of(doc@)[i].len() > 0 && (lines_of(doc@)[i][0]
                == 'k' || lines_of(doc@)[i][0] == '"' || lines_of(doc@)[i][0] == '\'')
                && lines_of(doc@)[i].contains(':'),
{
    let ls = lines_of(doc@);
    reveal_strlit("kind");
    if exists|i: int| 0 <= i < ls.len() && #[trigger] ls[i] == "kind: Secret"@ {
        let i = choose|i: int| 0 <= i < ls.len() && #[trigger] ls[i] == "kind: Secret"@;
        lemma_plain_declaration();
        assert(declares_secret(ls[i]));
    }
    if r {
        let i = choose|i: int| 0 <= i < ls.len() && declares_secret(#[trigger] ls[i]);
        let line = ls[i];
        assert("kind"@.len() == 4 && "kind"@[0] == 'k');
        lemma_key_begins_line(line);
        lemma_char_from(line, ':', 0);
        let c = char_from(line, ':', 0)->0;
        assert(line.contains(line[c]));
    }
}

proof fn lemma_plain_declaration()
    ensures
        declares_secret("kind: Secret"@),
{
    let line = "kind: Secret"@;
    reveal_strlit("kind: Secret");
    reveal_strlit("kind");
    reveal_strlit("Secret");
    assert(line.len() == 12 && "kind"@.len() == 4 && "Secret"@.len() == 6);
    lemma_first_colon(line, 4);
    assert(line.take(4) =~= "kind"@);
    assert(trimmed_end(line.take(4)) == line.take(4));
    let v = line.skip(5);
    assert(v =~= seq![' ', 'S', 'e', 'c', 'r', 'e', 't']);
    lemma_no_comment(v, 1);
    assert(v.drop_first() =~= "Secret"@);
    assert("Secret"@[0] == 'S' && "Secret"@.last() == 't');
    reveal_with_fuel(trimmed_start, 2);
    assert(trimmed_start(v) == "Secret"@);
    assert(trimmed_end("Secret"@) == "Secret"@);
    assert(trimmed(v) == "Secret"@);
}

proof fn lemma_no_comment(s: Seq<char>, from: int)
    requires
        1 <= from,
        forall|k: int| 0 <= k < s.len() ==> #[trigger] s[k] != '#',
    ensures
        comment_from(s, from) is None,
    decreases s.len() - from,
{
    if from < s.len() {
        assert(s[from] != '#');
        lemma_no_comment(s, from + 1);
    }
}

proof fn lemma_shown_at(ls: Seq<Seq<char>>, p: int)
    requires
        0 <= p < ls.len(),
    ensures
        redacted_lines(ls).0.len() == ls.len(),
        redacted_lines(ls).0[p] == shown_line(redacted_lines(ls.take(p)).1, ls[p]),
    decreases ls.len(),
{
    lemma_redacted_lines_again(ls);
    lemma_redacted_lines_again(ls.drop_last());
    if p < ls.len() - 1 {
        lemma_shown_at(ls.drop_last(), p);
        assert(ls.drop_last().take(p) =~= ls.take(p));
    } else {
        assert(ls.take(p) =~= ls.drop_last());
    }
}

proof fn lemma_section_opens(line: Seq<char>)
    requires
        line == "data:"@ || line == "stringData:"@,
    ensures
        value_key(line) is Some,
        scalar_at(line, value_key(line)->0).len() == 0,
{
    reveal_strlit("data:");
    reveal_strlit("stringData:");
    reveal_strlit("data");
    reveal_strlit("stringData");
    assert("data:"@.len() == 5 && "stringData:"@.len() == 11);
    let n = line.len() - 1;
    lemma_first_colon(line, n);
    if line == "data:"@ {
        assert(line.take(n) =~= "data"@);
    } else {
        assert(line.take(n) =~= "stringData"@);
    }
    assert(trimmed_end(line.take(n)) == line.take(n));
    assert(line.skip(n + 1) =~= Seq::empty());
}

/// A line does not end a section of values whose keys are indented by `n`.
pub open spec fn goes_on(line: Seq<char>, n: int) -> bool {
    is_blank(line) || indent_of(line) >= n || line[0] == '#'
}

proof fn lemma_section_goes_on(ls: Seq<Seq<char>>, o: int, p: int, n: int)
    requires
        0 <= o < p <= ls.len(),
        n > 0,
        ls[o] == "data:"@ || ls[o] == "stringData:"@,
        forall|k: int| o < k < p ==> goes_on(#[trigger] ls[k], n),
    ensures
        redacted_lines(ls.take(p)).1 matches Some(keys) && (keys is None || keys->0 >= n),
    decreases p - o,
{
    let t = ls.take(p);
    assert(t.drop_last() =~= ls.take(p - 1));
    assert(t.last() == ls[p - 1]);
    if p == o + 1 {
        lemma_section_opens(ls[o]);
    } else {
        lemma_section_goes_on(ls, o, p - 1, n);
        let line = ls[p - 1];
        assert(goes_on(line, n));
        lemma_indent(line);
        if value_key(line) is Some {
            lemma_value_key(line);
            if indent_of(line) > 0 {
                lemma_indented_opens_nothing(line);
            } else if is_blank(line) {
                assert(line.len() == 0);
            }
        }
    }
}

/// The values of a Secret are replaced: of a line in a section of values what stands before
/// the first colon is shown, and of one that goes on with a value nothing, at the place where
/// it stood.
pub proof fn law_values_of_a_section_are_replaced(
    manifest: &str,
    r: String,
    o: int,
    p: int,
    ind: Seq<char>,
    text: Seq<char>,
)
    requires
        call_ensures(redact_secret_manifests, (manifest,), r),
        call_ensures(is_secret_doc, (manifest,), true),
        !has_part(manifest@, "\n---"@),
        0 <= o < p < lines_of(manifest@).len(),
        lines_of(manifest@)[o] == "data:"@ || lines_of(manifest@)[o] == "stringData:"@,
        lines_of(manifest@)[p] == ind + text,
        ind.len() > 0,
        forall|k: int| 0 <= k < ind.len() ==> is_space(#[trigger] ind[k]),
        text.len() > 0,
        !is_space(text[0]),
        forall|k: int| o < k < p ==> goes_on(#[trigger] lines_of(manifest@)[k], ind.len() as int),
    ensures
        p < pieces(r@, '\n').len(),
        forall|key: Seq<char>, value: Seq<char>| #[trigger]
            (key + seq![':'] + value) == text && !key.contains(':') && !ind.contains(':')
                ==> pieces(r@, '\n')[p] == ind + key + ": <redacted>"@,
        !lines_of(manifest@)[p].contains(':') && text[0] != '#' ==> pieces(r@, '\n')[p] == ind
            + "<redacted>"@,
{
    let m = manifest@;
    let ls = lines_of(m);
    let line = ls[p];
    let n = ind.len() as int;
    lemma_one_document(m);
    lemma_shown_pieces(m);
    lemma_lines_of_pieces(m);
    lemma_shown_at(ls, p);
    lemma_section_goes_on(ls, o, p, n);
    assert(pieces(r@, '\n')[p] == redacted_lines(ls).0[p]);
    assert forall|k: int| 0 <= k < n implies is_space(#[trigger] line[k]) by {
        assert(line[k] == ind[k]);
    }
    assert(line[n] == text[0]);
    lemma_indent_is(line, n);
    lemma_indented_opens_nothing(line);
    let keys = redacted_lines(ls.take(p)).1->0;
    assert(at_keys(line, keys));
    assert forall|key: Seq<char>, value: Seq<char>| #[trigger]
        (key + seq![':'] + value) == text && !key.contains(':') && !ind.contains(':') implies pieces(
        r@,
        '\n',
    )[p] == ind + key + ": <redacted>"@ by {
        let c = n + key.len();
        assert(line[c] == text[key.len() as int]);
        assert forall|k: int| 0 <= k < c implies #[trigger] line[k] != ':' by {
            if k < n {
                assert(ind.contains(ind[k]));
            } else {
                assert(text[k - n] == key[k - n]);
                assert(key.contains(key[k - n]));
            }
        }
        lemma_first_colon(line, c);
        assert(line.take(c) =~= ind + key);
    }
    if !line.contains(':') && text[0] != '#' {
        lemma_char_from(line, ':', 0);
        if char_from(line, ':', 0) is Some {
            assert(line.contains(line[char_from(line, ':', 0)->0]));
        }
        assert(line.take(n) =~= ind);
    }
}

proof fn lemma_one_document(m: Seq<char>)
    requires
        !has_part(m, "\n---"@),
        is_secret(m),
    ensures
        redacted_manifest(m) == redacted_doc(m),
{
    lemma_find_from(m, "\n---"@, 0);
    assert(find_from(m, "\n---"@, 0) is None);
    let docs = split_by(m, "\n---"@);
    assert(docs == seq![m]);
    assert(shown_docs(docs) =~= seq![redacted_doc(m)]);
    assert(joined(seq![redacted_doc(m)], "\n---"@) == redacted_doc(m)) by {
        reveal_with_fuel(joined, 2);
    }
    assert(m.len() > 0) by {
        if m.len() == 0 {
            assert(pieces(m, '\n') =~= seq![Seq::empty()]);
            assert(lines_of(m).len() == 0);
        }
    }
}

proof fn lemma_no_section(ls: Seq<Seq<char>>, p: int)
    requires
        0 <= p <= ls.len(),
        forall|k: int|
            0 <= k < p ==> !has_part(#[trigger] ls[k], "data"@) && !has_part(ls[k], "stringData"@),
    ensures
        redacted_lines(ls.take(p)).1 is None,
    decreases p,
{
    if p > 0 {
        let t = ls.take(p);
        assert(t.drop_last() =~= ls.take(p - 1));
        assert(t.last() == ls[p - 1]);
        lemma_no_section(ls, p - 1);
        if value_key(ls[p - 1]) is Some {
            lemma_opener_holds_its_key(ls[p - 1]);
        }
    }
}

proof fn lemma_opener_holds_its_key(line: Seq<char>)
    requires
        value_key(line) is Some,
    ensures
        has_part(line, "data"@) || has_part(line, "stringData"@),
{
    lemma_char_from(line, ':', 0);
    let i = char_from(line, ':', 0)->0;
    let front = line.take(i);
    let t = trimmed_end(front);
    lemma_trimmed_end_prefix(front);
    let key = plain_word(t);
    let from = if key == t {
        0int
    } else {
        1int
    };
    assert(line.subrange(from, from + key.len()) =~= key);
    assert(occurs_at(line, key, from));
}

/// What stands before the sections of values of a Secret is shown as it is.
pub proof fn law_other_lines_of_a_secret_stay(manifest: &str, r: String, p: int)
    requires
        call_ensures(redact_secret_manifests, (manifest,), r),
        call_ensures(is_secret_doc, (manifest,), true),
        !has_part(manifest@, "\n---"@),
        0 <= p < lines_of(manifest@).len(),
        forall|k: int|
            0 <= k <= p ==> !has_part(#[trigger] lines_of(manifest@)[k], "data"@) && !has_part(
                lines_of(manifest@)[k],
                "stringData"@,
            ),
    ensures
        p < pieces(r@, '\n').len(),
        pieces(r@, '\n')[p] == lines_of(manifest@)[p],
{
    let m = manifest@;
    let ls = lines_of(m);
    lemma_one_document(m);
    lemma_shown_pieces(m);
    lemma_lines_of_pieces(m);
    lemma_shown_at(ls, p);
    lemma_no_section(ls, p);
    assert(pieces(r@, '\n')[p] == redacted_lines(ls).0[p]);
    if value_key(ls[p]) is Some {
        lemma_opener_holds_its_key(ls[p]);
    }
}

/// A document that is no Secret is shown as it is.
pub proof fn law_what_is_no_secret_stays(manifest: &str, r: String)
    requires
        call_ensures(redact_secret_manifests, (manifest,), r),
        call_ensures(is_secret_doc, (manifest,), false),
        !has_part(manifest@, "\n---"@),
    ensures
        r@ == manifest@,
{
    let m = manifest@;
    lemma_find_from(m, "\n---"@, 0);
    assert(find_from(m, "\n---"@, 0) is None);
    assert(split_by(m, "\n---"@) == seq![m]);
    law_other_documents_stay(m);
}

} // verus!
