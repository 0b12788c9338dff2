//! JSON documents: the values that the library reads, and how they are parsed.
use crate::text::same;
use vstd::prelude::*;

verus! {

/// A JSON number: its value as an `i64`, where it is one, and its text.
#[derive(Clone, Debug)]
pub struct JsonNumber {
    pub int: Option<i64>,
    pub text: String,
}

/// A JSON value. The members of an object stand in the order of the document's
/// object.
#[derive(Debug)]
pub enum Json {
    Null,
    Bool(bool),
    Number(JsonNumber),
    Str(String),
    Array(Vec<Json>),
    Object(Vec<(String, Json)>),
}

// ---------------------------------------------------------------------------
// Parsing
// ---------------------------------------------------------------------------

#[verifier::external_type_specification]
#[verifier::external_body]
pub struct ExValue(serde_json::Value);

/// What a `serde_json::Value` holds, as a [`Json`].
pub uninterp spec fn value_json(v: serde_json::Value) -> Json;

/// What `serde_json::from_str` makes of a text: the value it holds, or the text
/// of the error.
pub uninterp spec fn json_text(s: Seq<char>) -> Result<Json, Seq<char>>;

/// `serde_json::from_str::<serde_json::Value>`: the document that `text` holds,
/// or the text of the error where it holds none.
#[verifier::external_body]
fn parse_value(text: &str) -> (r: Result<serde_json::Value, String>)
    ensures
        match r {
            Ok(v) => json_text(text@) == Ok::<Json, Seq<char>>(value_json(v)),
            Err(e) => json_text(text@) == Err::<Json, Seq<char>>(e@),
        },
{
    serde_json::from_str::<serde_json::Value>(text).map_err(|e| e.to_string())
}

/// The contents of a `serde_json::Value`, variant by variant: for a number
/// `serde_json::Number::as_i64` and its display text, for an object its members
/// as `serde_json::Map` walks them.
#[verifier::external_body]
pub(crate) fn json_of(v: serde_json::Value) -> (r: Json)
    ensures
        r == value_json(v),
{
    match v {
        serde_json::Value::Null => Json::Null,
        serde_json::Value::Bool(b) => Json::Bool(b),
        serde_json::Value::Number(n) => Json::Number(JsonNumber { int: n.as_i64(), text: n.to_string() }),
        serde_json::Value::String(s) => Json::Str(s),
        serde_json::Value::Array(a) => Json::Array(a.into_iter().map(json_of).collect()),
        serde_json::Value::Object(m) => Json::Object(m.into_iter().map(|(k, x)| (k, json_of(x))).collect()),
    }
}

/// Parses a JSON document.
pub fn parse_json(text: &str) -> (r: Result<Json, String>)
    ensures
        match r {
            Ok(j) => json_text(text@) == Ok::<Json, Seq<char>>(j),
            Err(e) => json_text(text@) == Err::<Json, Seq<char>>(e@),
        },
{
    match parse_value(text) {
        Ok(v) => Ok(json_of(v)),
        Err(e) => Err(e),
    }
}

/// What a list of `serde_json::Value`s holds.
pub open spec fn values_json(s: Seq<serde_json::Value>) -> Seq<Json> {
    Seq::new(s.len(), |i: int| value_json(s[i]))
}

/// What `serde_json::from_str` makes of a text where a list is wanted: its
/// elements, or the text of the error.
pub uninterp spec fn json_list(s: Seq<char>) -> Result<Seq<Json>, Seq<char>>;

/// `serde_json::from_str::<Vec<serde_json::Value>>`: the elements of the list
/// that `text` holds, or the text of the error where it holds none.
#[verifier::external_body]
fn parse_values(text: &str) -> (r: Result<Vec<serde_json::Value>, String>)
    ensures
        match r {
            Ok(v) => json_list(text@) == Ok::<Seq<Json>, Seq<char>>(values_json(v@)),
            Err(e) => json_list(text@) == Err::<Seq<Json>, Seq<char>>(e@),
        },
{
    serde_json::from_str::<Vec<serde_json::Value>>(text).map_err(|e| e.to_string())
}

/// Parses a JSON list.
pub fn parse_json_list(text: &str) -> (r: Result<Vec<Json>, String>)
    ensures
        match r {
            Ok(v) => json_list(text@) == Ok::<Seq<Json>, Seq<char>>(v@),
            Err(e) => json_list(text@) == Err::<Seq<Json>, Seq<char>>(e@),
        },
{
    match parse_values(text) {
        Ok(list) => {
            let ghost all = list@;
            let mut out: Vec<Json> = Vec::new();
            for v in it: list
                invariant
                    it.seq() == all,
                    out@ == values_json(all).take(it.index()),
            {
                out.push(json_of(v));
                assert(out@ =~= values_json(all).take(it.index() + 1));
            }
            assert(out@ =~= values_json(all));
            Ok(out)
        },
        Err(e) => Err(e),
    }
}

/// The text of a JSON value as `serde_json` displays it.
pub uninterp spec fn json_display(j: Json) -> Seq<char>;

/// `serde_json::Value`'s `to_string`: the compact text of the value, which
/// depends on what the value holds alone. That of a number is the text of the
/// number, and `null`, `true` and `false` are those words.
#[verifier::external_body]
fn display_text(v: &serde_json::Value) -> (r: String)
    ensures
        r@ == json_display(value_json(*v)),
        match value_json(*v) {
            Json::Null => r@ == "null"@,
            Json::Bool(b) => r@ == bool_text(b),
            Json::Number(n) => r@ == n.text@,
            _ => true,
        },
{
    v.to_string()
}

/// `serde_json::Value::as_str`: the string that a value is, if it is one.
#[verifier::external_body]
fn value_str(v: &serde_json::Value) -> (r: Option<&str>)
    ensures
        match (r, value_json(*v)) {
            (Some(t), Json::Str(s)) => t@ == s@,
            (None, Json::Str(_)) => false,
            (None, _) => true,
            _ => false,
        },
{
    v.as_str()
}

/// `true` and `false` as text.
pub open spec fn bool_text(b: bool) -> Seq<char> {
    if b {
        "true"@
    } else {
        "false"@
    }
}

/// A value as plain text: a string as it is, anything else as its JSON text.
pub open spec fn plain_text(j: Json) -> Seq<char> {
    match j {
        Json::Str(s) => s@,
        Json::Null => "null"@,
        Json::Bool(b) => bool_text(b),
        Json::Number(n) => n.text@,
        _ => json_display(j),
    }
}

/// A value as plain text: a string as it is, anything else as its JSON text.
pub fn value_plain_text(v: &serde_json::Value) -> (r: String)
    ensures
        r@ == plain_text(value_json(*v)),
{
    match value_str(v) {
        Some(s) => s.to_owned(),
        None => display_text(v),
    }
}

// ---------------------------------------------------------------------------
// Reading
// ---------------------------------------------------------------------------

/// The value of the first member called `key`.
pub open spec fn member_of(members: Seq<(String, Json)>, key: Seq<char>) -> Option<Json>
    decreases members.len(),
{
    if members.len() == 0 {
        None
    } else if members[0].0@ == key {
        Some(members[0].1)
    } else {
        member_of(members.drop_first(), key)
    }
}

/// The member `key` of an object; nothing where the value is no object.
pub open spec fn member(j: Json, key: Seq<char>) -> Option<Json> {
    match j {
        Json::Object(m) => member_of(m@, key),
        _ => None,
    }
}

/// The member `key` of a value that may be missing.
pub open spec fn inner(o: Option<Json>, key: Seq<char>) -> Option<Json> {
    match o {
        Some(j) => member(j, key),
        None => None,
    }
}

/// The text of a string.
pub open spec fn string_of(o: Option<Json>) -> Option<Seq<char>> {
    match o {
        Some(Json::Str(s)) => Some(s@),
        _ => None,
    }
}

/// The text of a string, or `default` where there is none.
pub open spec fn string_or(o: Option<Json>, default: Seq<char>) -> Seq<char> {
    match string_of(o) {
        Some(s) => s,
        None => default,
    }
}

/// The integer of a number.
pub open spec fn int_of(o: Option<Json>) -> Option<i64> {
    match o {
        Some(Json::Number(n)) => n.int,
        _ => None,
    }
}

/// The integer of a number, or zero where there is none.
pub open spec fn int_or_zero(o: Option<Json>) -> i64 {
    match int_of(o) {
        Some(n) => n,
        None => 0,
    }
}

/// The elements of an array; none where the value is no array.
pub open spec fn elements(o: Option<Json>) -> Seq<Json> {
    match o {
        Some(Json::Array(a)) => a@,
        _ => Seq::empty(),
    }
}

/// The members of an object; none where the value is no object.
pub open spec fn members(o: Option<Json>) -> Seq<(String, Json)> {
    match o {
        Some(Json::Object(m)) => m@,
        _ => Seq::empty(),
    }
}

/// Whether a value is the boolean `true`.
pub open spec fn is_true(o: Option<Json>) -> bool {
    o == Some(Json::Bool(true))
}

/// The texts of the strings among some values, in order.
pub open spec fn strings_in(s: Seq<Json>) -> Seq<Seq<char>>
    decreases s.len(),
{
    if s.len() == 0 {
        Seq::empty()
    } else {
        match s.last() {
            Json::Str(t) => strings_in(s.drop_last()).push(t@),
            _ => strings_in(s.drop_last()),
        }
    }
}

/// The members of an object as text: each value its text, empty where it is no
/// string.
pub open spec fn member_texts(s: Seq<(String, Json)>) -> Seq<(Seq<char>, Seq<char>)> {
    Seq::new(s.len(), |i: int| (s[i].0@, string_or(Some(s[i].1), Seq::empty())))
}

/// The texts of a list of pairs.
pub open spec fn pair_texts(s: Seq<(String, String)>) -> Seq<(Seq<char>, Seq<char>)> {
    Seq::new(s.len(), |i: int| (s[i].0@, s[i].1@))
}

/// The reference as a value that may be missing.
pub open spec fn deref_opt(o: Option<&Json>) -> Option<Json> {
    match o {
        Some(j) => Some(*j),
        None => None,
    }
}

impl Json {
    /// The member `key` of an object.
    pub fn get(&self, key: &str) -> (r: Option<&Json>)
        ensures
            deref_opt(r) == member(*self, key@),
    {
        match self {
            Json::Object(m) => {
                let mut i: usize = 0;
                assert(m@.skip(0) =~= m@);
                while i < m.len()
                    invariant
                        i <= m@.len(),
                        *self == Json::Object(*m),
                        member_of(m@, key@) == member_of(m@.skip(i as int), key@),
                    decreases m@.len() - i,
                {
                    if same(m[i].0.as_str(), key) {
                        return Some(&m[i].1);
                    }
                    assert(m@.skip(i as int).drop_first() =~= m@.skip(i + 1));
                    i += 1;
                }
                None
            },
            _ => None,
        }
    }

    /// The text of a string.
    pub fn as_str(&self) -> (r: Option<&str>)
        ensures
            match r {
                Some(s) => string_of(Some(*self)) == Some(s@),
                None => string_of(Some(*self)) is None,
            },
    {
        match self {
            Json::Str(s) => Some(s.as_str()),
            _ => None,
        }
    }
}

/// The member `key` of a value that may be missing.
pub fn sub_value<'a>(o: Option<&'a Json>, key: &str) -> (r: Option<&'a Json>)
    ensures
        deref_opt(r) == inner(deref_opt(o), key@),
{
    match o {
        Some(j) => j.get(key),
        None => None,
    }
}

/// The text of a value that may be missing, or `default`.
pub fn text_or_default(o: Option<&Json>, default: &str) -> (r: String)
    ensures
        r@ == string_or(deref_opt(o), default@),
{
    match o {
        Some(Json::Str(s)) => s.clone(),
        _ => default.to_owned(),
    }
}

/// The text of the member `key`, or `default`.
pub fn member_text(j: &Json, key: &str, default: &str) -> (r: String)
    ensures
        r@ == string_or(member(*j, key@), default@),
{
    text_or_default(j.get(key), default)
}

/// The integer of a value that may be missing, or zero.
pub fn int_value(o: Option<&Json>) -> (r: i64)
    ensures
        r == int_or_zero(deref_opt(o)),
{
    match o {
        Some(Json::Number(n)) => match n.int {
            Some(i) => i,
            None => 0,
        },
        _ => 0,
    }
}

/// The text of a number.
pub open spec fn number_text(o: Option<Json>) -> Option<Seq<char>> {
    match o {
        Some(Json::Number(n)) => Some(n.text@),
        _ => None,
    }
}

/// The text of a number that may be missing.
pub fn number_value(o: Option<&Json>) -> (r: Option<String>)
    ensures
        crate::text::opt_text(r) == number_text(deref_opt(o)),
{
    match o {
        Some(Json::Number(n)) => Some(n.text.clone()),
        _ => None,
    }
}

/// Whether a value that may be missing is the boolean `true`.
pub fn true_value(o: Option<&Json>) -> (r: bool)
    ensures
        r == is_true(deref_opt(o)),
{
    match o {
        Some(Json::Bool(b)) => *b,
        _ => false,
    }
}

/// The strings among the elements of an array that may be missing.
pub fn string_list(o: Option<&Json>) -> (r: Vec<String>)
    ensures
        crate::text::texts(r@) == strings_in(elements(deref_opt(o))),
{
    let mut out: Vec<String> = Vec::new();
    assert(crate::text::texts(out@) =~= Seq::empty());
    if let Some(Json::Array(a)) = o {
        let mut i: usize = 0;
        assert(crate::text::texts(out@) =~= strings_in(a@.take(0)));
        while i < a.len()
            invariant
                i <= a@.len(),
                crate::text::texts(out@) == strings_in(a@.take(i as int)),
            decreases a@.len() - i,
        {
            assert(a@.take(i + 1).drop_last() =~= a@.take(i as int));
            if let Json::Str(s) = &a[i] {
                let t = s.clone();
                proof {
                    crate::text::lemma_texts_push(out@, t);
                }
                out.push(t);
            }
            i += 1;
        }
        assert(a@.take(i as int) =~= a@);
    }
    out
}

/// The members of an object that may be missing, as pairs of texts.
pub fn text_members(o: Option<&Json>) -> (r: Vec<(String, String)>)
    ensures
        pair_texts(r@) == member_texts(members(deref_opt(o))),
{
    let mut out: Vec<(String, String)> = Vec::new();
    assert(pair_texts(out@) =~= Seq::empty());
    if let Some(Json::Object(m)) = o {
        let mut i: usize = 0;
        while i < m.len()
            invariant
                i <= m@.len(),
                out@.len() == i,
                pair_texts(out@) == member_texts(m@.take(i as int)),
            decreases m@.len() - i,
        {
            let v = text_or_default(Some(&m[i].1), "");
            assert(v@ =~= string_or(Some(m@[i as int].1), Seq::empty())) by {
                reveal_strlit("");
            }
            let ghost before = out@;
            out.push((m[i].0.clone(), v));
            proof {
                let now = pair_texts(out@);
                let want = member_texts(m@.take(i + 1));
                assert forall|k: int| 0 <= k < now.len() implies now[k] == want[k] by {
                    if k < i {
                        assert(now[k] == pair_texts(before)[k]);
                        assert(want[k] == member_texts(m@.take(i as int))[k]);
                    }
                }
                assert(now =~= want);
            }
            i += 1;
        }
        assert(m@.take(i as int) =~= m@);
    }
    out
}

// ---------------------------------------------------------------------------
// Laws
// ---------------------------------------------------------------------------

proof fn lemma_member_of(members: Seq<(String, Json)>, key: Seq<char>, i: int)
    requires
        0 <= i < members.len(),
        members[i].0@ == key,
        forall|j: int| 0 <= j < i ==> (#[trigger] members[j]).0@ != key,
    ensures
        member_of(members, key) == Some(members[i].1),
    decreases i,
{
    if i > 0 {
        assert(members[0].0@ != key);
        assert(members.drop_first()[i - 1] == members[i]);
        assert forall|j: int| 0 <= j < i - 1 implies (#[trigger] members.drop_first()[j]).0@
            != key by {
            assert(members.drop_first()[j] == members[j + 1]);
        }
        lemma_member_of(members.drop_first(), key, i - 1);
    }
}

proof fn lemma_no_member(members: Seq<(String, Json)>, key: Seq<char>)
    requires
        forall|j: int| 0 <= j < members.len() ==> (#[trigger] members[j]).0@ != key,
    ensures
        member_of(members, key) is None,
    decreases members.len(),
{
    if members.len() > 0 {
        assert(members[0].0@ != key);
        assert forall|j: int| 0 <= j < members.drop_first().len() implies (
        #[trigger] members.drop_first()[j]).0@ != key by {
            assert(members.drop_first()[j] == members[j + 1]);
        }
        lemma_no_member(members.drop_first(), key);
    }
}

/// A member is found by its name, the first of that name; a name that no member has finds
/// nothing, and so does every name in what is no object.
pub proof fn law_members_are_found_by_name(j: Json, key: &str, r: Option<&Json>, i: int)
    requires
        call_ensures(Json::get, (&j, key), r),
    ensures
        j matches Json::Object(m) ==> {
            &&& (0 <= i < m@.len() && m@[i].0@ == key@ && (forall|k: int|
                0 <= k < i ==> (#[trigger] m@[k]).0@ != key@) ==> deref_opt(r) == Some(m@[i].1))
            &&& ((forall|k: int| 0 <= k < m@.len() ==> (#[trigger] m@[k]).0@ != key@) ==> r is None)
        },
        !(j is Object) ==> r is None,
{
    if let Json::Object(m) = j {
        if 0 <= i < m@.len() && m@[i].0@ == key@ && (forall|k: int|
            0 <= k < i ==> (#[trigger] m@[k]).0@ != key@) {
            lemma_member_of(m@, key@, i);
        }
        if forall|k: int| 0 <= k < m@.len() ==> (#[trigger] m@[k]).0@ != key@ {
            lemma_no_member(m@, key@);
        }
    }
}

/// A value reads as text only where it is a string, as a number only where it is one, and as
/// true only where it is the boolean.
pub proof fn law_values_read_as_what_they_are(
    j: Json,
    default: &str,
    text: String,
    number: i64,
    number_shown: Option<String>,
    yes: bool,
)
    requires
        call_ensures(text_or_default, (Some(&j), default), text),
        call_ensures(int_value, (Some(&j),), number),
        call_ensures(number_value, (Some(&j),), number_shown),
        call_ensures(true_value, (Some(&j),), yes),
    ensures
        j matches Json::Str(s) ==> text@ == s@,
        !(j is Str) ==> text@ == default@,
        j matches Json::Number(n) ==> number == (match n.int {
            Some(i) => i,
            None => 0,
        }) && crate::text::opt_text(number_shown) == Some(n.text@),
        !(j is Number) ==> number == 0 && number_shown is None,
        yes <==> j == Json::Bool(true),
{
}

proof fn lemma_strings_in(s: Seq<Json>)
    ensures
        strings_in(s) == s.filter(|j: Json| j is Str).map_values(|j: Json| j->Str_0@),
    decreases s.len(),
{
    reveal(Seq::filter);
    if s.len() > 0 {
        lemma_strings_in(s.drop_last());
        let f = |j: Json| j is Str;
        let g = |j: Json| j->Str_0@;
        if s.last() is Str {
            assert(s.filter(f) == s.drop_last().filter(f).push(s.last()));
            assert(s.filter(f).map_values(g) =~= s.drop_last().filter(f).map_values(g).push(
                g(s.last()),
            ));
        }
    } else {
        assert(s.filter(|j: Json| j is Str).map_values(|j: Json| j->Str_0@) =~= Seq::empty());
    }
}

/// Of an array the strings are read, in order, and nothing else.
pub proof fn law_strings_of_an_array_are_read(a: Vec<Json>, r: Vec<String>)
    requires
        call_ensures(string_list, (Some(&Json::Array(a)),), r),
    ensures
        crate::text::texts(r@) == a@.filter(|j: Json| j is Str).map_values(|j: Json| j->Str_0@),
{
    lemma_strings_in(a@);
}

/// A value shows as its text: a string without quotes, the words of the others as they are.
pub proof fn law_values_show_as_their_text(v: serde_json::Value, r: String)
    requires
        call_ensures(value_plain_text, (&v,), r),
    ensures
        value_json(v) matches Json::Str(s) ==> r@ == s@,
        value_json(v) matches Json::Number(n) ==> r@ == n.text@,
        value_json(v) == Json::Bool(true) ==> r@ == "true"@,
        value_json(v) == Json::Bool(false) ==> r@ == "false"@,
        value_json(v) is Null ==> r@ == "null"@,
{
}

} // verus!
