//! Rows of nodes, namespaces and events, and the order of the event feed.
use crate::dto::{
    age, plain, sort_at, status, text_at, Cell, CellView, InvolvedRef, Row, Tone, DASH,
};
use crate::lists::{
    is_ranking, lemma_sorted_in_order, lemma_sorted_members, lemma_sorted_rearranges, sort,
    sorted_by, views,
};
use crate::mappers::{age_cell, name_cell, uid_of, ObjectMeta};
use crate::text::{
    cat2, cat3, copy_opt, dec_i64, dec_int, has_prefix, join, joined, no_texts, opt_text, or_empty,
    push_text, same, strip_prefix, text_or_nothing, texts,
};
use vstd::prelude::*;

verus! {

// ---------------------------------------------------------------------------
// Nodes
// ---------------------------------------------------------------------------

/// A condition of a node.
#[derive(Clone, Debug)]
pub struct Condition {
    pub type_: String,
    pub status: String,
}

/// A node, as far as its row shows it.
#[derive(Clone, Debug)]
pub struct Node {
    pub meta: ObjectMeta,
    /// The names of its labels, in order.
    pub label_keys: Vec<String>,
    pub conditions: Vec<Condition>,
    pub kubelet_version: Option<String>,
}

/// A condition says that the node is ready.
pub open spec fn is_ready_condition(c: Condition) -> bool {
    c.type_@ == "Ready"@ && c.status@ == "True"@
}

/// A condition says that the node is under pressure.
pub open spec fn is_pressure_condition(c: Condition) -> bool {
    c.status@ == "True"@ && (c.type_@ == "MemoryPressure"@ || c.type_@ == "DiskPressure"@ || c.type_@
        == "PIDPressure"@ || c.type_@ == "NetworkUnavailable"@)
}

/// A node is ready.
pub open spec fn is_ready(s: Seq<Condition>) -> bool {
    exists|i: int| 0 <= i < s.len() && is_ready_condition(#[trigger] s[i])
}

/// A node is under pressure.
pub open spec fn has_pressure(s: Seq<Condition>) -> bool {
    exists|i: int| 0 <= i < s.len() && is_pressure_condition(#[trigger] s[i])
}

/// Whether a node is ready, by its conditions.
pub fn node_is_ready(v: &Vec<Condition>) -> (r: bool)
    ensures
        r == is_ready(v@),
{
    let mut i: usize = 0;
    while i < v.len()
        invariant
            i <= v@.len(),
            forall|k: int| 0 <= k < i ==> !is_ready_condition(#[trigger] v@[k]),
        decreases v@.len() - i,
    {
        if same(v[i].type_.as_str(), "Ready") && same(v[i].status.as_str(), "True") {
            assert(is_ready_condition(v@[i as int]));
            return true;
        }
        i += 1;
    }
    false
}

fn node_has_pressure(v: &Vec<Condition>) -> (r: bool)
    ensures
        r == has_pressure(v@),
{
    let mut i: usize = 0;
    while i < v.len()
        invariant
            i <= v@.len(),
            forall|k: int| 0 <= k < i ==> !is_pressure_condition(#[trigger] v@[k]),
        decreases v@.len() - i,
    {
        let t = v[i].type_.as_str();
        if same(v[i].status.as_str(), "True") && (same(t, "MemoryPressure") || same(
            t,
            "DiskPressure",
        ) || same(t, "PIDPressure") || same(t, "NetworkUnavailable")) {
            assert(is_pressure_condition(v@[i as int]));
            return true;
        }
        i += 1;
    }
    false
}

/// What the status of a node says, and how it is to be read.
pub open spec fn node_status(s: Seq<Condition>) -> (Seq<char>, Tone) {
    if !is_ready(s) {
        ("NotReady"@, Tone::Bad)
    } else if has_pressure(s) {
        ("Ready \u{26a0}"@, Tone::Warn)
    } else {
        ("Ready"@, Tone::Good)
    }
}

/// The roles among the labels of a node.
pub open spec fn roles_in(keys: Seq<Seq<char>>) -> Seq<Seq<char>>
    decreases keys.len(),
{
    if keys.len() == 0 {
        Seq::empty()
    } else {
        let front = roles_in(keys.drop_last());
        let k = keys.last();
        let mark = "node-role.kubernetes.io/"@;
        if has_prefix(k, mark) && k.len() > mark.len() {
            front.push(k.skip(mark.len() as int))
        } else {
            front
        }
    }
}

/// The roles of a node, as text.
pub open spec fn roles_text(keys: Seq<Seq<char>>) -> Seq<char> {
    let t = joined(roles_in(keys), ","@);
    if t.len() == 0 {
        "<none>"@
    } else {
        t
    }
}

fn node_roles(keys: &Vec<String>) -> (r: String)
    ensures
        r@ == roles_text(texts(keys@)),
{
    let ghost all = texts(keys@);
    let mut out = no_texts();
    let mut i: usize = 0;
    assert(all.take(0) =~= Seq::empty());
    while i < keys.len()
        invariant
            i <= keys@.len(),
            all == texts(keys@),
            texts(out@) == roles_in(all.take(i as int)),
        decreases keys@.len() - i,
    {
        assert(all.take(i + 1).drop_last() =~= all.take(i as int));
        assert(all[i as int] == keys@[i as int]@);
        if let Some(role) = strip_prefix(keys[i].as_str(), "node-role.kubernetes.io/") {
            if !role.is_empty() {
                push_text(&mut out, role);
            }
        }
        i += 1;
    }
    assert(all.take(i as int) =~= all);
    let t = join(&out, ",");
    if t.as_str().is_empty() {
        "<none>".to_owned()
    } else {
        t
    }
}

/// The cells of a node: NAME, STATUS, ROLES, CPU, MEMORY, VERSION.
pub open spec fn node_cells(node: Node) -> Seq<CellView> {
    seq![
        plain(node.meta.name@, Tone::Primary),
        status(node_status(node.conditions@).0, node_status(node.conditions@).1),
        plain(roles_text(texts(node.label_keys@)), Tone::Secondary),
        plain(DASH@, Tone::Secondary),
        plain(DASH@, Tone::Secondary),
        plain(text_or_nothing(node.kubelet_version), Tone::Secondary),
    ]
}

/// The row of a node. The usage of processor and memory is filled in from
/// elsewhere.
pub fn map_node(node: &Node) -> (r: Row)
    ensures
        r.uid@ == text_or_nothing(node.meta.uid),
        r.name@ == node.meta.name@,
        r.namespace is None,
        views(r.cells@) == node_cells(*node),
        r.pod is None,
        r.labels is None,
        r.involved is None,
{
    let (text, tone) = if !node_is_ready(&node.conditions) {
        ("NotReady", Tone::Bad)
    } else if node_has_pressure(&node.conditions) {
        ("Ready \u{26a0}", Tone::Warn)
    } else {
        ("Ready", Tone::Good)
    };
    let roles = node_roles(&node.label_keys);
    let version = or_empty(&node.kubelet_version);
    let mut cells: Vec<Cell> = Vec::new();
    cells.push(name_cell(&node.meta));
    cells.push(Cell::status(text, tone));
    cells.push(Cell::new(roles.as_str(), Tone::Secondary));
    cells.push(Cell::new(DASH, Tone::Secondary));
    cells.push(Cell::new(DASH, Tone::Secondary));
    cells.push(Cell::new(version.as_str(), Tone::Secondary));
    assert(views(cells@) =~= node_cells(*node));
    Row {
        uid: uid_of(&node.meta),
        name: node.meta.name.clone(),
        namespace: None,
        cells,
        pod: None,
        labels: None,
        involved: None,
    }
}

// ---------------------------------------------------------------------------
// Namespaces
// ---------------------------------------------------------------------------

/// A namespace, as far as its row shows it.
#[derive(Clone, Debug)]
pub struct Namespace {
    pub meta: ObjectMeta,
    pub phase: Option<String>,
}

/// The phase of a namespace.
pub open spec fn phase_of(ns: Namespace) -> Seq<char> {
    match ns.phase {
        Some(p) => p@,
        None => "Active"@,
    }
}

/// The phase of a namespace; active where it says nothing.
pub fn namespace_phase(ns: &Namespace) -> (r: String)
    ensures
        r@ == phase_of(*ns),
{
    match &ns.phase {
        Some(p) => p.clone(),
        None => "Active".to_owned(),
    }
}

/// The cells of a namespace: NAME, STATUS, PODS, AGE.
pub open spec fn namespace_cells(ns: Namespace, tone: Tone) -> Seq<CellView> {
    seq![
        plain(ns.meta.name@, Tone::Primary),
        status(phase_of(ns), tone),
        plain(DASH@, Tone::Secondary),
        age(opt_text(ns.meta.created)),
    ]
}

/// The row of a namespace. `tone` is that of its phase, which [`namespace_phase`]
/// gives. Its pods are not counted.
pub fn map_namespace(ns: &Namespace, tone: Tone) -> (r: Row)
    ensures
        r.uid@ == text_or_nothing(ns.meta.uid),
        r.name@ == ns.meta.name@,
        r.namespace is None,
        views(r.cells@) == namespace_cells(*ns, tone),
        r.pod is None,
        r.labels is None,
        r.involved is None,
{
    let phase = namespace_phase(ns);
    let mut cells: Vec<Cell> = Vec::new();
    cells.push(name_cell(&ns.meta));
    cells.push(Cell::status(phase.as_str(), tone));
    cells.push(Cell::new(DASH, Tone::Secondary));
    cells.push(age_cell(&ns.meta));
    assert(views(cells@) =~= namespace_cells(*ns, tone));
    Row {
        uid: uid_of(&ns.meta),
        name: ns.meta.name.clone(),
        namespace: None,
        cells,
        pod: None,
        labels: None,
        involved: None,
    }
}

// ---------------------------------------------------------------------------
// Events
// ---------------------------------------------------------------------------

/// A point in time: as text, and in milliseconds since 1970.
#[derive(Clone, Debug)]
pub struct Moment {
    pub text: String,
    pub millis: i64,
}

/// The object that an event is about.
#[derive(Clone, Debug)]
pub struct InvolvedObject {
    pub kind: Option<String>,
    pub name: Option<String>,
    pub namespace: Option<String>,
    pub api_version: Option<String>,
}

/// An event, as far as its row shows it.
#[derive(Clone, Debug)]
pub struct Event {
    pub meta: ObjectMeta,
    pub type_: Option<String>,
    pub reason: Option<String>,
    pub message: Option<String>,
    pub count: Option<i32>,
    pub last_timestamp: Option<Moment>,
    pub event_time: Option<Moment>,
    pub creation_time: Option<Moment>,
    pub involved_object: InvolvedObject,
}

/// The start of time, as text.
pub const EPOCH: &'static str = "1970-01-01T00:00:00Z";

/// When an event was last seen, as text and in milliseconds.
pub open spec fn last_seen(e: Event) -> (Seq<char>, i64) {
    match e.last_timestamp {
        Some(t) => (t.text@, t.millis),
        None => match e.event_time {
            Some(t) => (t.text@, t.millis),
            None => match e.creation_time {
                Some(t) => (t.text@, t.millis),
                None => (EPOCH@, 0),
            },
        },
    }
}

/// When an event was last seen: its last time, else its own time, else when it was
/// made.
pub fn event_last_seen(e: &Event) -> (r: (String, i64))
    ensures
        (r.0@, r.1) == last_seen(*e),
{
    match &e.last_timestamp {
        Some(t) => {
            return (t.text.clone(), t.millis);
        },
        None => {},
    }
    match &e.event_time {
        Some(t) => {
            return (t.text.clone(), t.millis);
        },
        None => {},
    }
    match &e.creation_time {
        Some(t) => (t.text.clone(), t.millis),
        None => (EPOCH.to_owned(), 0),
    }
}

/// The type of an event.
pub open spec fn type_of(e: Event) -> Seq<char> {
    match e.type_ {
        Some(t) => t@,
        None => "Normal"@,
    }
}

/// How often an event came.
pub open spec fn count_of(e: Event) -> int {
    match e.count {
        Some(n) => n as int,
        None => 1,
    }
}

/// The cells of an event: TYPE, REASON, OBJECT, NAMESPACE, AGE, COUNT, MESSAGE.
pub open spec fn event_cells(e: Event) -> Seq<CellView> {
    seq![
        plain(
            type_of(e),
            if type_of(e) == "Warning"@ {
                Tone::Bad
            } else {
                Tone::Good
            },
        ),
        plain(text_or_nothing(e.reason), Tone::Primary),
        plain(
            text_or_nothing(e.involved_object.kind) + "/"@ + text_or_nothing(
                e.involved_object.name,
            ),
            Tone::Secondary,
        ),
        plain(text_or_nothing(e.meta.namespace), Tone::Muted),
        CellView { sort: Some(last_seen(e).1), ..age(Some(last_seen(e).0)) },
        plain("×"@ + dec_int(count_of(e)), Tone::Secondary),
        plain(text_or_nothing(e.message), Tone::Secondary),
    ]
}

/// The row of an event. It sorts by when the event was last seen, and leads to the
/// object that it is about.
pub fn map_event(e: &Event) -> (r: Row)
    ensures
        r.uid@ == text_or_nothing(e.meta.uid),
        r.name@ == e.meta.name@,
        opt_text(r.namespace) == opt_text(e.meta.namespace),
        views(r.cells@) == event_cells(*e),
        r.pod is None,
        r.labels is None,
        match (r.involved, e.involved_object.kind) {
            (Some(v), Some(kind)) => {
                &&& v.kind@ == kind@
                &&& v.name@ == text_or_nothing(e.involved_object.name)
                &&& opt_text(v.namespace) == opt_text(e.involved_object.namespace)
                &&& opt_text(v.api_version) == opt_text(e.involved_object.api_version)
            },
            (None, None) => true,
            _ => false,
        },
{
    let type_ = match &e.type_ {
        Some(t) => t.clone(),
        None => "Normal".to_owned(),
    };
    let (seen, millis) = event_last_seen(e);
    let reason = or_empty(&e.reason);
    let kind = or_empty(&e.involved_object.kind);
    let name = or_empty(&e.involved_object.name);
    let object = cat3(kind.as_str(), "/", name.as_str());
    let namespace = or_empty(&e.meta.namespace);
    let n: i32 = match e.count {
        Some(n) => n,
        None => 1,
    };
    let digits = dec_i64(n as i64);
    let count = cat2("×", digits.as_str());
    let message = or_empty(&e.message);
    let mut cells: Vec<Cell> = Vec::new();
    cells.push(
        Cell::new(
            type_.as_str(),
            if same(type_.as_str(), "Warning") {
                Tone::Bad
            } else {
                Tone::Good
            },
        ),
    );
    cells.push(Cell::new(reason.as_str(), Tone::Primary));
    cells.push(Cell::new(object.as_str(), Tone::Secondary));
    cells.push(Cell::new(namespace.as_str(), Tone::Muted));
    cells.push(Cell::age(Some(seen.as_str())).with_sort(millis));
    cells.push(Cell::new(count.as_str(), Tone::Secondary));
    cells.push(Cell::new(message.as_str(), Tone::Secondary));
    assert(views(cells@) =~= event_cells(*e));
    let involved = match &e.involved_object.kind {
        Some(kind) => Some(
            InvolvedRef {
                kind: kind.clone(),
                name,
                namespace: copy_opt(&e.involved_object.namespace),
                api_version: copy_opt(&e.involved_object.api_version),
            },
        ),
        None => None,
    };
    Row {
        uid: uid_of(&e.meta),
        name: e.meta.name.clone(),
        namespace: copy_opt(&e.meta.namespace),
        cells,
        pod: None,
        labels: None,
        involved,
    }
}

/// A row is that of a warning.
pub open spec fn is_warning(r: Row) -> bool {
    text_at(r, 0) == "Warning"@
}

/// The order of the feed: warnings first, and the last seen first.
pub open spec fn feed_order() -> spec_fn(Row, Row) -> bool {
    |a: Row, b: Row|
        (is_warning(a) && !is_warning(b)) || (is_warning(a) == is_warning(b) && sort_at(a, 4)
            > sort_at(b, 4))
}

fn feed_before(a: &Row, b: &Row) -> (r: bool)
    ensures
        r == feed_order()(*a, *b),
{
    proof {
        reveal_strlit("Warning");
    }
    let x = a.cell_text(0);
    let y = b.cell_text(0);
    let warn_a = same(x.as_str(), "Warning");
    let warn_b = same(y.as_str(), "Warning");
    (warn_a && !warn_b) || (warn_a == warn_b && a.sort_key(4) > b.sort_key(4))
}

/// The first `cap` of some rows.
pub open spec fn first_rows(s: Seq<Row>, cap: int) -> Seq<Row> {
    if s.len() <= cap {
        s
    } else {
        s.take(cap)
    }
}

/// The event feed: warnings first, the last seen first, and no more than `cap`
/// rows.
pub fn sort_events(rows: Vec<Row>, cap: usize) -> (r: Vec<Row>)
    ensures
        r@ == first_rows(sorted_by(rows@, feed_order()), cap as int),
{
    let mut sorted = sort(rows, feed_before, Ghost(feed_order()));
    if sorted.len() > cap {
        sorted.truncate(cap);
        assert(sorted@ =~= first_rows(sorted_by(rows@, feed_order()), cap as int));
    }
    sorted
}

// ---------------------------------------------------------------------------
// Laws
// ---------------------------------------------------------------------------

proof fn lemma_feed_order_ranks()
    ensures
        is_ranking(feed_order()),
{
}

/// In the feed every warning stands above everything else, and within each the last
/// seen first; what is cut off stands behind all that is kept.
pub proof fn law_feed_keeps_what_matters(rows: Seq<Row>, cap: int, i: int, j: int)
    requires
        0 <= i < first_rows(sorted_by(rows, feed_order()), cap).len(),
        i < j < sorted_by(rows, feed_order()).len(),
        0 <= cap,
    ensures
        !feed_order()(sorted_by(rows, feed_order())[j], first_rows(sorted_by(rows, feed_order()), cap)[i]),
        sorted_by(rows, feed_order()).to_multiset() =~= rows.to_multiset(),
{
    lemma_feed_order_ranks();
    lemma_sorted_in_order(rows, feed_order());
    lemma_sorted_rearranges(rows, feed_order());
    let s = sorted_by(rows, feed_order());
    assert(first_rows(s, cap)[i] == s[i]);
    assert(!feed_order()(s[j], s[i]));
}

/// A node that is not ready shows that, whatever else its conditions say.
pub proof fn law_not_ready_shows_first(s: Seq<Condition>)
    requires
        !is_ready(s),
    ensures
        node_status(s) == ("NotReady"@, Tone::Bad),
{
}

/// The status of a node follows its conditions: it is not ready unless the condition
/// `Ready` is `True`, and of a ready one it says where one of the four kinds of trouble is
/// `True`.
pub proof fn law_node_status_follows_its_conditions(node: Node, r: Row)
    requires
        call_ensures(map_node, (&node,), r),
    ensures
        r.cells@.len() == 6,
        r.cells@[1].dot,
        (forall|i: int|
            0 <= i < node.conditions@.len() ==> (#[trigger] node.conditions@[i]).type_@ != "Ready"@
                || node.conditions@[i].status@ != "True"@) ==> r.cells@[1].text@ == "NotReady"@
            && r.cells@[1].tone == Tone::Bad,
        (exists|i: int|
            0 <= i < node.conditions@.len() && (#[trigger] node.conditions@[i]).type_@ == "Ready"@
                && node.conditions@[i].status@ == "True"@) && (exists|i: int|
            0 <= i < node.conditions@.len() && (#[trigger] node.conditions@[i]).status@ == "True"@
                && (node.conditions@[i].type_@ == "MemoryPressure"@ || node.conditions@[i].type_@
                == "DiskPressure"@ || node.conditions@[i].type_@ == "PIDPressure"@
                || node.conditions@[i].type_@ == "NetworkUnavailable"@)) ==> r.cells@[1].text@
            == "Ready \u{26a0}"@ && r.cells@[1].tone == Tone::Warn,
        (exists|i: int|
            0 <= i < node.conditions@.len() && (#[trigger] node.conditions@[i]).type_@ == "Ready"@
                && node.conditions@[i].status@ == "True"@) && (forall|i: int|
            0 <= i < node.conditions@.len() && (#[trigger] node.conditions@[i]).status@ == "True"@
                ==> node.conditions@[i].type_@ != "MemoryPressure"@ && node.conditions@[i].type_@
                != "DiskPressure"@ && node.conditions@[i].type_@ != "PIDPressure"@
                && node.conditions@[i].type_@ != "NetworkUnavailable"@) ==> r.cells@[1].text@
            == "Ready"@ && r.cells@[1].tone == Tone::Good,
{
    let s = node.conditions@;
    let v = views(r.cells@);
    assert(v.len() == r.cells@.len());
    assert(v[1] == r.cells@[1]@);
    if exists|i: int|
        0 <= i < s.len() && (#[trigger] s[i]).type_@ == "Ready"@ && s[i].status@ == "True"@ {
        let i = choose|i: int|
            0 <= i < s.len() && (#[trigger] s[i]).type_@ == "Ready"@ && s[i].status@ == "True"@;
        assert(is_ready_condition(s[i]));
    }
    if exists|i: int|
        0 <= i < s.len() && (#[trigger] s[i]).status@ == "True"@ && (s[i].type_@
            == "MemoryPressure"@ || s[i].type_@ == "DiskPressure"@ || s[i].type_@
            == "PIDPressure"@ || s[i].type_@ == "NetworkUnavailable"@) {
        let i = choose|i: int|
            0 <= i < s.len() && (#[trigger] s[i]).status@ == "True"@ && (s[i].type_@
                == "MemoryPressure"@ || s[i].type_@ == "DiskPressure"@ || s[i].type_@
                == "PIDPressure"@ || s[i].type_@ == "NetworkUnavailable"@);
        assert(is_pressure_condition(s[i]));
    }
}

proof fn lemma_roles_in(keys: Seq<Seq<char>>)
    ensures
        roles_in(keys) == keys.filter(
            |k: Seq<char>| has_prefix(k, "node-role.kubernetes.io/"@) && k.len() > 24,
        ).map_values(|k: Seq<char>| k.skip(24)),
    decreases keys.len(),
{
    reveal(Seq::filter);
    reveal_strlit("node-role.kubernetes.io/");
    let p = |k: Seq<char>| has_prefix(k, "node-role.kubernetes.io/"@) && k.len() > 24;
    let f = |k: Seq<char>| k.skip(24);
    assert("node-role.kubernetes.io/"@.len() == 24);
    if keys.len() > 0 {
        lemma_roles_in(keys.drop_last());
        let front = keys.drop_last().filter(p);
        assert(front.push(keys.last()).map_values(f) =~= front.map_values(f).push(f(keys.last())));
    }
    assert(roles_in(keys) =~= keys.filter(p).map_values(f));
}

/// The row of a node shows its name, its roles and its version. The roles are what its
/// labels name behind `node-role.kubernetes.io/`, in the order of the labels; a node
/// without any has none.
pub proof fn law_node_row_shows_the_node(node: Node, r: Row)
    requires
        call_ensures(map_node, (&node,), r),
    ensures
        r.name@ == node.meta.name@,
        node.meta.uid matches Some(u) ==> r.uid@ == u@,
        r.cells@.len() == 6,
        r.cells@[0].text@ == node.meta.name@,
        ({
            let roles = texts(node.label_keys@).filter(
                |k: Seq<char>| has_prefix(k, "node-role.kubernetes.io/"@) && k.len() > 24,
            ).map_values(|k: Seq<char>| k.skip(24));
            r.cells@[2].text@ == (if roles.len() == 0 {
                "<none>"@
            } else {
                joined(roles, ","@)
            })
        }),
        node.kubelet_version matches Some(t) ==> r.cells@[5].text@ == t@,
        node.kubelet_version is None ==> r.cells@[5].text@.len() == 0,
{
    let keys = texts(node.label_keys@);
    lemma_roles_in(keys);
    let v = views(r.cells@);
    assert(v.len() == r.cells@.len());
    assert(v[0] == r.cells@[0]@);
    assert(v[2] == r.cells@[2]@);
    assert(v[5] == r.cells@[5]@);
    let roles = roles_in(keys);
    if roles.len() > 0 {
        lemma_roles_are_words(keys);
        assert(roles[0].len() > 0);
        lemma_joined_holds_first(roles, ","@);
    }
}

proof fn lemma_roles_are_words(keys: Seq<Seq<char>>)
    ensures
        forall|i: int| 0 <= i < roles_in(keys).len() ==> (#[trigger] roles_in(keys)[i]).len() > 0,
    decreases keys.len(),
{
    if keys.len() > 0 {
        let front = roles_in(keys.drop_last());
        lemma_roles_are_words(keys.drop_last());
        assert forall|i: int| 0 <= i < roles_in(keys).len() implies (#[trigger] roles_in(
            keys,
        )[i]).len() > 0 by {
            if i < front.len() {
                assert(roles_in(keys)[i] == front[i]);
            }
        }
    }
}

proof fn lemma_joined_holds_first(parts: Seq<Seq<char>>, sep: Seq<char>)
    requires
        parts.len() > 0,
    ensures
        joined(parts, sep).len() >= parts[0].len(),
    decreases parts.len(),
{
    if parts.len() > 1 {
        lemma_joined_holds_first(parts.drop_last(), sep);
    }
}

/// The row of a namespace shows its name, its phase and how old it is; one that says
/// nothing of its phase is active.
pub proof fn law_namespace_row_shows_the_namespace(ns: Namespace, tone: Tone, r: Row)
    requires
        call_ensures(map_namespace, (&ns, tone), r),
    ensures
        r.name@ == ns.meta.name@,
        r.cells@.len() == 4,
        r.cells@[0].text@ == ns.meta.name@,
        r.cells@[1].text@ == (match ns.phase {
            Some(p) => p@,
            None => "Active"@,
        }),
        r.cells@[1].tone == tone,
        ns.meta.created matches Some(t) ==> r.cells@[3].text@ == t@,
        r.cells@[3].format matches Some(f) && f@ == "age"@,
{
    let v = views(r.cells@);
    assert(v.len() == r.cells@.len());
    assert(v[0] == r.cells@[0]@);
    assert(v[1] == r.cells@[1]@);
    assert(v[3] == r.cells@[3]@);
}

/// The row of an event shows the event, each thing in its column. It was last seen at its
/// last time, else at its own time, else when it was made, and came once where it does not
/// say how often.
pub proof fn law_event_row_shows_the_event(e: Event, r: Row)
    requires
        call_ensures(map_event, (&e,), r),
    ensures
        r.cells@.len() == 7,
        r.cells@[0].text@ == (match e.type_ {
            Some(t) => t@,
            None => "Normal"@,
        }),
        r.cells@[0].text@ == "Warning"@ ==> r.cells@[0].tone == Tone::Bad,
        r.cells@[0].text@ != "Warning"@ ==> r.cells@[0].tone == Tone::Good,
        e.reason matches Some(t) ==> r.cells@[1].text@ == t@,
        e.involved_object.kind matches Some(k) ==> (e.involved_object.name matches Some(n)
            ==> r.cells@[2].text@ == k@ + "/"@ + n@),
        e.meta.namespace matches Some(n) ==> r.cells@[3].text@ == n@,
        e.last_timestamp matches Some(t) ==> r.cells@[4].text@ == t.text@ && r.cells@[4].sort
            == Some(t.millis),
        e.last_timestamp is None ==> (e.event_time matches Some(t) ==> r.cells@[4].text@ == t.text@
            && r.cells@[4].sort == Some(t.millis)),
        e.last_timestamp is None && e.event_time is None ==> (e.creation_time matches Some(t)
            ==> r.cells@[4].text@ == t.text@ && r.cells@[4].sort == Some(t.millis)),
        e.last_timestamp is None && e.event_time is None && e.creation_time is None
            ==> r.cells@[4].text@ == "1970-01-01T00:00:00Z"@ && r.cells@[4].sort == Some(0i64),
        r.cells@[4].format matches Some(f) && f@ == "age"@,
        e.count matches Some(n) ==> r.cells@[5].text@ == "×"@ + dec_int(n as int),
        e.count is None ==> r.cells@[5].text@ == "×"@ + dec_int(1),
        e.message matches Some(t) ==> r.cells@[6].text@ == t@,
{
    let v = views(r.cells@);
    assert(v.len() == r.cells@.len());
    assert(v[0] == r.cells@[0]@);
    assert(v[1] == r.cells@[1]@);
    assert(v[2] == r.cells@[2]@);
    assert(v[3] == r.cells@[3]@);
    assert(v[4] == r.cells@[4]@);
    assert(v[5] == r.cells@[5]@);
    assert(v[6] == r.cells@[6]@);
}

/// The feed holds as many of the rows as it may, warnings above everything else and
/// within each the last seen first.
pub proof fn law_feed_is_in_order(rows: Vec<Row>, cap: usize, r: Vec<Row>, i: int, j: int)
    requires
        call_ensures(sort_events, (rows, cap), r),
        0 <= i < j < r@.len(),
        r@[i].cells@.len() == 7,
        r@[j].cells@.len() == 7,
        r@[i].cells@[4].sort is Some,
        r@[j].cells@[4].sort is Some,
    ensures
        r@.len() <= cap,
        r@[j].cells@[0].text@ == "Warning"@ ==> r@[i].cells@[0].text@ == "Warning"@,
        (r@[j].cells@[0].text@ == "Warning"@ <==> r@[i].cells@[0].text@ == "Warning"@)
            ==> r@[i].cells@[4].sort->0 >= r@[j].cells@[4].sort->0,
{
    lemma_feed_order_ranks();
    lemma_sorted_in_order(rows@, feed_order());
    let s = sorted_by(rows@, feed_order());
    assert(s[i] == r@[i] && s[j] == r@[j]);
    assert(!feed_order()(s[j], s[i]));
}

/// The feed shows rows that were there, all of them where there is room; a row that is cut
/// off would stand below every one that is shown: it is no warning where one shown is none,
/// and was not seen later than one like it.
pub proof fn law_feed_cuts_off_the_least(rows: Vec<Row>, cap: usize, r: Vec<Row>, x: Row, i: int)
    requires
        call_ensures(sort_events, (rows, cap), r),
        rows@.contains(x),
        0 <= i < r@.len(),
        x.cells@.len() == 7,
        r@[i].cells@.len() == 7,
        x.cells@[4].sort is Some,
        r@[i].cells@[4].sort is Some,
    ensures
        r@.len() == (if rows@.len() <= cap {
            rows@.len() as int
        } else {
            cap as int
        }),
        rows@.contains(r@[i]),
        r@.contains(x) || {
            &&& x.cells@[0].text@ == "Warning"@ ==> r@[i].cells@[0].text@ == "Warning"@
            &&& (x.cells@[0].text@ == "Warning"@ <==> r@[i].cells@[0].text@ == "Warning"@)
                ==> r@[i].cells@[4].sort->0 >= x.cells@[4].sort->0
        },
{
    lemma_feed_order_ranks();
    lemma_sorted_in_order(rows@, feed_order());
    lemma_sorted_members(rows@, feed_order());
    let s = sorted_by(rows@, feed_order());
    assert(s[i] == r@[i]);
    assert(s.contains(s[i]));
    assert(s.contains(x));
    let k = choose|k: int| 0 <= k < s.len() && s[k] == x;
    if k < r@.len() {
        assert(r@[k] == x);
    } else {
        assert(!feed_order()(s[k], s[i]));
    }
}

/// A node is ready where its condition `Ready` is `True`; a namespace without a phase is
/// active; and an event was last seen when it last happened, or else when it began or was made.
pub proof fn law_what_is_read_of_cluster_objects(
    v: Vec<Condition>,
    ns: Namespace,
    e: Event,
    ready: bool,
    phase: String,
    seen: (String, i64),
)
    requires
        call_ensures(node_is_ready, (&v,), ready),
        call_ensures(namespace_phase, (&ns,), phase),
        call_ensures(event_last_seen, (&e,), seen),
    ensures
        ready <==> exists|i: int|
            0 <= i < v@.len() && (#[trigger] v@[i]).type_@ == "Ready"@ && v@[i].status@ == "True"@,
        ns.phase matches Some(p) ==> phase@ == p@,
        ns.phase is None ==> phase@ == "Active"@,
        e.last_timestamp matches Some(t) ==> seen.0@ == t.text@ && seen.1 == t.millis,
        e.last_timestamp is None ==> (e.event_time matches Some(t) ==> seen.0@ == t.text@ && seen.1
            == t.millis),
        e.last_timestamp is None && e.event_time is None ==> (e.creation_time matches Some(t)
            ==> seen.0@ == t.text@ && seen.1 == t.millis),
{
    if ready {
        let i = choose|i: int| 0 <= i < v@.len() && is_ready_condition(#[trigger] v@[i]);
        assert(v@[i].type_@ == "Ready"@);
    }
    if exists|i: int|
        0 <= i < v@.len() && (#[trigger] v@[i]).type_@ == "Ready"@ && v@[i].status@ == "True"@ {
        let i = choose|i: int|
            0 <= i < v@.len() && (#[trigger] v@[i]).type_@ == "Ready"@ && v@[i].status@ == "True"@;
        assert(is_ready_condition(v@[i]));
    }
}

} // verus!
