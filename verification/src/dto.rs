//! Table rows: what the views show of a resource.
use crate::lists::{Named, TextMap};
use vstd::prelude::*;

verus! {

/// Placeholder for an unset value.
pub const DASH: &'static str = "—";

/// How a cell is to be read.
#[derive(Clone, Copy, Debug, PartialEq, Eq, Structural)]
pub enum Tone {
    Primary,
    Secondary,
    Muted,
    Good,
    Warn,
    Bad,
}

/// One cell of a row.
#[derive(Clone, Debug)]
pub struct Cell {
    pub text: String,
    pub tone: Tone,
    /// A leading dot in the colour of the tone.
    pub dot: bool,
    /// How the text is to be formatted, where it is not shown as it is.
    pub format: Option<&'static str>,
    /// What the cell sorts by, where that is not its text.
    pub sort: Option<i64>,
}

/// What a cell says.
#[verifier::ext_equal]
pub struct CellView {
    pub text: Seq<char>,
    pub tone: Tone,
    pub dot: bool,
    pub format: Option<Seq<char>>,
    pub sort: Option<i64>,
}

impl View for Cell {
    type V = CellView;

    open spec fn view(&self) -> CellView {
        CellView {
            text: self.text@,
            tone: self.tone,
            dot: self.dot,
            format: match self.format {
                Some(f) => Some(f@),
                None => None,
            },
            sort: self.sort,
        }
    }
}

/// A plain cell.
pub open spec fn plain(text: Seq<char>, tone: Tone) -> CellView {
    CellView { text, tone, dot: false, format: None, sort: None }
}

/// A cell with a dot before a status.
pub open spec fn status(text: Seq<char>, tone: Tone) -> CellView {
    CellView { text, tone, dot: true, format: None, sort: None }
}

/// A cell with a time that is shown as an age.
pub open spec fn age(time: Option<Seq<char>>) -> CellView {
    CellView {
        text: match time {
            Some(t) => t,
            None => Seq::empty(),
        },
        tone: Tone::Secondary,
        dot: false,
        format: Some("age"@),
        sort: None,
    }
}

impl Cell {
    /// A plain cell.
    pub fn new(text: &str, tone: Tone) -> (r: Cell)
        ensures
            r@ == plain(text@, tone),
    {
        Cell { text: text.to_owned(), tone, dot: false, format: None, sort: None }
    }

    /// A cell with a dot before a status.
    pub fn status(text: &str, tone: Tone) -> (r: Cell)
        ensures
            r@ == status(text@, tone),
    {
        Cell { text: text.to_owned(), tone, dot: true, format: None, sort: None }
    }

    /// A cell with a time that is shown as an age.
    pub fn age(time: Option<&str>) -> (r: Cell)
        ensures
            r@ == age(
                (match time {
                    Some(t) => Some(t@),
                    None => None,
                }),
            ),
    {
        let text = match time {
            Some(t) => t.to_owned(),
            None => String::new(),
        };
        Cell { text, tone: Tone::Secondary, dot: false, format: Some("age"), sort: None }
    }

    /// The same cell with a key to sort by.
    pub fn with_sort(self, key: i64) -> (r: Cell)
        ensures
            r@ == (CellView { sort: Some(key), ..self@ }),
    {
        Cell {
            text: self.text,
            tone: self.tone,
            dot: self.dot,
            format: self.format,
            sort: Some(key),
        }
    }
}

/// Totals of what a pod's containers request and may use. A request total is
/// there once any container sets one; a limit total only where every container
/// is limited.
#[derive(Clone, Copy, Debug, PartialEq, Eq, Structural)]
pub struct PodResources {
    pub cpu_request_millis: Option<i64>,
    pub cpu_limit_millis: Option<i64>,
    pub mem_request_bytes: Option<i64>,
    pub mem_limit_bytes: Option<i64>,
}

/// What the views show of a pod beyond its cells.
#[derive(Clone, Debug)]
pub struct PodMeta {
    pub node: String,
    pub containers: Vec<String>,
    pub status: String,
    pub ready: String,
    pub restarts: i32,
    pub creation_ts: String,
    pub status_tone: Tone,
    pub resources: PodResources,
}

/// The object an event is about.
#[derive(Clone, Debug)]
pub struct InvolvedRef {
    pub kind: String,
    pub name: String,
    pub namespace: Option<String>,
    pub api_version: Option<String>,
}

/// One row of a table.
#[derive(Clone, Debug)]
pub struct Row {
    pub uid: String,
    pub name: String,
    pub namespace: Option<String>,
    pub cells: Vec<Cell>,
    pub pod: Option<PodMeta>,
    pub labels: Option<TextMap>,
    pub involved: Option<InvolvedRef>,
}

impl Named for Row {
    open spec fn key(&self) -> Seq<char> {
        self.uid@
    }

    fn key_str(&self) -> (r: &str) {
        self.uid.as_str()
    }
}

/// The sort key of the cell at `i`, or zero where there is none.
pub open spec fn sort_at(r: Row, i: int) -> int {
    if 0 <= i < r.cells@.len() {
        match r.cells@[i].sort {
            Some(k) => k as int,
            None => 0,
        }
    } else {
        0
    }
}

/// The text of the cell at `i`, or nothing where there is none.
pub open spec fn text_at(r: Row, i: int) -> Seq<char> {
    if 0 <= i < r.cells@.len() {
        r.cells@[i].text@
    } else {
        Seq::empty()
    }
}

impl Row {
    /// The sort key of the cell at `i`, or zero where there is none.
    pub fn sort_key(&self, i: usize) -> (r: i64)
        ensures
            r == sort_at(*self, i as int),
    {
        if i < self.cells.len() {
            match self.cells[i].sort {
                Some(k) => k,
                None => 0,
            }
        } else {
            0
        }
    }

    /// The text of the cell at `i`, or nothing where there is none.
    pub fn cell_text(&self, i: usize) -> (r: String)
        ensures
            r@ == text_at(*self, i as int),
    {
        if i < self.cells.len() {
            self.cells[i].text.clone()
        } else {
            String::new()
        }
    }
}

/// New rows of one kind of resource.
#[derive(Clone, Debug)]
pub struct ResourceUpdate {
    pub kind: String,
    pub rows: Vec<Row>,
}

/// Whether one kind of resource can be watched.
#[derive(Clone, Debug)]
pub struct KindStatus {
    pub kind: String,
    pub status: String,
}

// ---------------------------------------------------------------------------
// Laws
// ---------------------------------------------------------------------------

/// A cell shows the text and the tone it was made with; only a status has a dot, and only an
/// age is formatted.
pub proof fn law_cells_show_what_they_were_made_with(
    text: &str,
    tone: Tone,
    time: Option<&str>,
    key: i64,
    plain_cell: Cell,
    status_cell: Cell,
    age_cell: Cell,
    sorted: Cell,
)
    requires
        call_ensures(Cell::new, (text, tone), plain_cell),
        call_ensures(Cell::status, (text, tone), status_cell),
        call_ensures(Cell::age, (time,), age_cell),
        call_ensures(Cell::with_sort, (plain_cell, key), sorted),
    ensures
        plain_cell.text@ == text@ && plain_cell.tone == tone && !plain_cell.dot,
        plain_cell.format is None && plain_cell.sort is None,
        status_cell.text@ == text@ && status_cell.tone == tone && status_cell.dot,
        status_cell.format is None && status_cell.sort is None,
        time matches Some(t) ==> age_cell.text@ == t@,
        time is None ==> age_cell.text@.len() == 0,
        age_cell.tone == Tone::Secondary && !age_cell.dot,
        age_cell.format matches Some(f) && f@ == "age"@,
        sorted.text@ == text@ && sorted.tone == tone && sorted.sort == Some(key),
{
    assert(plain_cell@ == plain(text@, tone));
    assert(status_cell@ == status(text@, tone));
    assert(age_cell@.format == Some("age"@));
    assert(sorted@.sort == Some(key));
}

/// A row answers for the cell that it is asked for.
pub proof fn law_rows_answer_for_their_cells(row: Row, i: usize, key: i64, text: String)
    requires
        call_ensures(Row::sort_key, (&row, i), key),
        call_ensures(Row::cell_text, (&row, i), text),
    ensures
        i < row.cells@.len() ==> text@ == row.cells@[i as int].text@,
        i < row.cells@.len() ==> (row.cells@[i as int].sort matches Some(k) ==> key == k),
        i >= row.cells@.len() ==> key == 0 && text@.len() == 0,
{
}

} // verus!
