//! Logs of pods: what is asked for, how lines are read, and how they are handed on
//! in batches.
use crate::error::{AppError, AppResult};
use crate::events::{LOG_CLOSED_PREFIX, LOG_LINE_PREFIX};
use crate::text::{
    alnum, ascii_upper, cat2, cat3, char_from, ends_with, find, find_from, has_part, has_prefix,
    has_suffix, is_alnum, lemma_char_from, lemma_find_from, lines, lines_of, occurs_at, opt_text, same, split_once, strip_prefix,
    texts, to_ascii_upper, trim_start, trimmed_start,
};
use crate::time::{clock, clock_text, is_jiff_time, jiff_accepts, parse_rfc3339, rfc3339_time};
use vstd::prelude::*;

verus! {

/// How often gathered lines are handed on, in milliseconds.
pub const FLUSH_MILLIS: u64 = 80;

/// How much of a line is looked at for its level, in bytes.
pub const HEAD_BYTES: usize = 200;

/// A log line.
#[derive(Clone, Debug, PartialEq, Eq)]
pub struct LogLine {
    /// `HH:MM:SS.mmm`, or empty where the line has no time.
    pub ts: String,
    /// `DEBUG`, `INFO`, `WARN`, `ERROR` or empty.
    pub level: &'static str,
    pub msg: String,
    /// The container it comes from; empty where that is clear.
    pub container: String,
}

/// What a log line says.
#[verifier::ext_equal]
pub struct LineView {
    pub ts: Seq<char>,
    pub level: Seq<char>,
    pub msg: Seq<char>,
    pub container: Seq<char>,
}

impl View for LogLine {
    type V = LineView;

    open spec fn view(&self) -> LineView {
        LineView {
            ts: self.ts@,
            level: self.level@,
            msg: self.msg@,
            container: self.container@,
        }
    }
}

// ---------------------------------------------------------------------------
// What is asked for
// ---------------------------------------------------------------------------

/// What the user wants to see.
#[derive(Clone, Debug)]
pub struct LogStreamOptions {
    /// Start with this many of the last lines.
    pub tail: Option<i64>,
    /// Go on from this time, in RFC 3339.
    pub since_time: Option<String>,
    /// Only lines of the last seconds.
    pub since_seconds: Option<i64>,
    /// The container that ran before, in place of the one that runs.
    pub previous: bool,
}

impl Default for LogStreamOptions {
    fn default() -> (r: LogStreamOptions)
        ensures
            r.tail is None,
            r.since_time is None,
            r.since_seconds is None,
            !r.previous,
    {
        LogStreamOptions { tail: None, since_time: None, since_seconds: None, previous: false }
    }
}

/// What the API is asked for.
#[derive(Clone, Debug)]
pub struct LogParams {
    pub follow: bool,
    pub timestamps: bool,
    pub container: Option<String>,
    pub previous: bool,
    pub tail_lines: Option<i64>,
    /// Unix seconds and nanoseconds.
    pub since_time: Option<(i64, i32)>,
    pub since_seconds: Option<i64>,
}

/// A point in time as the API takes it, where it does.
pub open spec fn anchor_at(time: Option<(i64, u32)>) -> Option<(i64, i32)> {
    match time {
        Some((secs, nanos)) => if is_jiff_time(secs, nanos as i32) {
            Some((secs, nanos as i32))
        } else {
            None
        },
        None => None,
    }
}

/// The point in time to go on from, where it is one that the API takes.
pub open spec fn anchor_of(text: Seq<char>) -> Option<(i64, i32)> {
    anchor_at(rfc3339_time(text))
}

/// A point in time as the API takes it, where it does.
pub fn anchor(time: Option<(i64, u32)>) -> (r: Option<(i64, i32)>)
    ensures
        r == anchor_at(time),
{
    match time {
        Some((secs, nanos)) => {
            if jiff_accepts(secs, nanos as i32) {
                Some((secs, nanos as i32))
            } else {
                None
            }
        },
        None => None,
    }
}

/// What the API is asked for the log of a container.
///
/// A container that ran before is not followed: it prints nothing more. A time to
/// go on from and a number of seconds exclude each other, and the time wins; one
/// that is no time is left out.
pub fn log_params(container: &str, opts: &LogStreamOptions) -> (r: LogParams)
    ensures
        r.follow == !opts.previous,
        r.timestamps,
        opt_text(r.container) == Some(container@),
        r.previous == opts.previous,
        r.tail_lines == opts.tail,
        r.since_time == (match opts.since_time {
            Some(t) => anchor_of(t@),
            None => None,
        }),
        r.since_seconds == (match opts.since_time {
            Some(_) => None,
            None => opts.since_seconds,
        }),
        !(r.since_time is Some && r.since_seconds is Some),
{
    let (since_time, since_seconds): (Option<(i64, i32)>, Option<i64>) = match &opts.since_time {
        Some(t) => (anchor(parse_rfc3339(t.as_str())), None),
        None => (None, opts.since_seconds),
    };
    LogParams {
        follow: !opts.previous,
        timestamps: true,
        container: Some(container.to_owned()),
        previous: opts.previous,
        tail_lines: opts.tail,
        since_time,
        since_seconds,
    }
}

/// What the API is asked for to export the log of a container, which has to end.
pub fn export_params(container: &str, since_seconds: Option<i64>, previous: bool) -> (r: LogParams)
    ensures
        !r.follow,
        r.timestamps,
        opt_text(r.container) == Some(container@),
        r.previous == previous,
        r.tail_lines is None,
        r.since_time is None,
        r.since_seconds == since_seconds,
{
    let opts = LogStreamOptions { tail: None, since_time: None, since_seconds, previous };
    let mut params = log_params(container, &opts);
    params.follow = false;
    params
}

// ---------------------------------------------------------------------------
// Levels
// ---------------------------------------------------------------------------

/// How many bytes a character takes in UTF-8.
pub open spec fn char_bytes(c: char) -> int {
    if (c as u32) < 0x80 {
        1
    } else if (c as u32) < 0x800 {
        2
    } else if (c as u32) < 0x10000 {
        3
    } else {
        4
    }
}

/// How many of the first characters fit into some bytes.
pub open spec fn fitting(s: Seq<char>, bytes: int) -> int
    decreases s.len(),
{
    if s.len() == 0 || char_bytes(s[0]) > bytes {
        0
    } else {
        1 + fitting(s.drop_first(), bytes - char_bytes(s[0]))
    }
}

proof fn lemma_fitting(s: Seq<char>, bytes: int)
    ensures
        0 <= fitting(s, bytes) <= s.len(),
    decreases s.len(),
{
    if s.len() > 0 && char_bytes(s[0]) <= bytes {
        lemma_fitting(s.drop_first(), bytes - char_bytes(s[0]));
    }
}

/// The start of a line, where its level stands: as many whole characters as fit
/// into the first bytes.
pub open spec fn head_of(msg: Seq<char>) -> Seq<char> {
    msg.take(fitting(msg, HEAD_BYTES as int))
}

fn head<'a>(msg: &'a str) -> (r: &'a str)
    ensures
        r@ == head_of(msg@),
{
    let n = msg.unicode_len();
    let mut left: usize = HEAD_BYTES;
    let mut i: usize = 0;
    assert(msg@.skip(0) =~= msg@);
    while i < n
        invariant
            i <= n,
            n == msg@.len(),
            left <= HEAD_BYTES,
            fitting(msg@, HEAD_BYTES as int) == i + fitting(msg@.skip(i as int), left as int),
        decreases n - i,
    {
        let c = msg.get_char(i);
        let u = c as u32;
        let width: usize = if u < 0x80 {
            1
        } else if u < 0x800 {
            2
        } else if u < 0x10000 {
            3
        } else {
            4
        };
        assert(msg@.skip(i as int)[0] == c);
        assert(msg@.skip(i as int).drop_first() =~= msg@.skip(i + 1));
        if width > left {
            return msg.substring_char(0, i);
        }
        left = left - width;
        i += 1;
    }
    assert(head_of(msg@) =~= msg@);
    msg
}

/// A word stands in a text: it occurs where no letter or digit touches it.
pub open spec fn has_word(text: Seq<char>, word: Seq<char>) -> bool {
    exists|i: int| word_at(text, word, i)
}

/// A word stands at `i`.
pub open spec fn word_at(text: Seq<char>, word: Seq<char>, i: int) -> bool {
    &&& occurs_at(text, word, i)
    &&& i == 0 || !is_alnum(text[i - 1])
    &&& i + word.len() >= text.len() || !is_alnum(text[i + word.len()])
}

/// Whether a word stands in a text, so that `ERROR` is not found in `TERROR`.
pub fn contains_word(haystack: &str, needle: &str) -> (r: bool)
    ensures
        r == has_word(haystack@, needle@),
{
    let n = haystack.unicode_len();
    let m = needle.unicode_len();
    let mut i: usize = 0;
    while i <= n && m <= n - i
        invariant
            n == haystack@.len(),
            m == needle@.len(),
            i <= n + 1,
            forall|k: int| 0 <= k < i ==> !word_at(haystack@, needle@, k),
        decreases n + 1 - i,
    {
        if same(haystack.substring_char(i, i + m), needle) {
            let before_ok = i == 0 || !alnum(haystack.get_char(i - 1));
            let after_ok = i + m >= n || !alnum(haystack.get_char(i + m));
            if before_ok && after_ok {
                assert(word_at(haystack@, needle@, i as int));
                return true;
            }
        }
        if i == n {
            assert forall|k: int| !word_at(haystack@, needle@, k) by {
                if word_at(haystack@, needle@, k) {
                    assert(k <= n);
                }
            }
            return false;
        }
        i += 1;
    }
    assert forall|k: int| !word_at(haystack@, needle@, k) by {
        if word_at(haystack@, needle@, k) {
            assert(k + m <= n);
        }
    }
    false
}

/// The level that a level word stands for.
pub open spec fn level_of_word(word: Seq<char>) -> Seq<char> {
    let w = ascii_upper(word);
    if w == "ERROR"@ || w == "ERR"@ || w == "FATAL"@ || w == "PANIC"@ || w == "CRITICAL"@ {
        "ERROR"@
    } else if w == "WARN"@ || w == "WARNING"@ {
        "WARN"@
    } else if w == "INFO"@ || w == "INFORMATION"@ || w == "NOTICE"@ {
        "INFO"@
    } else if w == "DEBUG"@ || w == "TRACE"@ || w == "VERBOSE"@ {
        "DEBUG"@
    } else {
        ""@
    }
}

/// The level that a level word stands for; empty where it is none.
pub fn normalize_level(word: &str) -> (r: &'static str)
    ensures
        r@ == level_of_word(word@),
{
    let upper = to_ascii_upper(word);
    let w = upper.as_str();
    if same(w, "ERROR") || same(w, "ERR") || same(w, "FATAL") || same(w, "PANIC") || same(
        w,
        "CRITICAL",
    ) {
        "ERROR"
    } else if same(w, "WARN") || same(w, "WARNING") {
        "WARN"
    } else if same(w, "INFO") || same(w, "INFORMATION") || same(w, "NOTICE") {
        "INFO"
    } else if same(w, "DEBUG") || same(w, "TRACE") || same(w, "VERBOSE") {
        "DEBUG"
    } else {
        ""
    }
}

/// What follows the quote that a text starts with, up to the next one.
pub open spec fn quoted(s: Seq<char>) -> Option<Seq<char>> {
    if has_prefix(s, "\""@) {
        let inner = s.skip("\""@.len() as int);
        match char_from(inner, '"', 0) {
            Some(i) => Some(inner.take(i)),
            None => None,
        }
    } else {
        None
    }
}

/// The word in the JSON field `"level"` of a text.
pub open spec fn json_level_word(s: Seq<char>) -> Option<Seq<char>> {
    match find_from(s, "\"level\""@, 0) {
        None => None,
        Some(i) => {
            let after = s.skip(i + "\"level\""@.len());
            match char_from(after, ':', 0) {
                None => None,
                Some(j) => quoted(trimmed_start(after.skip(j + 1))),
            }
        },
    }
}

/// The level in the JSON field `"level"` of a text, where it has one.
pub fn json_level(head: &str) -> (r: Option<&'static str>)
    ensures
        match (r, json_level_word(head@)) {
            (Some(l), Some(w)) => l@ == level_of_word(w),
            (None, None) => true,
            _ => false,
        },
{
    let i = match find(head, "\"level\"") {
        Some(i) => i,
        None => {
            return None;
        },
    };
    proof {
        reveal_strlit("\"level\"");
        lemma_find_from(head@, "\"level\""@, 0);
    }
    let n = head.unicode_len();
    let after = head.substring_char(i + 7, n);
    assert(after@ =~= head@.skip(i + "\"level\""@.len()));
    match split_once(after, ':') {
        None => None,
        Some((_, rest)) => {
            let value = trim_start(rest);
            match strip_prefix(value, "\"") {
                None => None,
                Some(inner) => match split_once(inner, '"') {
                    None => None,
                    Some((word, _)) => Some(normalize_level(word)),
                },
            }
        },
    }
}

/// The level that the words of a text tell, in upper case. The graver one wins.
pub open spec fn level_by_words(u: Seq<char>) -> Seq<char> {
    if has_word(u, "PANIC"@) || has_word(u, "FATAL"@) || has_word(u, "ERROR"@) || has_word(
        u,
        "ERR"@,
    ) {
        "ERROR"@
    } else if has_word(u, "WARNING"@) || has_word(u, "WARN"@) {
        "WARN"@
    } else if has_word(u, "INFO"@) {
        "INFO"@
    } else if has_word(u, "DEBUG"@) || has_word(u, "TRACE"@) {
        "DEBUG"@
    } else {
        ""@
    }
}

/// The level of a message: that of its JSON field, else that of its words.
pub open spec fn level_of(msg: Seq<char>) -> Seq<char> {
    match json_level_word(head_of(msg)) {
        Some(w) => level_of_word(w),
        None => level_by_words(ascii_upper(head_of(msg))),
    }
}

/// The level of a message, by what its start says: a JSON field `"level"` first,
/// else a word by itself. Empty where there is none.
pub fn detect_level(msg: &str) -> (r: &'static str)
    ensures
        r@ == level_of(msg@),
{
    let start = head(msg);
    if let Some(l) = json_level(start) {
        return l;
    }
    let upper = to_ascii_upper(start);
    let u = upper.as_str();
    if contains_word(u, "PANIC") || contains_word(u, "FATAL") || contains_word(u, "ERROR")
        || contains_word(u, "ERR") {
        "ERROR"
    } else if contains_word(u, "WARNING") || contains_word(u, "WARN") {
        "WARN"
    } else if contains_word(u, "INFO") {
        "INFO"
    } else if contains_word(u, "DEBUG") || contains_word(u, "TRACE") {
        "DEBUG"
    } else {
        ""
    }
}

// ---------------------------------------------------------------------------
// Lines
// ---------------------------------------------------------------------------

/// The time and the message of a raw line, which starts with a time and a blank
/// where the API was asked for times. What is no time belongs to the message.
pub open spec fn time_and_message(raw: Seq<char>) -> (Seq<char>, Seq<char>) {
    match char_from(raw, ' ', 0) {
        Some(i) => match rfc3339_time(raw.take(i)) {
            Some((secs, nanos)) => (clock_text(secs as int, nanos as int), raw.skip(i + 1)),
            None => (Seq::empty(), raw),
        },
        None => (Seq::empty(), raw),
    }
}

/// A raw line, read.
pub open spec fn line_of(raw: Seq<char>, container: Seq<char>) -> LineView {
    let (ts, msg) = time_and_message(raw);
    LineView { ts, level: level_of(msg), msg, container }
}

/// A line of the time and the message found in it.
pub fn made_line(time: Option<(i64, u32)>, msg: &str, container: &str) -> (r: LogLine)
    ensures
        r@ == (LineView {
            ts: match time {
                Some((secs, nanos)) => clock_text(secs as int, nanos as int),
                None => Seq::empty(),
            },
            level: level_of(msg@),
            msg: msg@,
            container: container@,
        }),
{
    let ts = match time {
        Some((secs, nanos)) => clock(secs, nanos),
        None => String::new(),
    };
    LogLine {
        ts,
        level: detect_level(msg),
        msg: msg.to_owned(),
        container: container.to_owned(),
    }
}

/// Reads a raw line of the container. Nothing of it is lost: without a time the
/// whole line is the message.
pub fn tagged_line(raw: &str, container: &str) -> (r: LogLine)
    ensures
        r@ == line_of(raw@, container@),
{
    match split_once(raw, ' ') {
        Some((first, rest)) => match parse_rfc3339(first) {
            Some((secs, nanos)) => made_line(Some((secs, nanos)), rest, container),
            None => made_line(None, raw, container),
        },
        None => made_line(None, raw, container),
    }
}

/// Reads a raw line.
pub fn parse_log_line(raw: &str) -> (r: LogLine)
    ensures
        r@ == line_of(raw@, Seq::empty()),
{
    proof {
        reveal_strlit("");
        assert(""@ =~= Seq::<char>::empty());
    }
    tagged_line(raw, "")
}

/// The line that stands for the log of a container that cannot be read, among
/// those of the others.
pub fn failed_line(container: &str, error: &str) -> (r: LogLine)
    ensures
        r@ == (LineView {
            ts: Seq::empty(),
            level: "ERROR"@,
            msg: "log stream for container '"@ + container@ + "' failed: "@ + error@,
            container: container@,
        }),
{
    let text = cat3("log stream for container '", container, "' failed: ");
    LogLine {
        ts: String::new(),
        level: "ERROR",
        msg: cat2(text.as_str(), error),
        container: container.to_owned(),
    }
}

// ---------------------------------------------------------------------------
// Streams
// ---------------------------------------------------------------------------

/// What happens to a stream.
pub enum StreamEvent {
    /// A line has come.
    Line(LogLine),
    /// It is time to hand on what was gathered.
    Tick,
    /// There are no more lines.
    Ended,
    /// Reading failed.
    Failed(String),
}

/// What is done next: the lines to hand on, if any, and how the stream closed, if
/// it did.
pub struct StreamStep {
    pub emit: Option<Vec<LogLine>>,
    pub close: Option<AppResult<String>>,
}

/// Takes what was gathered, where there is something, and starts anew.
pub fn flush_batch(batch: &mut Vec<LogLine>) -> (r: Option<Vec<LogLine>>)
    ensures
        final(batch)@ == Seq::<LogLine>::empty(),
        match r {
            Some(v) => v@ == old(batch)@ && v@.len() > 0,
            None => old(batch)@.len() == 0,
        },
{
    if batch.len() == 0 {
        return None;
    }
    let mut out: Vec<LogLine> = Vec::new();
    std::mem::swap(&mut out, batch);
    Some(out)
}

/// What is gathered after an event.
pub open spec fn gathered(batch: Seq<LogLine>, ev: StreamEvent) -> Seq<LogLine> {
    match ev {
        StreamEvent::Line(l) => batch.push(l),
        _ => Seq::empty(),
    }
}

/// What is handed on at an event.
pub open spec fn handed_on(batch: Seq<LogLine>, ev: StreamEvent) -> Seq<LogLine> {
    match ev {
        StreamEvent::Line(_) => Seq::empty(),
        _ => batch,
    }
}

/// The lines of a step.
pub open spec fn emitted(e: Option<Vec<LogLine>>) -> Seq<LogLine> {
    match e {
        Some(v) => v@,
        None => Seq::empty(),
    }
}

/// What an event does to a stream: lines are gathered, and handed on when the time
/// has come or the stream closes. Nothing is handed on where nothing was gathered.
pub fn stream_step(batch: &mut Vec<LogLine>, ev: StreamEvent) -> (r: StreamStep)
    ensures
        final(batch)@ == gathered(old(batch)@, ev),
        emitted(r.emit) == handed_on(old(batch)@, ev),
        r.emit is Some <==> handed_on(old(batch)@, ev).len() > 0,
        match (r.close, ev) {
            (Some(Ok(reason)), StreamEvent::Ended) => reason@ == "stream ended"@,
            (Some(Err(AppError::Kube(m))), StreamEvent::Failed(e)) => m == e,
            (None, StreamEvent::Line(_)) => true,
            (None, StreamEvent::Tick) => true,
            _ => false,
        },
{
    match ev {
        StreamEvent::Line(l) => {
            batch.push(l);
            StreamStep { emit: None, close: None }
        },
        StreamEvent::Tick => StreamStep { emit: flush_batch(batch), close: None },
        StreamEvent::Ended => StreamStep {
            emit: flush_batch(batch),
            close: Some(Ok("stream ended".to_owned())),
        },
        StreamEvent::Failed(e) => StreamStep {
            emit: flush_batch(batch),
            close: Some(Err(AppError::Kube(e))),
        },
    }
}

/// The event that carries the lines of a stream.
pub fn line_event(stream_id: &str) -> (r: String)
    ensures
        r@ == LOG_LINE_PREFIX@ + stream_id@,
{
    cat2(LOG_LINE_PREFIX, stream_id)
}

/// The event that says that a stream closed.
pub fn closed_event(stream_id: &str) -> (r: String)
    ensures
        r@ == LOG_CLOSED_PREFIX@ + stream_id@,
{
    cat2(LOG_CLOSED_PREFIX, stream_id)
}

/// Why a stream closed, as the user is told.
pub fn close_reason(result: &AppResult<String>) -> (r: String)
    ensures
        r@ == (match *result {
            Ok(reason) => reason@,
            Err(e) => e.text(),
        }),
{
    match result {
        Ok(reason) => reason.clone(),
        Err(e) => e.message(),
    }
}

/// Why a stream of all containers of a pod closes at once, if it does: there are
/// none.
pub fn nothing_to_stream(containers: &Vec<String>) -> (r: Option<String>)
    ensures
        opt_text(r) == (if containers@.len() == 0 {
            Some("no containers"@)
        } else {
            None
        }),
{
    if containers.len() == 0 {
        Some("no containers".to_owned())
    } else {
        None
    }
}

// ---------------------------------------------------------------------------
// Export
// ---------------------------------------------------------------------------

/// The containers to export: those asked for, else all of the pod.
pub fn export_containers(asked: Vec<String>, of_pod: Vec<String>) -> (r: Vec<String>)
    ensures
        r == (if asked@.len() == 0 {
            of_pod
        } else {
            asked
        }),
{
    if asked.len() == 0 {
        of_pod
    } else {
        asked
    }
}

/// The log of one container in an export. Among others it has a heading.
pub open spec fn export_block(name: Seq<char>, text: Seq<char>, headed: bool) -> Seq<char> {
    (if headed {
        "===== container: "@ + name + " =====\n"@
    } else {
        Seq::empty()
    }) + text + (if has_suffix(text, "\n"@) {
        Seq::empty()
    } else {
        "\n"@
    })
}

/// The logs of containers in an export.
pub open spec fn export_text(logs: Seq<(String, String)>, headed: bool) -> Seq<char>
    decreases logs.len(),
{
    if logs.len() == 0 {
        Seq::empty()
    } else {
        export_text(logs.drop_last(), headed) + export_block(
            logs.last().0@,
            logs.last().1@,
            headed,
        )
    }
}

/// The text of an export, from the name and the log of each container, and how
/// many lines it has.
pub fn fetch_export_logs(logs: &Vec<(String, String)>) -> (r: (String, usize))
    ensures
        r.0@ == export_text(logs@, logs@.len() > 1),
        r.1 == lines_of(r.0@).len(),
{
    let headed = logs.len() > 1;
    let mut out = String::new();
    let mut i: usize = 0;
    assert(out@ =~= export_text(logs@.take(0), headed));
    while i < logs.len()
        invariant
            i <= logs@.len(),
            out@ == export_text(logs@.take(i as int), headed),
        decreases logs@.len() - i,
    {
        assert(logs@.take(i + 1).drop_last() =~= logs@.take(i as int));
        let ghost before = out@;
        if headed {
            let heading = cat3("===== container: ", logs[i].0.as_str(), " =====\n");
            out.append(heading.as_str());
        }
        out.append(logs[i].1.as_str());
        if !ends_with(logs[i].1.as_str(), "\n") {
            out.append("\n");
        }
        assert(out@ =~= before + export_block(logs@[i as int].0@, logs@[i as int].1@, headed));
        i += 1;
    }
    assert(logs@.take(i as int) =~= logs@);
    let ls = lines(out.as_str());
    assert(texts(ls@).len() == ls@.len());
    let n = ls.len();
    (out, n)
}

// ---------------------------------------------------------------------------
// Laws
// ---------------------------------------------------------------------------

/// Nothing of a line is lost: its message is the line, or what follows the time.
pub proof fn law_lines_keep_their_content(raw: Seq<char>)
    ensures
        time_and_message(raw).1 == raw || exists|i: int|
            0 <= i < raw.len() && raw[i] == ' ' && rfc3339_time(#[trigger] raw.take(i)) is Some
                && time_and_message(raw).1 == raw.skip(i + 1),
{
    crate::text::lemma_char_from(raw, ' ', 0);
    match char_from(raw, ' ', 0) {
        Some(i) => {
            assert(raw.take(i) == raw.take(i));
        },
        None => {},
    }
}

/// All that is handed on in a run of events.
pub open spec fn all_handed_on(batch: Seq<LogLine>, evs: Seq<StreamEvent>) -> Seq<LogLine>
    decreases evs.len(),
{
    if evs.len() == 0 {
        Seq::empty()
    } else {
        all_handed_on(batch, evs.drop_last()) + handed_on(
            left_over(batch, evs.drop_last()),
            evs.last(),
        )
    }
}

/// What is gathered after a run of events.
pub open spec fn left_over(batch: Seq<LogLine>, evs: Seq<StreamEvent>) -> Seq<LogLine>
    decreases evs.len(),
{
    if evs.len() == 0 {
        batch
    } else {
        gathered(left_over(batch, evs.drop_last()), evs.last())
    }
}

/// The lines that came in a run of events.
pub open spec fn lines_in(evs: Seq<StreamEvent>) -> Seq<LogLine>
    decreases evs.len(),
{
    if evs.len() == 0 {
        Seq::empty()
    } else {
        match evs.last() {
            StreamEvent::Line(l) => lines_in(evs.drop_last()).push(l),
            _ => lines_in(evs.drop_last()),
        }
    }
}

/// No line is lost, doubled or out of order: whatever happens, what was handed on
/// and what is gathered are the lines that came, in their order.
pub proof fn law_no_line_is_lost(evs: Seq<StreamEvent>)
    ensures
        all_handed_on(Seq::empty(), evs) + left_over(Seq::empty(), evs) == lines_in(evs),
    decreases evs.len(),
{
    if evs.len() > 0 {
        law_no_line_is_lost(evs.drop_last());
        let front = all_handed_on(Seq::empty(), evs.drop_last());
        let rest = left_over(Seq::empty(), evs.drop_last());
        assert(all_handed_on(Seq::empty(), evs) + left_over(Seq::empty(), evs) =~= lines_in(evs));
    }
}

/// A stream that closed has handed on every line that came.
pub proof fn law_closed_stream_has_handed_on_everything(evs: Seq<StreamEvent>)
    requires
        evs.len() > 0,
        evs.last() is Ended || evs.last() is Failed,
    ensures
        all_handed_on(Seq::empty(), evs) == lines_in(evs),
{
    law_no_line_is_lost(evs);
    assert(left_over(Seq::empty(), evs) =~= Seq::empty());
    assert(all_handed_on(Seq::empty(), evs) + Seq::<LogLine>::empty() =~= all_handed_on(
        Seq::empty(),
        evs,
    ));
}

/// A word is found only by itself: where letters or digits touch it on either side
/// of every occurrence, it is not there.
pub proof fn law_part_of_a_word_is_no_word(text: Seq<char>, word: Seq<char>)
    requires
        forall|i: int|
            #[trigger] occurs_at(text, word, i) ==> (i > 0 && is_alnum(text[i - 1])) || (i
                + word.len() < text.len() && is_alnum(text[i + word.len()])),
    ensures
        !has_word(text, word),
{
    assert forall|i: int| !word_at(text, word, i) by {
        if occurs_at(text, word, i) {
        }
    }
}

/// Whatever a line says, its level is one of four, or there is none.
pub proof fn law_level_is_one_of_four(msg: Seq<char>)
    ensures
        level_of(msg) == "ERROR"@ || level_of(msg) == "WARN"@ || level_of(msg) == "INFO"@ || level_of(
            msg,
        ) == "DEBUG"@ || level_of(msg) == ""@,
{
}

/// A word by itself is found: where neither a letter nor a digit touches it.
pub proof fn law_word_by_itself_is_found(
    text: &str,
    word: &str,
    a: Seq<char>,
    b: Seq<char>,
    r: bool,
)
    requires
        call_ensures(contains_word, (text, word), r),
        text@ == a + word@ + b,
        a.len() > 0 ==> !is_alnum(a.last()),
        b.len() > 0 ==> !is_alnum(b[0]),
    ensures
        r,
{
    let i = a.len() as int;
    assert(text@.subrange(i, i + word@.len()) =~= word@);
    assert(occurs_at(text@, word@, i));
    assert(word_at(text@, word@, i));
}

/// A level word is read in letters of either case: the names of the four levels, and the
/// other words for them.
pub proof fn law_level_words(word: &str, r: &'static str)
    requires
        call_ensures(normalize_level, (word,), r),
    ensures
        ({
            let w = ascii_upper(word@);
            &&& w == "ERROR"@ || w == "ERR"@ || w == "FATAL"@ || w == "PANIC"@ || w == "CRITICAL"@
                ==> r@ == "ERROR"@
            &&& w == "WARN"@ || w == "WARNING"@ ==> r@ == "WARN"@
            &&& w == "INFO"@ || w == "INFORMATION"@ || w == "NOTICE"@ ==> r@ == "INFO"@
            &&& w == "DEBUG"@ || w == "TRACE"@ || w == "VERBOSE"@ ==> r@ == "DEBUG"@
            &&& r@.len() > 0 ==> w == "ERROR"@ || w == "ERR"@ || w == "FATAL"@ || w == "PANIC"@ || w
                == "CRITICAL"@ || w == "WARN"@ || w == "WARNING"@ || w == "INFO"@ || w
                == "INFORMATION"@ || w == "NOTICE"@ || w == "DEBUG"@ || w == "TRACE"@ || w
                == "VERBOSE"@
        }),
{
    lemma_level_words_differ();
    reveal_strlit("");
}

proof fn lemma_level_words_differ()
    ensures
        "WARN"@ != "ERROR"@ && "WARN"@ != "ERR"@ && "WARN"@ != "FATAL"@ && "WARN"@ != "PANIC"@
            && "WARN"@ != "CRITICAL"@,
        "WARNING"@ != "ERROR"@ && "WARNING"@ != "ERR"@ && "WARNING"@ != "FATAL"@ && "WARNING"@
            != "PANIC"@ && "WARNING"@ != "CRITICAL"@,
        "INFO"@ != "ERROR"@ && "INFO"@ != "ERR"@ && "INFO"@ != "FATAL"@ && "INFO"@ != "PANIC"@
            && "INFO"@ != "CRITICAL"@ && "INFO"@ != "WARN"@ && "INFO"@ != "WARNING"@,
        "INFORMATION"@ != "ERROR"@ && "INFORMATION"@ != "ERR"@ && "INFORMATION"@ != "FATAL"@
            && "INFORMATION"@ != "PANIC"@ && "INFORMATION"@ != "CRITICAL"@ && "INFORMATION"@
            != "WARN"@ && "INFORMATION"@ != "WARNING"@,
        "NOTICE"@ != "ERROR"@ && "NOTICE"@ != "ERR"@ && "NOTICE"@ != "FATAL"@ && "NOTICE"@
            != "PANIC"@ && "NOTICE"@ != "CRITICAL"@ && "NOTICE"@ != "WARN"@ && "NOTICE"@
            != "WARNING"@,
        "DEBUG"@ != "ERROR"@ && "DEBUG"@ != "ERR"@ && "DEBUG"@ != "FATAL"@ && "DEBUG"@ != "PANIC"@
            && "DEBUG"@ != "CRITICAL"@ && "DEBUG"@ != "WARN"@ && "DEBUG"@ != "WARNING"@ && "DEBUG"@
            != "INFO"@ && "DEBUG"@ != "INFORMATION"@ && "DEBUG"@ != "NOTICE"@,
        "TRACE"@ != "ERROR"@ && "TRACE"@ != "ERR"@ && "TRACE"@ != "FATAL"@ && "TRACE"@ != "PANIC"@
            && "TRACE"@ != "CRITICAL"@ && "TRACE"@ != "WARN"@ && "TRACE"@ != "WARNING"@ && "TRACE"@
            != "INFO"@ && "TRACE"@ != "INFORMATION"@ && "TRACE"@ != "NOTICE"@,
        "VERBOSE"@ != "ERROR"@ && "VERBOSE"@ != "ERR"@ && "VERBOSE"@ != "FATAL"@ && "VERBOSE"@
            != "PANIC"@ && "VERBOSE"@ != "CRITICAL"@ && "VERBOSE"@ != "WARN"@ && "VERBOSE"@
            != "WARNING"@ && "VERBOSE"@ != "INFO"@ && "VERBOSE"@ != "INFORMATION"@ && "VERBOSE"@
            != "NOTICE"@,
{
    reveal_strlit("ERROR");
    reveal_strlit("ERR");
    reveal_strlit("FATAL");
    reveal_strlit("PANIC");
    reveal_strlit("CRITICAL");
    reveal_strlit("WARN");
    reveal_strlit("WARNING");
    reveal_strlit("INFO");
    reveal_strlit("INFORMATION");
    reveal_strlit("NOTICE");
    reveal_strlit("DEBUG");
    reveal_strlit("TRACE");
    reveal_strlit("VERBOSE");
    assert("ERROR"@[0] == 'E' && "ERR"@[0] == 'E' && "FATAL"@[0] == 'F' && "PANIC"@[0] == 'P'
        && "CRITICAL"@[0] == 'C');
    assert("WARN"@[0] == 'W' && "WARNING"@[0] == 'W' && "INFO"@[0] == 'I' && "INFORMATION"@[0]
        == 'I' && "NOTICE"@[0] == 'N');
    assert("DEBUG"@[0] == 'D' && "TRACE"@[0] == 'T' && "VERBOSE"@[0] == 'V');
}

proof fn lemma_short_fits(s: Seq<char>, bytes: int)
    requires
        4 * s.len() <= bytes,
    ensures
        fitting(s, bytes) == s.len(),
    decreases s.len(),
{
    if s.len() > 0 {
        lemma_short_fits(s.drop_first(), bytes - char_bytes(s[0]));
    }
}

/// A word that stands by itself in a message.
pub open spec fn stands_in(message: Seq<char>, word: Seq<char>) -> bool {
    exists|i: int|
        #[trigger] occurs_at(message, word, i) && (i == 0 || !is_alnum(message[i - 1])) && (i
            + word.len() >= message.len() || !is_alnum(message[i + word.len()]))
}

proof fn lemma_stands_in(message: Seq<char>, word: Seq<char>)
    ensures
        stands_in(message, word) <==> has_word(message, word),
{
    if stands_in(message, word) {
        let i = choose|i: int|
            #[trigger] occurs_at(message, word, i) && (i == 0 || !is_alnum(message[i - 1])) && (i
                + word.len() >= message.len() || !is_alnum(message[i + word.len()]));
        assert(word_at(message, word, i));
    }
    if has_word(message, word) {
        let i = choose|i: int| word_at(message, word, i);
        assert(occurs_at(message, word, i));
    }
}

/// The level of a short message without a `"level"` field is that of the gravest level word
/// that stands in it by itself, in letters of either case, and there is none where no such
/// word does.
pub proof fn law_gravest_word_is_the_level(msg: &str, r: &'static str)
    requires
        call_ensures(detect_level, (msg,), r),
        msg@.len() <= 50,
        !has_part(msg@, "\"level\""@),
    ensures
        ({
            let u = ascii_upper(msg@);
            let error = stands_in(u, "ERROR"@) || stands_in(u, "ERR"@) || stands_in(u, "FATAL"@)
                || stands_in(u, "PANIC"@);
            let warn = stands_in(u, "WARN"@) || stands_in(u, "WARNING"@);
            let info = stands_in(u, "INFO"@);
            let debug = stands_in(u, "DEBUG"@) || stands_in(u, "TRACE"@);
            &&& error ==> r@ == "ERROR"@
            &&& !error && warn ==> r@ == "WARN"@
            &&& !error && !warn && info ==> r@ == "INFO"@
            &&& !error && !warn && !info && debug ==> r@ == "DEBUG"@
            &&& !error && !warn && !info && !debug ==> r@.len() == 0
        }),
{
    reveal_strlit("");
    lemma_short_fits(msg@, HEAD_BYTES as int);
    assert(head_of(msg@) =~= msg@);
    lemma_find_from(msg@, "\"level\""@, 0);
    if find_from(msg@, "\"level\""@, 0) is Some {
        assert(occurs_at(msg@, "\"level\""@, find_from(msg@, "\"level\""@, 0)->0));
    }
    let u = ascii_upper(msg@);
    lemma_stands_in(u, "ERROR"@);
    lemma_stands_in(u, "ERR"@);
    lemma_stands_in(u, "FATAL"@);
    lemma_stands_in(u, "PANIC"@);
    lemma_stands_in(u, "WARN"@);
    lemma_stands_in(u, "WARNING"@);
    lemma_stands_in(u, "INFO"@);
    lemma_stands_in(u, "DEBUG"@);
    lemma_stands_in(u, "TRACE"@);
}

/// The level of a short JSON message is what its field `"level"` says, whatever words stand
/// in the message besides.
pub proof fn law_level_field_decides(
    msg: &str,
    before: Seq<char>,
    word: &str,
    after: Seq<char>,
    of_word: &'static str,
    r: &'static str,
)
    requires
        call_ensures(detect_level, (msg,), r),
        call_ensures(normalize_level, (word,), of_word),
        msg@.len() <= 50,
        msg@ == before + "\"level\":\""@ + word@ + "\""@ + after,
        !before.contains('"'),
        !word@.contains('"'),
    ensures
        r@ == of_word@,
{
    reveal_strlit("\"level\":\"");
    reveal_strlit("\"level\"");
    reveal_strlit("\"");
    let s = msg@;
    let n = before.len() as int;
    let key = "\"level\""@;
    assert(key.len() == 7);
    assert("\"level\":\""@.len() == 9);
    assert("\""@.len() == 1);
    lemma_short_fits(s, HEAD_BYTES as int);
    assert(head_of(s) =~= s);
    lemma_find_from(s, key, 0);
    assert(s.subrange(n, n + 7) =~= key);
    assert(occurs_at(s, key, n));
    let i = find_from(s, key, 0)->0;
    assert(i <= n);
    if i < n {
        assert(s.subrange(i, i + 7)[0] == '"');
        assert(before[i] == '"');
    }
    let rest = s.skip(n + 7);
    assert(rest[0] == ':');
    assert(char_from(rest, ':', 0) == Some(0int));
    let value = rest.skip(1);
    assert(value =~= "\""@ + word@ + "\""@ + after);
    assert(value[0] == '"');
    assert(trimmed_start(value) == value);
    assert(value.take(1) =~= "\""@);
    assert(has_prefix(value, "\""@));
    let inner = value.skip(1);
    assert(inner =~= word@ + "\""@ + after);
    lemma_char_from(inner, '"', 0);
    let w = word@.len() as int;
    assert(inner[w] == '"');
    let q = char_from(inner, '"', 0)->0;
    if q < w {
        assert(word@[q] == '"');
    }
    assert(inner.take(w) =~= word@);
}

/// A line that starts with a time and a blank is that time of day and what follows the
/// blank; any other line is a message as it stands. The container is the one it was read
/// from.
pub proof fn law_line_is_time_and_message(
    raw: &str,
    container: &str,
    time: Seq<char>,
    message: Seq<char>,
    r: LogLine,
)
    requires
        call_ensures(tagged_line, (raw, container), r),
    ensures
        r.container@ == container@,
        !time.contains(' ') && raw@ == time + seq![' '] + message ==> (match rfc3339_time(time) {
            Some((secs, nanos)) => r.msg@ == message && r.ts@ == clock_text(
                secs as int,
                nanos as int,
            ),
            None => r.msg@ == raw@ && r.ts@.len() == 0,
        }),
        !raw@.contains(' ') ==> r.msg@ == raw@ && r.ts@.len() == 0,
{
    lemma_char_from(raw@, ' ', 0);
    if !time.contains(' ') && raw@ == time + seq![' '] + message {
        let n = time.len() as int;
        assert(raw@[n] == ' ');
        let i = char_from(raw@, ' ', 0)->0;
        assert(i <= n);
        if i < n {
            assert(time[i] == ' ');
        }
        assert(raw@.take(n) =~= time);
        assert(raw@.skip(n + 1) =~= message);
    }
    if !raw@.contains(' ') {
        if char_from(raw@, ' ', 0) is Some {
            assert(raw@[char_from(raw@, ' ', 0)->0] == ' ');
        }
    }
}

/// A time to go on from is handed on as it was given, where it is one, and then no number of
/// seconds is; a container that ran before is not followed.
pub proof fn law_log_asks_for_what_was_wanted(
    container: &str,
    opts: LogStreamOptions,
    r: LogParams,
)
    requires
        call_ensures(log_params, (container, &opts), r),
    ensures
        r.timestamps,
        r.follow <==> !opts.previous,
        r.previous <==> opts.previous,
        r.tail_lines == opts.tail,
        opts.since_time is None ==> r.since_time is None && r.since_seconds == opts.since_seconds,
        opts.since_time matches Some(t) ==> r.since_seconds is None && (match rfc3339_time(t@) {
            Some((secs, nanos)) => -377_705_023_201 < secs <= 253_402_207_200 && nanos < 1_000_000_000
                ==> r.since_time == Some((secs, nanos as i32)),
            None => r.since_time is None,
        }),
{
}

/// When it is time, and when a stream ends or fails, all that was gathered is handed on and
/// nothing stays behind; a line is gathered behind those before it.
pub proof fn law_gathered_lines_are_handed_on(batch: Seq<LogLine>, ev: StreamEvent)
    ensures
        ev matches StreamEvent::Line(l) ==> gathered(batch, ev) == batch.push(l) && handed_on(
            batch,
            ev,
        ).len() == 0,
        !(ev is Line) ==> handed_on(batch, ev) == batch && gathered(batch, ev).len() == 0,
{
}

/// The log of one container is exported as it is, with a line feed at its end.
pub proof fn law_one_log_is_exported_as_it_is(logs: Vec<(String, String)>, r: (String, usize))
    requires
        call_ensures(fetch_export_logs, (&logs,), r),
        logs@.len() == 1,
    ensures
        has_suffix(logs@[0].1@, "\n"@) ==> r.0@ == logs@[0].1@,
        !has_suffix(logs@[0].1@, "\n"@) ==> r.0@ == logs@[0].1@ + "\n"@,
{
    reveal_with_fuel(export_text, 2);
    assert(logs@.drop_last() =~= Seq::empty());
    assert(r.0@ =~= (if has_suffix(logs@[0].1@, "\n"@) {
        logs@[0].1@
    } else {
        logs@[0].1@ + "\n"@
    }));
}

/// Among others each log stands under a heading with the name of its container, in the
/// order of the containers.
pub proof fn law_logs_are_exported_under_headings(
    logs: Vec<(String, String)>,
    more: Vec<(String, String)>,
    r: (String, usize),
    of_more: (String, usize),
)
    requires
        call_ensures(fetch_export_logs, (&logs,), r),
        call_ensures(fetch_export_logs, (&more,), of_more),
        logs@.len() > 1,
        more@.len() == logs@.len() + 1,
        more@.drop_last() == logs@,
    ensures
        of_more.0@ == r.0@ + ("===== container: "@ + more@.last().0@ + " =====\n"@
            + more@.last().1@ + (if has_suffix(more@.last().1@, "\n"@) {
            Seq::empty()
        } else {
            "\n"@
        })),
        of_more.1 == lines_of(of_more.0@).len(),
{
}

/// Two logs are exported one behind the other, each under its heading.
pub proof fn law_two_logs_are_exported_in_order(logs: Vec<(String, String)>, r: (String, usize))
    requires
        call_ensures(fetch_export_logs, (&logs,), r),
        logs@.len() == 2,
        has_suffix(logs@[0].1@, "\n"@),
        has_suffix(logs@[1].1@, "\n"@),
    ensures
        r.0@ == "===== container: "@ + logs@[0].0@ + " =====\n"@ + logs@[0].1@ + (
        "===== container: "@ + logs@[1].0@ + " =====\n"@ + logs@[1].1@),
{
    reveal_with_fuel(export_text, 3);
    let front = logs@.drop_last();
    assert(front.drop_last() =~= Seq::empty());
    assert(r.0@ =~= "===== container: "@ + logs@[0].0@ + " =====\n"@ + logs@[0].1@ + (
    "===== container: "@ + logs@[1].0@ + " =====\n"@ + logs@[1].1@));
}

/// The events of a stream carry its id behind the name of the event.
pub proof fn law_events_name_their_stream(id: &str, line: String, closed: String)
    requires
        call_ensures(line_event, (id,), line),
        call_ensures(closed_event, (id,), closed),
    ensures
        line@ == "log-line:"@ + id@,
        closed@ == "log-closed:"@ + id@,
{
}

/// An export reads a container's log to its end, with the times, from as far back as asked
/// for; and the containers exported are those asked for, or all of the pod.
pub proof fn law_export_reads_what_was_asked_for(
    container: &str,
    since: Option<i64>,
    previous: bool,
    r: LogParams,
    asked: Vec<String>,
    of_pod: Vec<String>,
    containers: Vec<String>,
)
    requires
        call_ensures(export_params, (container, since, previous), r),
        call_ensures(export_containers, (asked, of_pod), containers),
    ensures
        !r.follow && r.timestamps && r.tail_lines is None && r.since_time is None,
        opt_text(r.container) == Some(container@),
        r.previous == previous && r.since_seconds == since,
        asked@.len() > 0 ==> containers == asked,
        asked@.len() == 0 ==> containers == of_pod,
{
}

/// A stream that failed says so in a line of its container, as an error; one without
/// containers has nothing to stream; and a stream closes with what ended it.
pub proof fn law_ends_of_streams_are_told(
    container: &str,
    error: &str,
    containers: Vec<String>,
    result: AppResult<String>,
    line: LogLine,
    nothing: Option<String>,
    reason: String,
)
    requires
        call_ensures(failed_line, (container, error), line),
        call_ensures(nothing_to_stream, (&containers,), nothing),
        call_ensures(close_reason, (&result,), reason),
    ensures
        line.level@ == "ERROR"@,
        line.container@ == container@,
        line.msg@ == "log stream for container '"@ + container@ + "' failed: "@ + error@,
        nothing is Some <==> containers@.len() == 0,
        nothing matches Some(t) ==> t@ == "no containers"@,
        result matches Ok(t) ==> reason@ == t@,
        result matches Err(e) ==> reason@ == e.text(),
{
    assert(line@.level == "ERROR"@);
}

/// A line that is made shows its message and its container, and no time where none is known.
pub proof fn law_made_line_shows_its_message(
    time: Option<(i64, u32)>,
    msg: &str,
    container: &str,
    r: LogLine,
)
    requires
        call_ensures(made_line, (time, msg, container), r),
    ensures
        r.msg@ == msg@,
        r.container@ == container@,
        time is None ==> r.ts@.len() == 0,
{
    assert(r@.msg == msg@);
}

} // verus!
