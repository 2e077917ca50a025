//! What the dashboard's panels show: the header, the rows of the timeline,
//! the part of each list that fits, the tone of each log line, the detail
//! popup's text and the verdicts of the popups' text boxes.

use vstd::prelude::*;
use crate::dashboard::{DashboardState, FunctionStatus, TimelineFunction};
use crate::json::{json_parse_outcome, parse_json};
use crate::text::{append, concat, contains, contains_text, decimal, decimal_string, push_char, trim, trimmed,
    truncate, truncated, chars_of, string_of};

verus! {

// ---------------------------------------------------------------------------
// The timeline
// ---------------------------------------------------------------------------

/// The mark shown before a call of the given status.
pub open spec fn status_mark(s: FunctionStatus) -> Seq<char> {
    match s {
        FunctionStatus::Completed => "✓"@,
        FunctionStatus::Failed => "✗"@,
        FunctionStatus::Skipped => "⊘"@,
        FunctionStatus::Current => "►"@,
        FunctionStatus::Pending => "○"@,
    }
}

/// The mark shown before a call of the given status.
pub fn status_symbol(s: FunctionStatus) -> (m: &'static str)
    ensures
        m@ == status_mark(s),
{
    match s {
        FunctionStatus::Completed => "✓",
        FunctionStatus::Failed => "✗",
        FunctionStatus::Skipped => "⊘",
        FunctionStatus::Current => "►",
        FunctionStatus::Pending => "○",
    }
}

/// One row of the timeline, piece by piece.
#[derive(Debug)]
pub struct TimelineRow {
    /// The status mark and a space.
    pub mark: String,
    /// The name, indented two spaces per level of call depth.
    pub label: String,
    /// ` (async*)` for a call the transformer made asynchronous.
    pub badge: String,
    /// The duration in parentheses, when known.
    pub duration: String,
    /// What a completed call returned, or why a failed one failed, cut to
    /// 50 characters.
    pub outcome: String,
}

pub open spec fn spaces(n: nat) -> Seq<char>
    decreases n,
{
    if n == 0 { Seq::empty() } else { spaces((n - 1) as nat) + seq![' ', ' '] }
}

pub open spec fn opt_text(o: Option<String>, prefix: Seq<char>) -> Seq<char> {
    match o {
        Some(p) => prefix + truncated(p@, 50),
        None => Seq::empty(),
    }
}

/// Whether `row` shows call `f`.
pub open spec fn row_of(f: TimelineFunction, row: TimelineRow) -> bool {
    &&& row.mark@ == status_mark(f.status).push(' ')
    &&& row.label@ == spaces(f.stack_depth as nat) + f.name@
    &&& row.badge@ == (if f.is_promoted { " (async*)"@ } else { Seq::empty() })
    &&& row.duration@ == match f.duration {
        Some(d) => " ("@ + d@ + ")"@,
        None => Seq::empty(),
    }
    &&& row.outcome@ == match f.status {
        FunctionStatus::Completed => opt_text(f.return_preview, " → "@),
        FunctionStatus::Failed => opt_text(f.error_preview, " ⚠ "@),
        _ => Seq::empty(),
    }
}

fn preview_text(o: &Option<String>, prefix: &str) -> (s: String)
    ensures
        s@ == opt_text(*o, prefix@),
{
    match o {
        Some(p) => {
            let mut s = String::from_str(prefix);
            let t = truncate(p.as_str(), 50);
            s.append(t.as_str());
            s
        },
        None => String::new(),
    }
}

/// How call `f` is shown on the timeline.
pub fn timeline_row(f: &TimelineFunction) -> (row: TimelineRow)
    ensures
        row_of(*f, row),
{
    let mut mark = String::from_str(status_symbol(f.status));
    push_char(&mut mark, ' ');
    let mut label = String::new();
    let mut k: u32 = 0;
    while k < f.stack_depth
        invariant
            k <= f.stack_depth,
            label@ == spaces(k as nat),
        decreases f.stack_depth - k,
    {
        push_char(&mut label, ' ');
        push_char(&mut label, ' ');
        assert(label@ =~= spaces((k + 1) as nat));
        k += 1;
    }
    label.append(f.name.as_str());
    let badge = if f.is_promoted { String::from_str(" (async*)") } else { String::new() };
    let duration = match &f.duration {
        Some(d) => {
            let mut s = String::from_str(" (");
            s.append(d.as_str());
            s.append(")");
            s
        },
        None => String::new(),
    };
    let outcome = match f.status {
        FunctionStatus::Completed => preview_text(&f.return_preview, " → "),
        FunctionStatus::Failed => preview_text(&f.error_preview, " ⚠ "),
        _ => String::new(),
    };
    TimelineRow { mark, label, badge, duration, outcome }
}

/// The end of the part of a list of `total` rows shown from `start` in
/// `visible` lines.
pub open spec fn window_end(start: int, visible: int, total: int) -> int {
    if start + visible <= total { start + visible } else { total }
}

impl DashboardState {
    /// The rows `start..end` of the timeline that fit in `visible` lines,
    /// remembering that height for scrolling.
    pub fn timeline_window(&mut self, visible: usize) -> (w: (usize, usize))
        requires
            old(self).timeline_scroll_offset <= old(self).timeline_functions@.len(),
        ensures
            *final(self) == (DashboardState { timeline_visible_height: visible, ..*old(self) }),
            w.0 == old(self).timeline_scroll_offset,
            w.1 == window_end(w.0 as int, visible as int, old(self).timeline_functions@.len() as int),
    {
        self.timeline_visible_height = visible;
        let start = self.timeline_scroll_offset;
        let total = self.timeline_functions.len();
        let end = if visible <= total - start { start + visible } else { total };
        (start, end)
    }

    /// The log lines `start..end` that fit in `visible` lines, remembering
    /// that height for scrolling.
    pub fn log_window(&mut self, visible: usize) -> (w: (usize, usize))
        requires
            old(self).log_scroll_offset <= old(self).logs@.len(),
        ensures
            *final(self) == (DashboardState { log_visible_height: visible, ..*old(self) }),
            w.0 == old(self).log_scroll_offset,
            w.1 == window_end(w.0 as int, visible as int, old(self).logs@.len() as int),
    {
        self.log_visible_height = visible;
        let start = self.log_scroll_offset;
        let total = self.logs.len();
        let end = if visible <= total - start { start + visible } else { total };
        (start, end)
    }
}

// ---------------------------------------------------------------------------
// The log panel
// ---------------------------------------------------------------------------

/// The colour a log line is shown in.
#[derive(Clone, Copy, Debug, PartialEq, Eq, Structural)]
pub enum LogTone {
    Error,
    Warning,
    Traffic,
    Checkpoint,
    Plain,
}

/// Errors first, then warnings, then messages to and from the runtime, then
/// checkpoints.
pub open spec fn tone_of_line(line: Seq<char>) -> LogTone {
    if contains_text(line, "ERROR"@) || contains_text(line, "error"@) {
        LogTone::Error
    } else if contains_text(line, "WARN"@) || contains_text(line, "warn"@) {
        LogTone::Warning
    } else if contains_text(line, "→"@) || contains_text(line, "←"@) {
        LogTone::Traffic
    } else if contains_text(line, "Checkpoint:"@) {
        LogTone::Checkpoint
    } else {
        LogTone::Plain
    }
}

/// The colour a log line is shown in.
pub fn log_tone(line: &str) -> (t: LogTone)
    ensures
        t == tone_of_line(line@),
{
    if contains(line, "ERROR") || contains(line, "error") {
        LogTone::Error
    } else if contains(line, "WARN") || contains(line, "warn") {
        LogTone::Warning
    } else if contains(line, "→") || contains(line, "←") {
        LogTone::Traffic
    } else if contains(line, "Checkpoint:") {
        LogTone::Checkpoint
    } else {
        LogTone::Plain
    }
}

// ---------------------------------------------------------------------------
// The header
// ---------------------------------------------------------------------------

/// `s` without the `"` characters at either end, as `trim_matches('"')`
/// leaves it.
pub open spec fn unquoted(s: Seq<char>) -> Seq<char>
    decreases s.len(),
{
    if s.len() > 0 && s[0] == '"' {
        unquoted(s.drop_first())
    } else if s.len() > 0 && s.last() == '"' {
        unquoted(s.drop_last())
    } else {
        s
    }
}

/// The file name shown in the header.
pub open spec fn file_shown(file_path: Option<String>) -> Seq<char> {
    match file_path {
        Some(f) => unquoted(f@),
        None => "No file"@,
    }
}

/// The file shown in the header: its path without surrounding quotes, or
/// `No file`.
pub fn file_display(file_path: &Option<String>) -> (s: String)
    ensures
        s@ == file_shown(*file_path),
{
    match file_path {
        Some(f) => {
            let v = chars_of(f.as_str());
            let mut a: usize = 0;
            let mut b: usize = v.len();
            assert(v@.subrange(0, v@.len() as int) =~= v@);
            while a < b && v[a] == '"'
                invariant
                    v@ == f@,
                    a <= b == v@.len(),
                    unquoted(f@) == unquoted(v@.subrange(a as int, b as int)),
                decreases b - a,
            {
                assert(v@.subrange(a as int, b as int).drop_first() =~= v@.subrange(a + 1, b as int));
                a += 1;
            }
            while a < b && v[b - 1] == '"'
                invariant
                    v@ == f@,
                    a <= b <= v@.len(),
                    a < b ==> v@[a as int] != '"',
                    unquoted(f@) == unquoted(v@.subrange(a as int, b as int)),
                decreases b - a,
            {
                assert(v@.subrange(a as int, b as int).drop_last() =~= v@.subrange(a as int, b - 1));
                b -= 1;
            }
            proof {
                assert(f@.subrange(0, f@.len() as int) =~= f@);
            }
            string_of(&v, a, b)
        },
        None => String::from_str("No file"),
    }
}

/// Whether the header shows the busy spinner: while the runtime starts,
/// loads or runs the application.
pub fn shows_throbber(status: &str) -> (r: bool)
    ensures
        r == (status@ == "Starting"@ || status@ == "Loading"@ || status@ == "Running"@),
{
    let s = String::from_str(status);
    s == String::from_str("Starting") || s == String::from_str("Loading") || s == String::from_str("Running")
}

/// The colour of the header's frame.
#[derive(Clone, Copy, Debug, PartialEq, Eq, Structural)]
pub enum HeaderTone {
    Paused,
    Completed,
    Normal,
}

impl DashboardState {
    /// The status the header shows: the queue of waiting checkpoints while
    /// paused, else the status.
    pub fn status_display(&self) -> (s: String)
        ensures
            self.paused ==> s@ == "⏸ Paused ("@ + decimal(self.pending_checkpoints@.len() as nat) + " queued)"@,
            !self.paused ==> s@ == self.status@,
    {
        if self.paused {
            let mut s = String::from_str("⏸ Paused (");
            let n = decimal_string(self.pending_checkpoints.len() as u64);
            s.append(n.as_str());
            s.append(" queued)");
            s
        } else {
            self.status.clone()
        }
    }

    /// The colour of the header's frame: paused first, then completed.
    pub fn header_tone(&self) -> (t: HeaderTone)
        ensures
            t == (if self.paused {
                HeaderTone::Paused
            } else if self.status@ == "Completed"@ {
                HeaderTone::Completed
            } else {
                HeaderTone::Normal
            }),
    {
        if self.paused {
            HeaderTone::Paused
        } else if self.status == String::from_str("Completed") {
            HeaderTone::Completed
        } else {
            HeaderTone::Normal
        }
    }
}

// ---------------------------------------------------------------------------
// Popups
// ---------------------------------------------------------------------------

/// How many line breaks `s` holds.
pub open spec fn breaks(s: Seq<char>) -> nat
    decreases s.len(),
{
    if s.len() == 0 { 0 } else { breaks(s.drop_last()) + if s.last() == '\n' { 1nat } else { 0nat } }
}

/// How many lines `str::lines` splits `s` into: one per line break, and
/// one more for text after the last.
pub open spec fn line_count(s: Seq<char>) -> nat {
    if s.len() == 0 {
        0
    } else if s.last() == '\n' {
        breaks(s)
    } else {
        breaks(s) + 1
    }
}

/// The detail popup's text for checkpoint `id`, given its arguments as
/// pretty JSON and its context, if any.
pub open spec fn detail_text(id: u64, args_pretty: Seq<char>, context: Option<String>) -> Seq<char> {
    "ID: "@ + decimal(id as nat) + "\n\nArgs:\n"@ + args_pretty + match context {
        Some(c) => "\n\nContext: "@ + c@,
        None => Seq::empty(),
    }
}

/// The detail popup's text.
pub fn detail_body(id: u64, args_pretty: &str, context: &Option<String>) -> (s: String)
    ensures
        s@ == detail_text(id, args_pretty@, *context),
{
    let mut s = String::from_str("ID: ");
    let d = decimal_string(id);
    s.append(d.as_str());
    s.append("\n\nArgs:\n");
    s.append(args_pretty);
    match context {
        Some(c) => {
            s.append("\n\nContext: ");
            s.append(c.as_str());
        },
        None => {
            proof {
                assert(s@ =~= s@ + Seq::<char>::empty());
            }
        },
    }
    s
}

proof fn lemma_breaks_bound(s: Seq<char>)
    ensures
        breaks(s) <= s.len(),
    decreases s.len(),
{
    if s.len() > 0 {
        lemma_breaks_bound(s.drop_last());
    }
}

/// How many lines the detail popup's text has, as `str::lines` counts them.
pub fn count_lines(s: &str) -> (n: usize)
    ensures
        n == line_count(s@),
{
    let v = chars_of(s);
    let mut count: usize = 0;
    let mut i: usize = 0;
    while i < v.len()
        invariant
            v@ == s@,
            i <= v@.len(),
            count == breaks(v@.take(i as int)),
            count <= i,
        decreases v.len() - i,
    {
        proof {
            assert(v@.take(i + 1).drop_last() =~= v@.take(i as int));
        }
        if v[i] == '\n' {
            count += 1;
        }
        i += 1;
    }
    proof {
        assert(v@.take(v@.len() as int) =~= v@);
    }
    if v.len() == 0 {
        0
    } else if v[v.len() - 1] == '\n' {
        count
    } else {
        proof {
            lemma_breaks_bound(v@.drop_last());
            assert(breaks(v@) == breaks(v@.drop_last()));
        }
        count + 1
    }
}

/// How a popup judges what is written in its text box.
#[derive(Clone, Copy, Debug, PartialEq, Eq, Structural)]
pub enum Verdict {
    Neutral,
    Good,
    Bad,
}

/// What the skip popup says of its text: an empty text skips with `null`,
/// valid JSON is accepted, otherwise the parser's complaint, cut to 80
/// characters.
pub open spec fn skip_verdict_of(text: Seq<char>) -> (Seq<char>, Verdict) {
    let t = trimmed(text);
    if t.len() == 0 {
        ("→ Will skip with: null"@, Verdict::Neutral)
    } else {
        match json_parse_outcome(t) {
            Ok(_) => ("✓ Valid JSON"@, Verdict::Good),
            Err(e) => ("✗ "@ + truncated(e, 80), Verdict::Bad),
        }
    }
}

/// What the edit popup says of its text: it must be a JSON array, whose
/// length is shown.
pub open spec fn edit_verdict_of(text: Seq<char>) -> (Seq<char>, Verdict) {
    let t = trimmed(text);
    if t.len() == 0 {
        ("✗ Args cannot be empty"@, Verdict::Bad)
    } else {
        match json_parse_outcome(t) {
            Ok(Some(n)) => ("✓ Valid JSON array ("@ + decimal(n as nat) + " args)"@, Verdict::Good),
            Ok(None) => ("✗ Args must be a JSON array"@, Verdict::Bad),
            Err(e) => ("✗ "@ + truncated(e, 80), Verdict::Bad),
        }
    }
}

/// What the skip popup says of `text`.
pub fn skip_verdict(text: &str) -> (v: (String, Verdict))
    ensures
        (v.0@, v.1) == skip_verdict_of(text@),
{
    let t = trim(text);
    if t.unicode_len() == 0 {
        return (String::from_str("→ Will skip with: null"), Verdict::Neutral);
    }
    match parse_json(t.as_str()) {
        Ok(_) => (String::from_str("✓ Valid JSON"), Verdict::Good),
        Err(e) => {
            let cut = truncate(e.as_str(), 80);
            (concat("✗ ", cut.as_str()), Verdict::Bad)
        },
    }
}

/// What the edit popup says of `text`.
pub fn edit_verdict(text: &str) -> (v: (String, Verdict))
    ensures
        (v.0@, v.1) == edit_verdict_of(text@),
{
    let t = trim(text);
    if t.unicode_len() == 0 {
        return (String::from_str("✗ Args cannot be empty"), Verdict::Bad);
    }
    match parse_json(t.as_str()) {
        Ok(Some(n)) => {
            let mut s = String::from_str("✓ Valid JSON array (");
            let d = decimal_string(n as u64);
            s.append(d.as_str());
            s.append(" args)");
            (s, Verdict::Good)
        },
        Ok(None) => (String::from_str("✗ Args must be a JSON array"), Verdict::Bad),
        Err(e) => {
            let cut = truncate(e.as_str(), 80);
            (concat("✗ ", cut.as_str()), Verdict::Bad)
        },
    }
}

// ---------------------------------------------------------------------------
// The current checkpoint
// ---------------------------------------------------------------------------

/// `n` spaces.
pub open spec fn blanks(n: nat) -> Seq<char> {
    Seq::new(n, |i: int| ' ')
}

/// `s` padded with spaces to `width` characters, as `{:<width$}` writes it;
/// a longer `s` is kept whole.
pub open spec fn padded(s: Seq<char>, width: nat) -> Seq<char> {
    if s.len() < width { s + blanks((width - s.len()) as nat) } else { s }
}

/// The two lines of the current-checkpoint panel, each split at half of
/// `width`: the oldest waiting call and the queue's length, then the caller
/// and the stack depth.
pub open spec fn checkpoint_lines(d: DashboardState, width: nat) -> Seq<char> {
    let half = width / 2;
    let left1 = if d.pending_checkpoints@.len() > 0 {
        "Function: "@ + d.pending_checkpoints@[0].function_name@ + "()"@
    } else {
        "Function: None"@
    };
    let left2 = match d.called_by {
        Some(c) => "Called by: "@ + c@ + "()"@,
        None => "Called by: <root>"@,
    };
    padded(left1, half) + "Queue: "@ + decimal(d.pending_checkpoints@.len() as nat) + seq!['\n']
        + padded(left2, half) + "Stack depth: "@ + decimal(d.stack_depth as nat)
}

fn pad_to(s: &mut String, width: usize)
    ensures
        final(s)@ == padded(old(s)@, width as nat),
{
    let n = s.unicode_len();
    let mut k = n;
    while k < width
        invariant
            n == old(s)@.len(),
            k >= n,
            n < width ==> k <= width,
            n >= width ==> k == n,
            s@ == old(s)@ + blanks((k - n) as nat),
        decreases width - k,
    {
        push_char(s, ' ');
        assert(s@ =~= old(s)@ + blanks((k + 1 - n) as nat));
        k += 1;
    }
    assert(n >= width ==> s@ =~= old(s)@) by {
        assert(blanks(0) =~= Seq::<char>::empty());
    }
}

impl DashboardState {
    /// The text of the current-checkpoint panel, `width` characters wide.
    pub fn checkpoint_summary(&self, width: usize) -> (s: String)
        ensures
            s@ == checkpoint_lines(*self, width as nat),
    {
        let half = width / 2;
        let mut s = if self.pending_checkpoints.len() > 0 {
            let mut t = concat("Function: ", self.pending_checkpoints[0].function_name.as_str());
            t.append("()");
            t
        } else {
            String::from_str("Function: None")
        };
        pad_to(&mut s, half);
        s.append("Queue: ");
        let q = decimal_string(self.pending_checkpoints.len() as u64);
        s.append(q.as_str());
        push_char(&mut s, '\n');
        let mut left2 = match &self.called_by {
            Some(c) => {
                let mut t = concat("Called by: ", c.as_str());
                t.append("()");
                t
            },
            None => String::from_str("Called by: <root>"),
        };
        pad_to(&mut left2, half);
        s.append(left2.as_str());
        s.append("Stack depth: ");
        let d = decimal_string(self.stack_depth as u64);
        s.append(d.as_str());
        s
    }
}

} // verus!
