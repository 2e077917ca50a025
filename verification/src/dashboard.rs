//! The dashboard scene: the queue of paused checkpoints, the timeline of
//! called functions, the log panel and the popups, and how each runtime
//! message and each user action changes them.

use vstd::prelude::*;
use crate::clock::{clock_time_at, local_time_of_day};
use crate::json::{json_parse_outcome, parse_json};
use crate::text::{append, concat, decimal, decimal_string, truncate, truncated, trim, trimmed, contains,
    contains_text, same_text};

verus! {

/// The log panel keeps this many lines; older ones are dropped.
pub const LOG_CAPACITY: usize = 100;

#[derive(Clone, Copy, Debug, PartialEq, Eq, Structural)]
pub enum FocusedPanel {
    Timeline,
    Logs,
}

#[derive(Clone, Copy, Debug, PartialEq, Eq, Structural)]
pub enum FunctionStatus {
    Completed,
    Failed,
    Skipped,
    Current,
    Pending,
}

/// A checkpoint the runtime paused at and waits to have answered.
#[derive(Debug)]
pub struct CheckpointData {
    pub id: u64,
    pub function_name: String,
    /// The call's arguments, as the JSON text of an array.
    pub args: String,
    pub context: Option<String>,
    pub stack_depth: u32,
    pub caller_name: Option<String>,
}

/// One call on the timeline.
#[derive(Debug)]
pub struct TimelineFunction {
    pub name: String,
    pub status: FunctionStatus,
    pub duration: Option<String>,
    pub checkpoint_id: u64,
    pub return_preview: Option<String>,
    pub return_type: Option<String>,
    /// The returned value, as JSON text.
    pub return_value: Option<String>,
    pub error_preview: Option<String>,
    pub is_promoted: bool,
    pub stack_depth: u32,
}

/// Everything the dashboard shows and remembers between frames.
#[derive(Debug)]
pub struct DashboardState {
    pub file_path: Option<String>,
    pub transformed_path: Option<String>,
    /// Whether a runtime is attached that answers can be sent to.
    pub runtime_attached: bool,
    pub runtime: String,
    pub execution_time: String,
    pub status: String,
    pub current_function: Option<String>,
    pub current_line: Option<u32>,
    pub called_by: Option<String>,
    pub stack_depth: u32,
    pub timeline_functions: Vec<TimelineFunction>,
    pub timeline_scroll_offset: usize,
    pub timeline_visible_height: usize,
    pub logs: Vec<String>,
    pub log_visible_height: usize,
    pub log_scroll_offset: usize,
    pub paused: bool,
    pub app_loading: bool,
    pub pending_checkpoints: Vec<CheckpointData>,
    pub focused_panel: FocusedPanel,
    /// Names of the functions the transformer made asynchronous; no name
    /// occurs twice.
    pub promoted_functions: Vec<String>,
    pub show_detail_popup: bool,
    pub detail_scroll_offset: u16,
    pub detail_content_lines: usize,
    pub detail_visible_height: u16,
    pub show_skip_popup: bool,
    pub show_edit_popup: bool,
    pub verbose: bool,
}

// ---------------------------------------------------------------------------
// The log panel
// ---------------------------------------------------------------------------

/// `a - b`, or 0 when `b` is larger.
pub open spec fn sat_sub(a: int, b: int) -> int {
    if a > b { a - b } else { 0 }
}

/// A log line for `msg`: the time of day in brackets, a space, the message.
pub open spec fn is_log_line(line: Seq<char>, msg: Seq<char>) -> bool {
    &&& line.len() == msg.len() + 11
    &&& line[0] == '['
    &&& clock_time_at(line, 1)
    &&& line[9] == ']'
    &&& line[10] == ' '
    &&& line.subrange(11, line.len() as int) == msg
}

/// How many of the oldest lines go when `added` lines are logged, one at a
/// time, to a panel of `len` lines.
pub open spec fn dropped_lines(len: nat, added: nat) -> nat {
    if len >= LOG_CAPACITY {
        added
    } else if len + added > LOG_CAPACITY {
        (len + added - LOG_CAPACITY) as nat
    } else {
        0
    }
}

/// Entry `p` of the lines `before` followed by a line for each of `msgs`
/// is shown as `line`.
pub open spec fn shows_entry(before: Seq<String>, msgs: Seq<Seq<char>>, p: int, line: String) -> bool {
    if p < before.len() {
        line == before[p]
    } else {
        is_log_line(line@, msgs[p - before.len()])
    }
}

/// `after` is `before` with one line logged for each of `msgs`, in order,
/// the oldest lines dropped to keep the panel within its capacity: the last
/// lines of `before` followed by a line for each message.
pub open spec fn log_effect(before: Seq<String>, after: Seq<String>, msgs: Seq<Seq<char>>) -> bool {
    let d = dropped_lines(before.len(), msgs.len());
    &&& after.len() == before.len() + msgs.len() - d
    &&& forall|j: int| 0 <= j < after.len() ==> shows_entry(before, msgs, d + j, #[trigger] after[j])
}

/// The log panel of `after` is that of `before` with `msgs` logged, and it
/// shows its last lines when anything was logged.
pub open spec fn logged(before: DashboardState, after: DashboardState, msgs: Seq<Seq<char>>) -> bool {
    &&& log_effect(before.logs@, after.logs@, msgs)
    &&& msgs.len() > 0 ==> after.log_scroll_offset == sat_sub(after.logs.len() as int, before.log_visible_height as int)
    &&& msgs.len() == 0 ==> after.log_scroll_offset == before.log_scroll_offset
}

/// The messages a verbose-only log call adds.
pub open spec fn verbose_msgs(verbose: bool, msgs: Seq<Seq<char>>) -> Seq<Seq<char>> {
    if verbose { msgs } else { Seq::empty() }
}

/// `after` equals `before` but for the log panel.
pub open spec fn same_but_logs(before: DashboardState, after: DashboardState) -> bool {
    after == (DashboardState { logs: after.logs, log_scroll_offset: after.log_scroll_offset, ..before })
}

proof fn lemma_log_effect_compose(a: Seq<String>, b: Seq<String>, c: Seq<String>, m1: Seq<Seq<char>>, m2: Seq<Seq<char>>)
    requires
        log_effect(a, b, m1),
        log_effect(b, c, m2),
    ensures
        log_effect(a, c, m1 + m2),
{
    let k1 = m1.len();
    let k2 = m2.len();
    let d1 = dropped_lines(a.len(), k1);
    let d2 = dropped_lines(b.len(), k2);
    let m = m1 + m2;
    assert(dropped_lines(a.len(), k1 + k2) == d1 + d2);
    assert forall|j: int| 0 <= j < c.len() implies shows_entry(a, m, d1 + d2 + j, #[trigger] c[j]) by {
        assert(shows_entry(b, m2, d2 + j, c[j]));
        if d2 + j < b.len() {
            assert(shows_entry(a, m1, d1 + d2 + j, b[d2 + j]));
            if d1 + d2 + j >= a.len() {
                assert(m[d1 + d2 + j - a.len()] == m1[d1 + d2 + j - a.len()]);
            }
        } else {
            assert(m[d1 + d2 + j - a.len()] == m2[d2 + j - b.len()]);
        }
    }
}

/// A log line for `message`, stamped with the current time of day.
fn log_line(message: &str) -> (line: String)
    ensures
        is_log_line(line@, message@),
{
    let t = local_time_of_day();
    let mut line = String::from_str("[");
    line.append(t.as_str());
    line.append("] ");
    line.append(message);
    proof {
        reveal_strlit("[");
        reveal_strlit("] ");
        assert(line@.subrange(11, line@.len() as int) =~= message@);
        assert(line@.subrange(1, 9) =~= t@);
        assert(clock_time_at(line@, 1)) by {
            assert forall|i: int| 0 <= i < 8 implies line@[1 + i] == t@[i] by {
                assert(line@.subrange(1, 9)[i] == line@[1 + i]);
            }
        }
    }
    line
}

// ---------------------------------------------------------------------------
// Scrolling, focus and popups
// ---------------------------------------------------------------------------

/// The dashboard as it starts: nothing loaded, one line logged, the log
/// panel focused.
pub open spec fn fresh_dashboard(s: DashboardState) -> bool {
    &&& s.file_path is None
    &&& s.transformed_path is None
    &&& !s.runtime_attached
    &&& s.runtime@ == "Unknown"@
    &&& s.execution_time@ == "0ms"@
    &&& s.status@ == "Unknown"@
    &&& s.current_function is None
    &&& s.current_line is None
    &&& s.called_by is None
    &&& s.stack_depth == 0
    &&& s.timeline_functions@.len() == 0
    &&& s.timeline_scroll_offset == 0
    &&& s.timeline_visible_height == 10
    &&& s.logs@.len() == 1
    &&& s.logs@[0]@ == "System initialized"@
    &&& s.log_scroll_offset == 0
    &&& s.log_visible_height == 20
    &&& !s.paused
    &&& !s.app_loading
    &&& s.pending_checkpoints@.len() == 0
    &&& s.focused_panel == FocusedPanel::Logs
    &&& s.promoted_functions@.len() == 0
    &&& !s.show_detail_popup
    &&& s.detail_scroll_offset == 0
    &&& s.detail_content_lines == 0
    &&& s.detail_visible_height == 0
    &&& !s.show_skip_popup
    &&& !s.show_edit_popup
    &&& !s.verbose
}

/// The log panel a line further up, unless at its top.
pub open spec fn logs_up(d: DashboardState) -> DashboardState {
    DashboardState {
        log_scroll_offset: if d.log_scroll_offset > 0 { (d.log_scroll_offset - 1) as usize } else { 0 },
        ..d
    }
}

/// The log panel a line further down, unless its last page shows.
pub open spec fn logs_down(d: DashboardState) -> DashboardState {
    DashboardState {
        log_scroll_offset: if d.log_scroll_offset < sat_sub(d.logs.len() as int, d.log_visible_height as int) {
            (d.log_scroll_offset + 1) as usize
        } else {
            d.log_scroll_offset
        },
        ..d
    }
}

/// The timeline a row further up, unless at its top.
pub open spec fn timeline_up(d: DashboardState) -> DashboardState {
    DashboardState {
        timeline_scroll_offset: if d.timeline_scroll_offset > 0 { (d.timeline_scroll_offset - 1) as usize } else { 0 },
        ..d
    }
}

/// The timeline a row further down, unless its last page shows.
pub open spec fn timeline_down(d: DashboardState) -> DashboardState {
    DashboardState {
        timeline_scroll_offset: if d.timeline_scroll_offset < sat_sub(d.timeline_functions.len() as int,
            d.timeline_visible_height as int) {
            (d.timeline_scroll_offset + 1) as usize
        } else {
            d.timeline_scroll_offset
        },
        ..d
    }
}

/// The other panel focused.
pub open spec fn focus_toggled(d: DashboardState) -> DashboardState {
    DashboardState {
        focused_panel: match d.focused_panel {
            FocusedPanel::Timeline => FocusedPanel::Logs,
            FocusedPanel::Logs => FocusedPanel::Timeline,
        },
        ..d
    }
}

/// The detail popup closed and scrolled back to its top.
pub open spec fn detail_closed(d: DashboardState) -> DashboardState {
    DashboardState { show_detail_popup: false, detail_scroll_offset: 0, ..d }
}

/// The detail popup closed when open; opened at its top when closed and a
/// checkpoint waits; else unchanged.
pub open spec fn detail_toggled(d: DashboardState) -> DashboardState {
    if d.show_detail_popup {
        detail_closed(d)
    } else if d.pending_checkpoints@.len() > 0 {
        DashboardState { show_detail_popup: true, detail_scroll_offset: 0, ..d }
    } else {
        d
    }
}

/// The detail popup a line further up, unless at its top.
pub open spec fn detail_up(d: DashboardState) -> DashboardState {
    DashboardState {
        detail_scroll_offset: if d.detail_scroll_offset > 0 { (d.detail_scroll_offset - 1) as u16 } else { 0 },
        ..d
    }
}

/// The detail popup a line further down, up to its last page; the limit is
/// taken modulo 2^16, as a cast to `u16` keeps it.
pub open spec fn detail_down(d: DashboardState) -> DashboardState {
    DashboardState {
        detail_scroll_offset: if d.detail_scroll_offset < sat_sub(d.detail_content_lines as int,
            d.detail_visible_height as int) % 65536 {
            (d.detail_scroll_offset + 1) as u16
        } else {
            d.detail_scroll_offset
        },
        ..d
    }
}

/// The skip popup open, when a checkpoint waits.
pub open spec fn skip_popup_opened(d: DashboardState) -> DashboardState {
    if d.pending_checkpoints@.len() > 0 { DashboardState { show_skip_popup: true, ..d } } else { d }
}

/// The edit popup open, when a checkpoint waits.
pub open spec fn edit_popup_opened(d: DashboardState) -> DashboardState {
    if d.pending_checkpoints@.len() > 0 { DashboardState { show_edit_popup: true, ..d } } else { d }
}

impl DashboardState {
    /// The dashboard before any file is loaded.
    pub fn new() -> (s: Self)
        ensures
            fresh_dashboard(s),
    {
        let mut logs: Vec<String> = Vec::new();
        logs.push(String::from_str("System initialized"));
        DashboardState {
            file_path: None,
            transformed_path: None,
            runtime_attached: false,
            runtime: String::from_str("Unknown"),
            execution_time: String::from_str("0ms"),
            status: String::from_str("Unknown"),
            current_function: None,
            current_line: None,
            called_by: None,
            stack_depth: 0,
            timeline_functions: Vec::new(),
            timeline_scroll_offset: 0,
            timeline_visible_height: 10,
            logs,
            log_visible_height: 20,
            log_scroll_offset: 0,
            paused: false,
            app_loading: false,
            pending_checkpoints: Vec::new(),
            focused_panel: FocusedPanel::Logs,
            promoted_functions: Vec::new(),
            show_detail_popup: false,
            detail_scroll_offset: 0,
            detail_content_lines: 0,
            detail_visible_height: 0,
            show_skip_popup: false,
            show_edit_popup: false,
            verbose: false,
        }
    }

    pub fn set_verbose(&mut self, verbose: bool)
        ensures
            *final(self) == (DashboardState { verbose, ..*old(self) }),
    {
        self.verbose = verbose;
    }

    pub fn scroll_logs_up(&mut self)
        ensures
            *final(self) == logs_up(*old(self)),
    {
        if self.log_scroll_offset > 0 {
            self.log_scroll_offset -= 1;
        }
    }

    pub fn scroll_logs_down(&mut self)
        ensures
            *final(self) == logs_down(*old(self)),
    {
        let max_scroll = self.logs.len().saturating_sub(self.log_visible_height);
        if self.log_scroll_offset < max_scroll {
            self.log_scroll_offset += 1;
        }
    }

    pub fn scroll_logs_to_bottom(&mut self)
        ensures
            *final(self) == (DashboardState {
                log_scroll_offset: sat_sub(old(self).logs.len() as int, old(self).log_visible_height as int) as usize,
                ..*old(self)
            }),
    {
        self.log_scroll_offset = self.logs.len().saturating_sub(self.log_visible_height);
    }

    pub fn scroll_timeline_up(&mut self)
        ensures
            *final(self) == timeline_up(*old(self)),
    {
        if self.timeline_scroll_offset > 0 {
            self.timeline_scroll_offset -= 1;
        }
    }

    pub fn scroll_timeline_down(&mut self)
        ensures
            *final(self) == timeline_down(*old(self)),
    {
        let max_scroll = self.timeline_functions.len().saturating_sub(self.timeline_visible_height);
        if self.timeline_scroll_offset < max_scroll {
            self.timeline_scroll_offset += 1;
        }
    }

    pub fn scroll_timeline_to_bottom(&mut self)
        ensures
            *final(self) == (DashboardState {
                timeline_scroll_offset: sat_sub(old(self).timeline_functions.len() as int, old(self).timeline_visible_height as int) as usize,
                ..*old(self)
            }),
    {
        self.timeline_scroll_offset = self.timeline_functions.len().saturating_sub(self.timeline_visible_height);
    }

    pub fn toggle_focus(&mut self)
        ensures
            *final(self) == focus_toggled(*old(self)),
    {
        self.focused_panel = match self.focused_panel {
            FocusedPanel::Timeline => FocusedPanel::Logs,
            FocusedPanel::Logs => FocusedPanel::Timeline,
        };
    }

    /// Opens the detail popup when a checkpoint is waiting, closes it when it
    /// is open.
    pub fn toggle_detail_popup(&mut self)
        ensures
            *final(self) == detail_toggled(*old(self)),
    {
        if self.show_detail_popup {
            self.close_detail_popup();
        } else if self.pending_checkpoints.len() > 0 {
            self.show_detail_popup = true;
            self.detail_scroll_offset = 0;
        }
    }

    pub fn close_detail_popup(&mut self)
        ensures
            *final(self) == detail_closed(*old(self)),
    {
        self.show_detail_popup = false;
        self.detail_scroll_offset = 0;
    }

    pub fn scroll_detail_up(&mut self)
        ensures
            *final(self) == detail_up(*old(self)),
    {
        self.detail_scroll_offset = self.detail_scroll_offset.saturating_sub(1);
    }

    /// Scrolls the detail popup down a line, up to its last page. The limit
    /// is taken modulo 2^16, as a cast to `u16` keeps it.
    pub fn scroll_detail_down(&mut self)
        ensures
            *final(self) == detail_down(*old(self)),
    {
        let lines = self.detail_content_lines.saturating_sub(self.detail_visible_height as usize);
        let max_scroll = (lines % 65536) as u16;
        if self.detail_scroll_offset < max_scroll {
            self.detail_scroll_offset += 1;
        }
    }

    /// Opens the skip popup when a checkpoint is waiting; the caller clears
    /// the popup's text box when it opened.
    pub fn open_skip_popup(&mut self) -> (opened: bool)
        ensures
            opened == (old(self).pending_checkpoints@.len() > 0),
            *final(self) == skip_popup_opened(*old(self)),
    {
        if self.pending_checkpoints.len() == 0 {
            return false;
        }
        self.show_skip_popup = true;
        true
    }

    pub fn close_skip_popup(&mut self)
        ensures
            *final(self) == (DashboardState { show_skip_popup: false, ..*old(self) }),
    {
        self.show_skip_popup = false;
    }

    pub fn close_edit_popup(&mut self)
        ensures
            *final(self) == (DashboardState { show_edit_popup: false, ..*old(self) }),
    {
        self.show_edit_popup = false;
    }

    /// Opens the edit popup on the oldest waiting checkpoint and hands out
    /// its arguments, for the text box; nothing happens when none waits.
    pub fn open_edit_popup(&mut self) -> (args: Option<String>)
        ensures
            *final(self) == edit_popup_opened(*old(self)),
            old(self).pending_checkpoints@.len() == 0 ==> args is None,
            old(self).pending_checkpoints@.len() > 0 ==> (args matches Some(a)
                && a@ == old(self).pending_checkpoints@[0].args@),
    {
        if self.pending_checkpoints.len() == 0 {
            return None;
        }
        let args = self.pending_checkpoints[0].args.clone();
        self.show_edit_popup = true;
        Some(args)
    }

    /// Logs `message`, time-stamped; the oldest line goes when the panel is
    /// full, and the panel scrolls to its end.
    pub fn add_log(&mut self, message: String)
        ensures
            logged(*old(self), *final(self), seq![message@]),
            same_but_logs(*old(self), *final(self)),
    {
        let line = log_line(message.as_str());
        let ghost before = self.logs@;
        self.logs.push(line);
        if self.logs.len() > LOG_CAPACITY {
            self.logs.remove(0);
        }
        proof {
            let after = self.logs@;
            let d = dropped_lines(before.len(), 1);
            assert forall|j: int| 0 <= j < after.len() implies
                shows_entry(before, seq![message@], d + j, #[trigger] after[j]) by {
                if d + j == before.len() {
                    assert(after[j] == line);
                }
            }
        }
        self.scroll_logs_to_bottom();
    }

    /// Logs `message` when the dashboard is verbose.
    pub fn add_log_verbose(&mut self, message: String)
        ensures
            logged(*old(self), *final(self), verbose_msgs(old(self).verbose, seq![message@])),
            same_but_logs(*old(self), *final(self)),
    {
        if self.verbose {
            self.add_log(message);
        }
    }
}


/// The texts of `msgs`.
pub open spec fn texts(msgs: Seq<String>) -> Seq<Seq<char>> {
    msgs.map_values(|m: String| m@)
}

proof fn lemma_logged_compose(a: DashboardState, b: DashboardState, c: DashboardState, m1: Seq<Seq<char>>, m2: Seq<Seq<char>>)
    requires
        logged(a, b, m1),
        logged(b, c, m2),
        b.log_visible_height == a.log_visible_height,
    ensures
        logged(a, c, m1 + m2),
{
    lemma_log_effect_compose(a.logs@, b.logs@, c.logs@, m1, m2);
    if m2.len() == 0 {
        assert(m1 + m2 =~= m1);
    }
    if m1.len() == 0 {
        assert(m1 + m2 =~= m2);
    }
}

/// Whether `name` is one of `names`.
pub fn contains_name(names: &Vec<String>, name: &str) -> (r: bool)
    ensures
        r == exists|i: int| 0 <= i < names@.len() && #[trigger] names@[i]@ == name@,
{
    let mut i: usize = 0;
    while i < names.len()
        invariant
            i <= names@.len(),
            forall|k: int| 0 <= k < i ==> names@[k]@ != name@,
        decreases names.len() - i,
    {
        if same_text(names[i].as_str(), name) {
            return true;
        }
        i += 1;
    }
    false
}

/// A runtime status message, as the fields the dashboard reads from it.
#[derive(Debug)]
pub struct StatusMessage {
    /// The `log` field, when it is a string.
    pub log: Option<String>,
    /// The `type` field, when it is a string.
    pub kind: Option<String>,
    /// The `value.lv` field, when it is a string.
    pub version: Option<String>,
    /// The `message` field, when it is a string.
    pub message: Option<String>,
}

/// `s` holds the text `t`.
pub open spec fn is_text(s: Option<String>, t: Seq<char>) -> bool {
    s matches Some(x) && x@ == t
}

/// What a status message adds to the log, in order.
pub open spec fn status_log_msgs(verbose: bool, m: StatusMessage) -> Seq<Seq<char>> {
    let from_log = match m.log {
        Some(l) => if contains_text(l@, "Runtime ready, waiting for commands"@) { Seq::empty() } else { seq![l@] },
        None => Seq::empty(),
    };
    let from_kind = match m.kind {
        None => Seq::empty(),
        Some(k) => if k@ == "runtime_ready"@ {
            Seq::empty()
        } else if k@ == "version"@ {
            match m.version {
                Some(v) => seq!["Runtime version: "@ + v@],
                None => Seq::empty(),
            }
        } else if k@ == "execution_complete"@ {
            seq!["Execution completed"@]
        } else if k@ == "error"@ {
            match m.message {
                Some(e) => seq!["ERROR: "@ + e@],
                None => match m.log {
                    Some(l) => seq!["ERROR: "@ + l@],
                    None => Seq::empty(),
                },
            }
        } else {
            verbose_msgs(verbose, seq!["Status: "@ + k@])
        },
    };
    from_log + from_kind
}

/// Whether a status message announces that the application finished
/// loading.
pub open spec fn announces_loaded(m: StatusMessage) -> bool {
    m.log matches Some(l) && contains_text(l@, "Application loaded and ready"@)
}

/// The status text after a status message.
pub open spec fn status_after_message(s: DashboardState, m: StatusMessage) -> Seq<char> {
    if s.app_loading && announces_loaded(m) {
        "Running"@
    } else if is_text(m.kind, "execution_complete"@) {
        "Completed"@
    } else {
        s.status@
    }
}

impl DashboardState {
    /// Logs each of `msgs`, in order; the panel keeps its last lines.
    pub fn add_logs(&mut self, msgs: Vec<String>)
        ensures
            logged(*old(self), *final(self), texts(msgs@)),
            same_but_logs(*old(self), *final(self)),
    {
        let ghost start = *self;
        let mut i: usize = 0;
        proof {
            assert(texts(msgs@.subrange(0, 0)) =~= Seq::<Seq<char>>::empty());
        }
        while i < msgs.len()
            invariant
                i <= msgs@.len(),
                logged(start, *self, texts(msgs@.subrange(0, i as int))),
                same_but_logs(start, *self),
            decreases msgs.len() - i,
        {
            let ghost mid = *self;
            let m = msgs[i].clone();
            self.add_log(m);
            proof {
                lemma_logged_compose(start, mid, *self, texts(msgs@.subrange(0, i as int)), seq![msgs@[i as int]@]);
                assert(texts(msgs@.subrange(0, i as int)) + seq![msgs@[i as int]@] =~= texts(msgs@.subrange(0, i + 1)));
            }
            i += 1;
        }
        proof {
            assert(msgs@.subrange(0, msgs@.len() as int) =~= msgs@);
        }
    }

    fn status_log_messages(&self, m: &StatusMessage) -> (msgs: Vec<String>)
        ensures
            texts(msgs@) == status_log_msgs(self.verbose, *m),
            msgs@.len() <= 2,
    {
        let mut msgs: Vec<String> = Vec::new();
        match &m.log {
            Some(l) => {
                if !contains(l.as_str(), "Runtime ready, waiting for commands") {
                    msgs.push(l.clone());
                }
            },
            None => {},
        }
        let ghost first = texts(msgs@);
        match &m.kind {
            None => {},
            Some(k) => {
                if same_text(k.as_str(), "runtime_ready") {
                } else if same_text(k.as_str(), "version") {
                    match &m.version {
                        Some(v) => { msgs.push(concat("Runtime version: ", v.as_str())); },
                        None => {},
                    }
                } else if same_text(k.as_str(), "execution_complete") {
                    msgs.push(String::from_str("Execution completed"));
                } else if same_text(k.as_str(), "error") {
                    match &m.message {
                        Some(e) => { msgs.push(concat("ERROR: ", e.as_str())); },
                        None => match &m.log {
                            Some(l) => { msgs.push(concat("ERROR: ", l.as_str())); },
                            None => {},
                        },
                    }
                } else if self.verbose {
                    msgs.push(concat("Status: ", k.as_str()));
                }
            },
        }
        proof {
            assert(texts(msgs@) =~= status_log_msgs(self.verbose, *m));
        }
        msgs
    }

    /// Applies a status message of the runtime: logs its text (but the
    /// repeated ready notice), records the runtime version, marks the run
    /// complete, reports errors, and ends the loading phase when the
    /// application says it is loaded.
    pub fn handle_status_message(&mut self, message: StatusMessage)
        ensures
            logged(*old(self), *final(self), status_log_msgs(old(self).verbose, message)),
            final(self).runtime@ == (if is_text(message.kind, "version"@) && message.version is Some {
                message.version->0@
            } else {
                old(self).runtime@
            }),
            final(self).status@ == status_after_message(*old(self), message),
            final(self).app_loading == (old(self).app_loading && !announces_loaded(message)),
            *final(self) == (DashboardState {
                logs: final(self).logs,
                log_scroll_offset: final(self).log_scroll_offset,
                runtime: final(self).runtime,
                status: final(self).status,
                app_loading: final(self).app_loading,
                ..*old(self)
            }),
    {
        assert("version"@ != "execution_complete"@) by {
            reveal_strlit("version");
            reveal_strlit("execution_complete");
            assert("version"@.len() != "execution_complete"@.len());
        }
        let msgs = self.status_log_messages(&message);
        self.add_logs(msgs);
        match &message.kind {
            Some(k) => {
                if same_text(k.as_str(), "version") {
                    match &message.version {
                        Some(v) => { self.runtime = v.clone(); },
                        None => {},
                    }
                } else if same_text(k.as_str(), "execution_complete") {
                    self.status = String::from_str("Completed");
                }
            },
            None => {},
        }
        if self.app_loading {
            match &message.log {
                Some(l) => {
                    if contains(l.as_str(), "Application loaded and ready") {
                        self.app_loading = false;
                        self.status = String::from_str("Running");
                    }
                },
                None => {},
            }
        }
    }

    /// Records the names of the functions the transformer made asynchronous.
    pub fn set_promoted_functions(&mut self, promoted: Vec<String>)
        ensures
            *final(self) == (DashboardState { promoted_functions: promoted, ..*old(self) }),
    {
        self.promoted_functions = promoted;
    }

    /// Records the file being debugged and its transformed copy, before the
    /// runtime is started.
    pub fn set_file(&mut self, transformed_file: String, original_file: String)
        ensures
            *final(self) == (DashboardState {
                file_path: Some(original_file),
                transformed_path: Some(transformed_file),
                ..*old(self)
            }),
    {
        self.file_path = Some(original_file);
        self.transformed_path = Some(transformed_file);
    }

    /// The runtime process started.
    pub fn runtime_spawned(&mut self)
        ensures
            logged(*old(self), *final(self), seq!["Runtime started, loading application..."@]),
            final(self).status@ == "Starting"@,
            *final(self) == (DashboardState {
                logs: final(self).logs,
                log_scroll_offset: final(self).log_scroll_offset,
                status: final(self).status,
                ..*old(self)
            }),
    {
        self.status = String::from_str("Starting");
        self.add_log(String::from_str("Runtime started, loading application..."));
    }

    /// The runtime process could not be started.
    pub fn runtime_spawn_failed(&mut self, error: String)
        ensures
            logged(*old(self), *final(self), seq!["Failed to start runtime: "@ + error@]),
            final(self).status@ == "Error"@,
            *final(self) == (DashboardState {
                logs: final(self).logs,
                log_scroll_offset: final(self).log_scroll_offset,
                status: final(self).status,
                ..*old(self)
            }),
    {
        self.status = String::from_str("Error");
        self.add_log(concat("Failed to start runtime: ", error.as_str()));
    }

    /// The command to load the application could not be sent; the runtime
    /// is given up.
    pub fn app_load_failed(&mut self, error: String)
        ensures
            logged(*old(self), *final(self), seq!["Failed to load application: "@ + error@]),
            final(self).status@ == "Error"@,
            *final(self) == (DashboardState {
                logs: final(self).logs,
                log_scroll_offset: final(self).log_scroll_offset,
                status: final(self).status,
                ..*old(self)
            }),
    {
        self.status = String::from_str("Error");
        self.add_log(concat("Failed to load application: ", error.as_str()));
    }

    /// The application is being loaded by the attached runtime.
    pub fn app_load_sent(&mut self)
        ensures
            final(self).status@ == "Loading"@,
            *final(self) == (DashboardState {
                runtime_attached: true,
                app_loading: true,
                status: final(self).status,
                ..*old(self)
            }),
    {
        self.runtime_attached = true;
        self.app_loading = true;
        self.status = String::from_str("Loading");
    }

    /// The runtime was shut down and detached.
    pub fn shutdown(&mut self)
        ensures
            final(self).status@ == "Stopped"@,
            *final(self) == (DashboardState { runtime_attached: false, status: final(self).status, ..*old(self) }),
    {
        self.runtime_attached = false;
        self.status = String::from_str("Stopped");
    }
}


// ---------------------------------------------------------------------------
// Checkpoint messages
// ---------------------------------------------------------------------------

/// The payload of a checkpoint message, as the fields the dashboard reads.
pub struct CheckpointPayload {
    pub function_name: Option<String>,
    /// The JSON text of the `args` field, when it is an array.
    pub args: Option<String>,
    pub context: Option<String>,
    pub stack_depth: Option<u64>,
    pub caller_name: Option<String>,
    pub status: Option<String>,
    /// The call's duration, already rendered for display.
    pub duration: String,
    pub return_preview: Option<String>,
    pub return_type: Option<String>,
    /// The JSON text of the `returnValue` field.
    pub return_value: Option<String>,
    pub error_preview: Option<String>,
}

/// A message of the runtime on the checkpoint channel.
pub struct CheckpointMessage {
    /// The `type` field, when it is a string.
    pub kind: Option<String>,
    /// The `id` field, when it is an unsigned integer.
    pub id: Option<u64>,
    pub payload: Option<CheckpointPayload>,
}

/// What handling a checkpoint message did.
#[derive(Debug, Clone, Copy, PartialEq, Eq, Structural)]
pub enum CheckpointEffect {
    /// Nothing changed but, perhaps, the log.
    Ignored,
    /// A new checkpoint waits to be answered.
    Paused,
    /// A call finished; its duration and memory use belong in the profile
    /// unless the call was skipped.
    Completed { record_profile: bool },
}

pub open spec fn name_or_unknown(n: Option<String>) -> Seq<char> {
    match n {
        Some(x) => x@,
        None => "unknown"@,
    }
}

pub open spec fn kind_or_checkpoint(k: Option<String>) -> Seq<char> {
    match k {
        Some(x) => x@,
        None => "checkpoint"@,
    }
}

pub open spec fn status_or_ok(k: Option<String>) -> Seq<char> {
    match k {
        Some(x) => x@,
        None => "ok"@,
    }
}

/// The stack depth a payload reports, cut to 32 bits as the cast does.
pub open spec fn depth_of(p: CheckpointPayload) -> u32 {
    match p.stack_depth {
        Some(d) => (d % 4294967296) as u32,
        None => 0,
    }
}

/// `names` holds `name`.
pub open spec fn has_name(names: Seq<String>, name: Seq<char>) -> bool {
    exists|i: int| 0 <= i < names.len() && #[trigger] names[i]@ == name
}

/// `i` is the first position of the timeline with checkpoint `id`.
pub open spec fn first_with_id(s: Seq<TimelineFunction>, id: u64, i: int) -> bool {
    &&& 0 <= i < s.len()
    &&& s[i].checkpoint_id == id
    &&& forall|j: int| 0 <= j < i ==> s[j].checkpoint_id != id
}

pub open spec fn has_id(s: Seq<TimelineFunction>, id: u64) -> bool {
    exists|i: int| 0 <= i < s.len() && s[i].checkpoint_id == id
}

pub open spec fn index_of_id(s: Seq<TimelineFunction>, id: u64) -> int {
    choose|i: int| first_with_id(s, id, i)
}

/// `i` is the first position of the timeline with a call of `name`.
pub open spec fn first_with_name(s: Seq<TimelineFunction>, name: Seq<char>, i: int) -> bool {
    &&& 0 <= i < s.len()
    &&& s[i].name@ == name
    &&& forall|j: int| 0 <= j < i ==> s[j].name@ != name
}

pub open spec fn has_call_named(s: Seq<TimelineFunction>, name: Seq<char>) -> bool {
    exists|i: int| 0 <= i < s.len() && s[i].name@ == name
}

pub open spec fn index_of_name(s: Seq<TimelineFunction>, name: Seq<char>) -> int {
    choose|i: int| first_with_name(s, name, i)
}

/// The timeline with the status of entry `i` replaced.
pub open spec fn with_status(s: Seq<TimelineFunction>, i: int, status: FunctionStatus) -> Seq<TimelineFunction> {
    s.update(i, TimelineFunction { status, ..s[i] })
}

/// The timeline with the first entry of checkpoint `id` (if any) set to
/// `status`.
pub open spec fn mark_id(s: Seq<TimelineFunction>, id: u64, status: FunctionStatus) -> Seq<TimelineFunction> {
    if has_id(s, id) { with_status(s, index_of_id(s, id), status) } else { s }
}

/// The timeline with the first call of `name` (if any) set to `status`.
pub open spec fn mark_name(s: Seq<TimelineFunction>, name: Seq<char>, status: FunctionStatus) -> Seq<TimelineFunction> {
    if has_call_named(s, name) { with_status(s, index_of_name(s, name), status) } else { s }
}

/// The status of a call after its completion is reported with `status`.
pub open spec fn status_after_completion(old_status: FunctionStatus, status: Seq<char>) -> FunctionStatus {
    if status == "ok"@ {
        if old_status == FunctionStatus::Skipped { FunctionStatus::Skipped } else { FunctionStatus::Completed }
    } else if status == "error"@ {
        FunctionStatus::Failed
    } else {
        old_status
    }
}

/// A timeline entry once its completion is reported.
pub open spec fn completed_entry(f: TimelineFunction, p: CheckpointPayload) -> TimelineFunction {
    TimelineFunction {
        duration: Some(p.duration),
        return_preview: p.return_preview,
        return_type: p.return_type,
        return_value: p.return_value,
        error_preview: p.error_preview,
        status: status_after_completion(f.status, status_or_ok(p.status)),
        ..f
    }
}

/// What reporting a completion adds to the log.
pub open spec fn completion_msgs(p: CheckpointPayload) -> Seq<Seq<char>> {
    let st = status_or_ok(p.status);
    let name = name_or_unknown(p.function_name);
    if st == "ok"@ {
        match p.return_preview {
            Some(r) => seq!["← "@ + name + " returned "@ + truncated(r@, 60)],
            None => Seq::empty(),
        }
    } else if st == "error"@ {
        match p.error_preview {
            Some(e) => seq!["✗ "@ + name + " threw "@ + truncated(e@, 60)],
            None => Seq::empty(),
        }
    } else {
        Seq::empty()
    }
}

/// The current-call fields show the oldest waiting checkpoint of `after`,
/// or, when none waits, that the program runs.
pub open spec fn queue_head_shown(before: DashboardState, after: DashboardState) -> bool {
    if after.pending_checkpoints@.len() == 0 {
        &&& !after.paused
        &&& after.status@ == "Running"@
        &&& after.current_function is None
        &&& after.stack_depth == 0
        &&& after.called_by is None
    } else {
        &&& after.paused == before.paused
        &&& after.status == before.status
        &&& after.current_function matches Some(f) && f@ == after.pending_checkpoints@[0].function_name@
        &&& after.stack_depth == after.pending_checkpoints@[0].stack_depth
        &&& after.called_by == after.pending_checkpoints@[0].caller_name
    }
}

/// `after` equals `before` but for the log, the queue and the fields that
/// show the current call.
pub open spec fn same_but_queue(before: DashboardState, after: DashboardState) -> bool {
    after == (DashboardState {
        logs: after.logs,
        log_scroll_offset: after.log_scroll_offset,
        pending_checkpoints: after.pending_checkpoints,
        timeline_functions: after.timeline_functions,
        paused: after.paused,
        status: after.status,
        current_function: after.current_function,
        stack_depth: after.stack_depth,
        called_by: after.called_by,
        ..before
    })
}

fn clone_text(o: &Option<String>) -> (r: Option<String>)
    ensures
        r == *o,
{
    match o {
        Some(s) => Some(s.clone()),
        None => None,
    }
}

/// The first entry of checkpoint `id`, if the timeline has one.
fn find_id(v: &Vec<TimelineFunction>, id: u64) -> (r: Option<usize>)
    ensures
        r matches Some(i) ==> first_with_id(v@, id, i as int),
        r is None ==> !has_id(v@, id),
{
    let mut i: usize = 0;
    while i < v.len()
        invariant
            i <= v@.len(),
            forall|j: int| 0 <= j < i ==> v@[j].checkpoint_id != id,
        decreases v.len() - i,
    {
        if v[i].checkpoint_id == id {
            return Some(i);
        }
        i += 1;
    }
    None
}

/// The first call of `name`, if the timeline has one.
fn find_name(v: &Vec<TimelineFunction>, name: &str) -> (r: Option<usize>)
    ensures
        r matches Some(i) ==> first_with_name(v@, name@, i as int),
        r is None ==> !has_call_named(v@, name@),
{
    let mut i: usize = 0;
    while i < v.len()
        invariant
            i <= v@.len(),
            forall|j: int| 0 <= j < i ==> v@[j].name@ != name@,
        decreases v.len() - i,
    {
        if same_text(v[i].name.as_str(), name) {
            return Some(i);
        }
        i += 1;
    }
    None
}

proof fn lemma_first_with_id_unique(s: Seq<TimelineFunction>, id: u64, i: int)
    requires
        first_with_id(s, id, i),
    ensures
        has_id(s, id),
        index_of_id(s, id) == i,
{
    let k = index_of_id(s, id);
    assert(first_with_id(s, id, k));
    if k < i {
        assert(s[k].checkpoint_id != id);
    }
    if i < k {
        assert(s[i].checkpoint_id != id);
    }
}

proof fn lemma_first_with_name_unique(s: Seq<TimelineFunction>, name: Seq<char>, i: int)
    requires
        first_with_name(s, name, i),
    ensures
        has_call_named(s, name),
        index_of_name(s, name) == i,
{
    let k = index_of_name(s, name);
    assert(first_with_name(s, name, k));
    if k < i {
        assert(s[k].name@ != name);
    }
    if i < k {
        assert(s[i].name@ != name);
    }
}

impl DashboardState {
    /// Sets the status of entry `i` of the timeline.
    fn set_timeline_status(&mut self, i: usize, status: FunctionStatus)
        requires
            i < old(self).timeline_functions@.len(),
        ensures
            final(self).timeline_functions@ == with_status(old(self).timeline_functions@, i as int, status),
            *final(self) == (DashboardState { timeline_functions: final(self).timeline_functions, ..*old(self) }),
    {
        let mut f = self.timeline_functions.remove(i);
        f.status = status;
        self.timeline_functions.insert(i, f);
        assert(self.timeline_functions@ =~= with_status(old(self).timeline_functions@, i as int, status));
    }

    /// Records the reported completion in entry `i` of the timeline.
    fn complete_entry(&mut self, i: usize, payload: CheckpointPayload)
        requires
            i < old(self).timeline_functions@.len(),
        ensures
            final(self).timeline_functions@ == old(self).timeline_functions@.update(i as int,
                completed_entry(old(self).timeline_functions@[i as int], payload)),
            *final(self) == (DashboardState { timeline_functions: final(self).timeline_functions, ..*old(self) }),
    {
        let is_ok = match &payload.status {
            Some(s) => same_text(s.as_str(), "ok"),
            None => true,
        };
        let is_error = match &payload.status {
            Some(s) => same_text(s.as_str(), "error"),
            None => false,
        };
        proof {
            assert("ok"@ != "error"@) by {
                reveal_strlit("ok");
                reveal_strlit("error");
                assert("ok"@.len() != "error"@.len());
            }
        }
        let ghost p = payload;
        let mut f = self.timeline_functions.remove(i);
        f.duration = Some(payload.duration);
        f.return_preview = payload.return_preview;
        f.return_type = payload.return_type;
        f.return_value = payload.return_value;
        f.error_preview = payload.error_preview;
        if is_ok {
            if f.status != FunctionStatus::Skipped {
                f.status = FunctionStatus::Completed;
            }
        } else if is_error {
            f.status = FunctionStatus::Failed;
        }
        self.timeline_functions.insert(i, f);
        assert(self.timeline_functions@ =~= old(self).timeline_functions@.update(i as int,
            completed_entry(old(self).timeline_functions@[i as int], p)));
    }

    /// Marks the first entry of checkpoint `id`, if any.
    fn mark_checkpoint(&mut self, id: u64, status: FunctionStatus)
        ensures
            final(self).timeline_functions@ == mark_id(old(self).timeline_functions@, id, status),
            *final(self) == (DashboardState { timeline_functions: final(self).timeline_functions, ..*old(self) }),
    {
        match find_id(&self.timeline_functions, id) {
            Some(i) => {
                proof { lemma_first_with_id_unique(self.timeline_functions@, id, i as int); }
                self.set_timeline_status(i, status);
            },
            None => {
                assert(self.timeline_functions@ == mark_id(old(self).timeline_functions@, id, status));
            },
        }
    }

    /// Shows the oldest waiting checkpoint in the current-call fields, or that
    /// the program runs when none waits.
    fn show_queue_head(&mut self)
        ensures
            queue_head_shown(*old(self), *final(self)),
            *final(self) == (DashboardState {
                paused: final(self).paused,
                status: final(self).status,
                current_function: final(self).current_function,
                stack_depth: final(self).stack_depth,
                called_by: final(self).called_by,
                ..*old(self)
            }),
    {
        if self.pending_checkpoints.len() == 0 {
            self.paused = false;
            self.status = String::from_str("Running");
            self.current_function = None;
            self.stack_depth = 0;
            self.called_by = None;
        } else {
            let name = self.pending_checkpoints[0].function_name.clone();
            let depth = self.pending_checkpoints[0].stack_depth;
            let caller = clone_text(&self.pending_checkpoints[0].caller_name);
            self.current_function = Some(name);
            self.stack_depth = depth;
            self.called_by = caller;
        }
    }

    /// Applies a message of the checkpoint channel: a `checkpoint` message
    /// (the default type) pauses at a new checkpoint, a
    /// `checkpoint_complete` message finishes a call; any other type is
    /// logged as unknown.
    pub fn handle_checkpoint_message(&mut self, message: CheckpointMessage) -> (effect: CheckpointEffect)
        ensures
            kind_or_checkpoint(message.kind) == "checkpoint"@ ==> match message.payload {
                Some(p) => effect == CheckpointEffect::Paused
                    && paused_at(*old(self), *final(self), id_or_zero(message.id), p),
                None => effect == CheckpointEffect::Ignored && *final(self) == *old(self),
            },
            kind_or_checkpoint(message.kind) == "checkpoint_complete"@ ==> match message.payload {
                Some(p) => completed(*old(self), *final(self), id_or_zero(message.id), p, effect),
                None => effect == CheckpointEffect::Ignored && *final(self) == *old(self),
            },
            kind_or_checkpoint(message.kind) != "checkpoint"@
                && kind_or_checkpoint(message.kind) != "checkpoint_complete"@ ==> {
                &&& effect == CheckpointEffect::Ignored
                &&& logged(*old(self), *final(self),
                    seq!["Unknown checkpoint message type: "@ + kind_or_checkpoint(message.kind)])
                &&& same_but_logs(*old(self), *final(self))
            },
    {
        assert("checkpoint"@ != "checkpoint_complete"@) by {
            reveal_strlit("checkpoint");
            reveal_strlit("checkpoint_complete");
            assert("checkpoint"@.len() != "checkpoint_complete"@.len());
        }
        let id = match message.id { Some(i) => i, None => 0 };
        let kind = match &message.kind {
            Some(k) => k.clone(),
            None => String::from_str("checkpoint"),
        };
        if same_text(kind.as_str(), "checkpoint") {
            match message.payload {
                Some(p) => {
                    self.handle_checkpoint_pause(id, p);
                    CheckpointEffect::Paused
                },
                None => CheckpointEffect::Ignored,
            }
        } else if same_text(kind.as_str(), "checkpoint_complete") {
            match message.payload {
                Some(p) => self.handle_checkpoint_complete(id, p),
                None => CheckpointEffect::Ignored,
            }
        } else {
            self.add_log(concat("Unknown checkpoint message type: ", kind.as_str()));
            CheckpointEffect::Ignored
        }
    }

    /// Pauses at a new checkpoint: it joins the queue (and, when it is the
    /// only one, becomes the current call) and the timeline, as pending.
    pub fn handle_checkpoint_pause(&mut self, id: u64, payload: CheckpointPayload)
        ensures
            paused_at(*old(self), *final(self), id, payload),
    {
        let name = match &payload.function_name {
            Some(n) => n.clone(),
            None => String::from_str("unknown"),
        };
        let args = match payload.args {
            Some(a) => a,
            None => String::from_str("[]"),
        };
        let depth: u32 = match payload.stack_depth {
            Some(d) => (d % 4294967296) as u32,
            None => 0,
        };
        let caller = clone_text(&payload.caller_name);
        let promoted = contains_name(&self.promoted_functions, name.as_str());
        self.add_log(concat("Checkpoint: ", name.as_str()));
        let ghost logged_state = *self;
        self.pending_checkpoints.push(CheckpointData {
            id,
            function_name: name.clone(),
            args,
            context: payload.context,
            stack_depth: depth,
            caller_name: payload.caller_name,
        });
        if self.pending_checkpoints.len() == 1 {
            self.current_function = Some(name.clone());
            self.paused = true;
            self.status = String::from_str("Paused");
            self.stack_depth = depth;
            self.called_by = caller;
        }
        self.timeline_functions.push(TimelineFunction {
            name,
            status: FunctionStatus::Pending,
            duration: None,
            checkpoint_id: id,
            return_preview: None,
            return_type: None,
            return_value: None,
            error_preview: None,
            is_promoted: promoted,
            stack_depth: depth,
        });
        self.scroll_timeline_to_bottom();
        proof {
            assert(self.pending_checkpoints@.drop_last() =~= old(self).pending_checkpoints@);
            assert(self.timeline_functions@.drop_last() =~= old(self).timeline_functions@);
        }
    }

    /// Finishes a call: its timeline entry (if any) gets the duration, the
    /// returned value or error and its final status, and the result is
    /// logged.
    pub fn handle_checkpoint_complete(&mut self, id: u64, payload: CheckpointPayload) -> (effect: CheckpointEffect)
        ensures
            completed(*old(self), *final(self), id, payload, effect),
    {
        let found = find_id(&self.timeline_functions, id);
        let was_skipped = match found {
            Some(i) => self.timeline_functions[i].status == FunctionStatus::Skipped,
            None => false,
        };
        proof {
            if let Some(i) = found {
                lemma_first_with_id_unique(self.timeline_functions@, id, i as int);
            }
        }
        let msgs = completion_messages(&payload);
        match found {
            Some(i) => { self.complete_entry(i, payload); },
            None => {},
        }
        self.add_logs(msgs);
        CheckpointEffect::Completed { record_profile: !was_skipped }
    }
}

/// What reporting a completion with `p` adds to the log.
fn completion_messages(p: &CheckpointPayload) -> (msgs: Vec<String>)
    ensures
        texts(msgs@) == completion_msgs(*p),
        msgs@.len() <= 1,
{
    let name = match &p.function_name {
        Some(n) => n.clone(),
        None => String::from_str("unknown"),
    };
    let is_ok = match &p.status {
        Some(s) => same_text(s.as_str(), "ok"),
        None => true,
    };
    let is_error = match &p.status {
        Some(s) => same_text(s.as_str(), "error"),
        None => false,
    };
    let mut msgs: Vec<String> = Vec::new();
    if is_ok {
        match &p.return_preview {
            Some(r) => {
                let mut line = concat("← ", name.as_str());
                append(&mut line, " returned ");
                let t = truncate(r.as_str(), 60);
                append(&mut line, t.as_str());
                msgs.push(line);
            },
            None => {},
        }
    } else if is_error {
        match &p.error_preview {
            Some(e) => {
                let mut line = concat("✗ ", name.as_str());
                append(&mut line, " threw ");
                let t = truncate(e.as_str(), 60);
                append(&mut line, t.as_str());
                msgs.push(line);
            },
            None => {},
        }
    }
    assert(texts(msgs@) =~= completion_msgs(*p));
    msgs
}

pub open spec fn id_or_zero(id: Option<u64>) -> u64 {
    match id {
        Some(i) => i,
        None => 0,
    }
}

/// `after` is `before` paused at checkpoint `id` reported with `p`.
pub open spec fn paused_at(before: DashboardState, after: DashboardState, id: u64, p: CheckpointPayload) -> bool {
    let name = name_or_unknown(p.function_name);
    let n = before.pending_checkpoints@.len();
    let t = before.timeline_functions@.len();
    &&& logged(before, after, seq!["Checkpoint: "@ + name])
    &&& after.pending_checkpoints@.len() == n + 1
    &&& after.pending_checkpoints@.drop_last() == before.pending_checkpoints@
    &&& after.pending_checkpoints@[n as int].id == id
    &&& after.pending_checkpoints@[n as int].function_name@ == name
    &&& after.pending_checkpoints@[n as int].args@ == (match p.args { Some(a) => a@, None => "[]"@ })
    &&& after.pending_checkpoints@[n as int].context == p.context
    &&& after.pending_checkpoints@[n as int].stack_depth == depth_of(p)
    &&& after.pending_checkpoints@[n as int].caller_name == p.caller_name
    &&& after.timeline_functions@.len() == t + 1
    &&& after.timeline_functions@.drop_last() == before.timeline_functions@
    &&& after.timeline_functions@[t as int].name@ == name
    &&& after.timeline_functions@[t as int].status == FunctionStatus::Pending
    &&& after.timeline_functions@[t as int].duration is None
    &&& after.timeline_functions@[t as int].checkpoint_id == id
    &&& after.timeline_functions@[t as int].return_preview is None
    &&& after.timeline_functions@[t as int].return_type is None
    &&& after.timeline_functions@[t as int].return_value is None
    &&& after.timeline_functions@[t as int].error_preview is None
    &&& after.timeline_functions@[t as int].is_promoted == has_name(before.promoted_functions@, name)
    &&& after.timeline_functions@[t as int].stack_depth == depth_of(p)
    &&& after.timeline_scroll_offset == sat_sub((t + 1) as int, before.timeline_visible_height as int)
    &&& if n == 0 {
        &&& after.current_function matches Some(f) && f@ == name
        &&& after.paused
        &&& after.status@ == "Paused"@
        &&& after.stack_depth == depth_of(p)
        &&& after.called_by == p.caller_name
    } else {
        &&& after.current_function == before.current_function
        &&& after.paused == before.paused
        &&& after.status == before.status
        &&& after.stack_depth == before.stack_depth
        &&& after.called_by == before.called_by
    }
    &&& after == (DashboardState {
        logs: after.logs,
        log_scroll_offset: after.log_scroll_offset,
        pending_checkpoints: after.pending_checkpoints,
        timeline_functions: after.timeline_functions,
        timeline_scroll_offset: after.timeline_scroll_offset,
        current_function: after.current_function,
        paused: after.paused,
        status: after.status,
        stack_depth: after.stack_depth,
        called_by: after.called_by,
        ..before
    })
}

/// `after` is `before` once the call of checkpoint `id` reported its
/// completion with `p`; `effect` says whether it belongs in the profile.
pub open spec fn completed(before: DashboardState, after: DashboardState, id: u64, p: CheckpointPayload,
    effect: CheckpointEffect) -> bool {
    let tl = before.timeline_functions@;
    let was_skipped = has_id(tl, id) && tl[index_of_id(tl, id)].status == FunctionStatus::Skipped;
    &&& effect == (CheckpointEffect::Completed { record_profile: !was_skipped })
    &&& after.timeline_functions@ == (if has_id(tl, id) {
        tl.update(index_of_id(tl, id), completed_entry(tl[index_of_id(tl, id)], p))
    } else {
        tl
    })
    &&& logged(before, after, completion_msgs(p))
    &&& after == (DashboardState {
        logs: after.logs,
        log_scroll_offset: after.log_scroll_offset,
        timeline_functions: after.timeline_functions,
        ..before
    })
}


// ---------------------------------------------------------------------------
// Answering checkpoints
// ---------------------------------------------------------------------------

/// How a waiting checkpoint is answered.
#[derive(Debug)]
pub enum ResponseAction {
    /// Run the call as it is.
    Continue,
    /// Do not run the call; it returns the given JSON value.
    Skip(String),
    /// Run the call with the given JSON array of arguments.
    ContinueWithArgs(String),
}

/// An answer to send to the runtime for one checkpoint.
#[derive(Debug)]
pub struct CheckpointResponse {
    pub id: u64,
    pub function_name: String,
    pub action: ResponseAction,
}

/// `r` answers checkpoint `c`.
pub open spec fn answers(r: CheckpointResponse, c: CheckpointData) -> bool {
    r.id == c.id && r.function_name@ == c.function_name@
}

/// `after` is `before` with the oldest waiting checkpoint taken out of the
/// queue and `msgs` logged; nothing else changed.
pub open spec fn answer_taken(before: DashboardState, after: DashboardState, msgs: Seq<Seq<char>>) -> bool {
    &&& before.pending_checkpoints@.len() > 0
    &&& after.pending_checkpoints@ == before.pending_checkpoints@.drop_first()
    &&& logged(before, after, msgs)
    &&& after == (DashboardState {
        logs: after.logs,
        log_scroll_offset: after.log_scroll_offset,
        pending_checkpoints: after.pending_checkpoints,
        ..before
    })
}

/// `after` is `before` once a call of `name` was skipped: its first entry on
/// the timeline is marked skipped, the skip is logged, and the current-call
/// fields move on to the next waiting checkpoint.
pub open spec fn skip_done(before: DashboardState, after: DashboardState, name: Seq<char>) -> bool {
    &&& after.pending_checkpoints == before.pending_checkpoints
    &&& after.timeline_functions@ == mark_name(before.timeline_functions@, name, FunctionStatus::Skipped)
    &&& logged(before, after, seq!["⊘ "@ + name + " skipped"@])
    &&& queue_head_shown(before, after)
    &&& same_but_queue(before, after)
}

/// `after` is `before` once the oldest waiting checkpoint was answered with
/// a `continue`-like action: its timeline entry is marked completed, `msgs`
/// logged, and the current-call fields move on.
pub open spec fn answer_done(before: DashboardState, after: DashboardState, id: u64, msgs: Seq<Seq<char>>) -> bool {
    &&& after.pending_checkpoints == before.pending_checkpoints
    &&& after.timeline_functions@ == mark_id(before.timeline_functions@, id, FunctionStatus::Completed)
    &&& logged(before, after, msgs)
    &&& queue_head_shown(before, after)
    &&& same_but_queue(before, after)
}

/// What skipping the oldest waiting checkpoint with the JSON `value` does:
/// with a runtime attached, the checkpoint leaves the queue and an answer is
/// handed out to be sent; without one, the skip takes effect at once.
pub open spec fn skipped(before: DashboardState, after: DashboardState, value: Seq<char>, r: Option<CheckpointResponse>) -> bool {
    if before.pending_checkpoints@.len() == 0 {
        r is None && after == before
    } else {
        let c = before.pending_checkpoints@[0];
        if before.runtime_attached {
            &&& r matches Some(x) && answers(x, c) && (x.action matches ResponseAction::Skip(v) && v@ == value)
            &&& answer_taken(before, after, Seq::empty())
        } else {
            &&& r is None
            &&& after.pending_checkpoints@ == before.pending_checkpoints@.drop_first()
            &&& skip_done(DashboardState { pending_checkpoints: after.pending_checkpoints, ..before }, after,
                c.function_name@)
        }
    }
}

/// What continuing the oldest waiting checkpoint does: it leaves the queue,
/// `msg` is logged when verbose, and an answer is handed out when a runtime
/// is attached. `args` is the new argument list, if any.
pub open spec fn continued(before: DashboardState, after: DashboardState, msg: Seq<char>, args: Option<Seq<char>>,
    r: Option<CheckpointResponse>) -> bool {
    if before.pending_checkpoints@.len() == 0 {
        r is None && after == before
    } else {
        let c = before.pending_checkpoints@[0];
        &&& answer_taken(before, after, verbose_msgs(before.verbose, seq![msg + decimal(c.id as nat)]))
        &&& (r is Some <==> before.runtime_attached)
        &&& r matches Some(x) ==> answers(x, c) && match args {
            None => x.action matches ResponseAction::Continue,
            Some(a) => x.action matches ResponseAction::ContinueWithArgs(v) && v@ == a,
        }
    }
}

/// The answer the user gives with the skip popup's text: an empty text
/// skips with `null`, valid JSON skips with that value and closes the popup;
/// invalid JSON is reported and the popup stays.
pub open spec fn skip_input_applied(before: DashboardState, after: DashboardState, trimmed: Seq<char>,
    parsed: Result<Option<usize>, Seq<char>>, r: Option<CheckpointResponse>) -> bool {
    if trimmed.len() == 0 {
        !after.show_skip_popup && skipped(before, DashboardState { show_skip_popup: before.show_skip_popup, ..after }, "null"@, r)
    } else {
        match parsed {
            Err(e) => r is None && logged(before, after, seq!["ERROR: Invalid JSON, skip aborted: "@ + e])
                && same_but_logs(before, after),
            Ok(_) => !after.show_skip_popup
                && skipped(before, DashboardState { show_skip_popup: before.show_skip_popup, ..after }, trimmed, r),
        }
    }
}

/// The answer the user gives with the edit popup's text: a JSON array
/// continues the call with those arguments and closes the popup; an empty
/// text, invalid JSON or another value is reported and the popup stays.
pub open spec fn edit_input_applied(before: DashboardState, after: DashboardState, trimmed: Seq<char>,
    parsed: Result<Option<usize>, Seq<char>>, r: Option<CheckpointResponse>) -> bool {
    if trimmed.len() == 0 {
        r is None && logged(before, after, seq!["ERROR: Args cannot be empty"@]) && same_but_logs(before, after)
    } else {
        match parsed {
            Err(e) => r is None && logged(before, after, seq!["ERROR: Invalid JSON, edit aborted: "@ + e])
                && same_but_logs(before, after),
            Ok(None) => r is None && logged(before, after, seq!["ERROR: Args must be a JSON array"@])
                && same_but_logs(before, after),
            Ok(Some(_)) => !after.show_edit_popup && continued(before,
                DashboardState { show_edit_popup: before.show_edit_popup, ..after },
                "→ Sending continue_with_args for checkpoint ID "@, Some(trimmed), r),
        }
    }
}

/// What the outcome of sending an answer does.
pub open spec fn response_applied(before: DashboardState, after: DashboardState, r: CheckpointResponse,
    outcome: Result<(), Seq<char>>) -> bool {
    match r.action {
        ResponseAction::Continue => match outcome {
            Err(e) => logged(before, after, seq!["ERROR: Failed to send continue: "@ + e]) && same_but_logs(before, after),
            Ok(_) => answer_done(before, after, r.id, verbose_msgs(before.verbose,
                seq!["Continue response sent successfully"@, "Execution continued"@])),
        },
        ResponseAction::ContinueWithArgs(_) => match outcome {
            Err(e) => logged(before, after, seq!["ERROR: Failed to send continue_with_args: "@ + e])
                && same_but_logs(before, after),
            Ok(_) => answer_done(before, after, r.id, verbose_msgs(before.verbose,
                seq!["Execution continued with edited args"@])),
        },
        ResponseAction::Skip(_) => match outcome {
            Err(e) => logged(before, after, seq!["ERROR: Failed to send skip response: "@ + e])
                && same_but_logs(before, after),
            Ok(_) => skip_done(before, after, r.function_name@),
        },
    }
}

pub open spec fn outcome_text(o: Result<(), String>) -> Result<(), Seq<char>> {
    match o {
        Ok(_) => Ok(()),
        Err(e) => Err(e@),
    }
}

impl DashboardState {
    /// Takes the oldest waiting checkpoint out of the queue and logs `msg`
    /// followed by its id when verbose; hands out an answer when a runtime is
    /// attached.
    fn take_for_answer(&mut self, msg: &str, args: Option<String>) -> (r: Option<CheckpointResponse>)
        requires
            old(self).pending_checkpoints@.len() > 0,
        ensures
            continued(*old(self), *final(self), msg@, match args { Some(a) => Some(a@), None => None }, r),
    {
        let c = self.pending_checkpoints.remove(0);
        let id_text = decimal_string(c.id);
        let line = concat(msg, id_text.as_str());
        let ghost popped = *self;
        self.add_log_verbose(line);
        if !self.runtime_attached {
            return None;
        }
        let action = match args {
            Some(a) => ResponseAction::ContinueWithArgs(a),
            None => ResponseAction::Continue,
        };
        Some(CheckpointResponse { id: c.id, function_name: c.function_name, action })
    }

    /// Lets the oldest waiting checkpoint run as it is.
    pub fn continue_execution(&mut self) -> (r: Option<CheckpointResponse>)
        ensures
            continued(*old(self), *final(self), "→ Sending continue response for checkpoint ID "@, None, r),
    {
        if self.pending_checkpoints.len() == 0 {
            return None;
        }
        self.take_for_answer("→ Sending continue response for checkpoint ID ", None)
    }

    /// Lets the oldest waiting checkpoint run with `new_args`, the JSON text
    /// of an array.
    pub fn continue_with_args(&mut self, new_args: String) -> (r: Option<CheckpointResponse>)
        ensures
            continued(*old(self), *final(self), "→ Sending continue_with_args for checkpoint ID "@, Some(new_args@), r),
    {
        if self.pending_checkpoints.len() == 0 {
            return None;
        }
        self.take_for_answer("→ Sending continue_with_args for checkpoint ID ", Some(new_args))
    }

    /// Records that a call of `name` was skipped.
    fn finish_skip(&mut self, name: &str)
        ensures
            skip_done(*old(self), *final(self), name@),
    {
        match find_name(&self.timeline_functions, name) {
            Some(i) => {
                proof { lemma_first_with_name_unique(self.timeline_functions@, name@, i as int); }
                self.set_timeline_status(i, FunctionStatus::Skipped);
            },
            None => {},
        }
        let mut line = concat("⊘ ", name);
        append(&mut line, " skipped");
        self.add_log(line);
        self.show_queue_head();
    }

    /// Skips the oldest waiting checkpoint; the call returns `return_value`,
    /// a JSON text.
    pub fn skip_function(&mut self, return_value: String) -> (r: Option<CheckpointResponse>)
        ensures
            skipped(*old(self), *final(self), return_value@, r),
    {
        if self.pending_checkpoints.len() == 0 {
            return None;
        }
        let c = self.pending_checkpoints.remove(0);
        if self.runtime_attached {
            return Some(CheckpointResponse { id: c.id, function_name: c.function_name, action: ResponseAction::Skip(return_value) });
        }
        self.finish_skip(c.function_name.as_str());
        None
    }

    /// Applies the outcome of sending the answer `response`.
    pub fn response_sent(&mut self, response: CheckpointResponse, outcome: Result<(), String>)
        ensures
            response_applied(*old(self), *final(self), response, outcome_text(outcome)),
    {
        match response.action {
            ResponseAction::Continue => match outcome {
                Err(e) => { self.add_log(concat("ERROR: Failed to send continue: ", e.as_str())); },
                Ok(()) => {
                    let ghost s0 = *self;
                    self.add_log_verbose(String::from_str("Continue response sent successfully"));
                    let ghost s1 = *self;
                    self.mark_checkpoint(response.id, FunctionStatus::Completed);
                    self.show_queue_head();
                    let ghost s2 = *self;
                    self.add_log_verbose(String::from_str("Execution continued"));
                    proof {
                        let m1 = verbose_msgs(s0.verbose, seq!["Continue response sent successfully"@]);
                        let m2 = verbose_msgs(s0.verbose, seq!["Execution continued"@]);
                        assert(logged(s1, s2, Seq::empty())) by {
                            assert(s2.logs@.subrange(0, s2.logs@.len() as int) =~= s2.logs@);
                        }
                        lemma_logged_compose(s0, s1, s2, m1, Seq::empty());
                        assert(m1 + Seq::empty() =~= m1);
                        lemma_logged_compose(s0, s2, *self, m1, m2);
                        assert(m1 + m2 =~= verbose_msgs(s0.verbose,
                            seq!["Continue response sent successfully"@, "Execution continued"@]));
                    }
                },
            },
            ResponseAction::ContinueWithArgs(_) => match outcome {
                Err(e) => { self.add_log(concat("ERROR: Failed to send continue_with_args: ", e.as_str())); },
                Ok(()) => {
                    let ghost s0 = *self;
                    self.mark_checkpoint(response.id, FunctionStatus::Completed);
                    self.show_queue_head();
                    let ghost s1 = *self;
                    self.add_log_verbose(String::from_str("Execution continued with edited args"));
                    proof {
                        assert(logged(s0, s1, Seq::empty())) by {
                            assert(s1.logs@.subrange(0, s1.logs@.len() as int) =~= s1.logs@);
                        }
                        let m = verbose_msgs(s0.verbose, seq!["Execution continued with edited args"@]);
                        lemma_logged_compose(s0, s1, *self, Seq::empty(), m);
                        assert(Seq::<Seq<char>>::empty() + m =~= m);
                    }
                },
            },
            ResponseAction::Skip(_) => match outcome {
                Err(e) => { self.add_log(concat("ERROR: Failed to send skip response: ", e.as_str())); },
                Ok(()) => { self.finish_skip(response.function_name.as_str()); },
            },
        }
    }

    /// Applies the skip popup's text, already trimmed, and what parsing it as
    /// JSON gave (ignored when the text is empty).
    pub fn apply_skip_input(&mut self, trimmed: String, parsed: Result<Option<usize>, String>) -> (r: Option<CheckpointResponse>)
        ensures
            skip_input_applied(*old(self), *final(self), trimmed@, outcome_json(parsed), r),
    {
        if trimmed.unicode_len() == 0 {
            let r = self.skip_function(String::from_str("null"));
            self.close_skip_popup();
            return r;
        }
        match parsed {
            Err(e) => {
                self.add_log(concat("ERROR: Invalid JSON, skip aborted: ", e.as_str()));
                None
            },
            Ok(_) => {
                let r = self.skip_function(trimmed);
                self.close_skip_popup();
                r
            },
        }
    }

    /// Skips the oldest waiting checkpoint with the value written in the
    /// skip popup.
    pub fn skip_with_textarea_value(&mut self, text: &str) -> (r: Option<CheckpointResponse>)
        ensures
            skip_input_applied(*old(self), *final(self), trimmed(text@), json_parse_outcome(trimmed(text@)), r),
    {
        let t = trim(text);
        let parsed = if t.unicode_len() == 0 { Ok(None) } else { parse_json(t.as_str()) };
        proof {
            if t@.len() > 0 {
                assert(outcome_json(parsed) == json_parse_outcome(t@));
            }
        }
        self.apply_skip_input(t, parsed)
    }

    /// Applies the edit popup's text, already trimmed, and what parsing it as
    /// JSON gave (ignored when the text is empty).
    pub fn apply_edited_args(&mut self, trimmed: String, parsed: Result<Option<usize>, String>) -> (r: Option<CheckpointResponse>)
        ensures
            edit_input_applied(*old(self), *final(self), trimmed@, outcome_json(parsed), r),
    {
        if trimmed.unicode_len() == 0 {
            self.add_log(String::from_str("ERROR: Args cannot be empty"));
            return None;
        }
        match parsed {
            Err(e) => {
                self.add_log(concat("ERROR: Invalid JSON, edit aborted: ", e.as_str()));
                None
            },
            Ok(None) => {
                self.add_log(String::from_str("ERROR: Args must be a JSON array"));
                None
            },
            Ok(Some(_)) => {
                let r = self.continue_with_args(trimmed);
                self.close_edit_popup();
                r
            },
        }
    }

    /// Continues the oldest waiting checkpoint with the arguments written in
    /// the edit popup.
    pub fn submit_edited_args(&mut self, text: &str) -> (r: Option<CheckpointResponse>)
        ensures
            edit_input_applied(*old(self), *final(self), trimmed(text@), json_parse_outcome(trimmed(text@)), r),
    {
        let t = trim(text);
        let parsed = if t.unicode_len() == 0 { Ok(None) } else { parse_json(t.as_str()) };
        self.apply_edited_args(t, parsed)
    }
}

pub open spec fn outcome_json(o: Result<Option<usize>, String>) -> Result<Option<usize>, Seq<char>> {
    match o {
        Ok(b) => Ok(b),
        Err(e) => Err(e@),
    }
}

// ---------------------------------------------------------------------------
// Laws
// ---------------------------------------------------------------------------

/// The log panel never holds more than its capacity: logging keeps a panel
/// within it, and the newest line is the last message logged.
pub proof fn law_log_panel_bounded(before: Seq<String>, after: Seq<String>, msgs: Seq<Seq<char>>)
    requires
        before.len() <= LOG_CAPACITY,
        log_effect(before, after, msgs),
    ensures
        after.len() <= LOG_CAPACITY,
        msgs.len() > 0 ==> is_log_line(after.last()@, msgs.last()),
{
    if msgs.len() > 0 {
        let k = msgs.len();
        assert(after[after.len() - k + (k - 1)] == after.last());
    }
}

/// Switching the focused panel twice leaves the dashboard as it was.
pub proof fn law_focus_toggle_twice(d: DashboardState)
    ensures
        focus_toggled(focus_toggled(d)) == d,
{
}

/// Scrolling down never moves past the last page, and scrolling up never
/// above the top: a position on a page stays on one.
pub proof fn law_scrolling_stays_on_page(d: DashboardState)
    requires
        d.timeline_scroll_offset <= sat_sub(d.timeline_functions@.len() as int, d.timeline_visible_height as int),
        d.log_scroll_offset <= sat_sub(d.logs@.len() as int, d.log_visible_height as int),
    ensures
        timeline_down(d).timeline_scroll_offset <= sat_sub(d.timeline_functions@.len() as int,
            d.timeline_visible_height as int),
        logs_down(d).log_scroll_offset <= sat_sub(d.logs@.len() as int, d.log_visible_height as int),
        timeline_up(d).timeline_scroll_offset <= d.timeline_scroll_offset,
        logs_up(d).log_scroll_offset <= d.log_scroll_offset,
{
}

/// Checkpoints are answered in the order they paused: a checkpoint that
/// pauses while others wait joins the end of the queue, and continuing
/// answers the oldest one, leaving the others, the new one last.
pub proof fn law_oldest_checkpoint_answered_first(a: DashboardState, b: DashboardState, c: DashboardState, id: u64,
    p: CheckpointPayload, msg: Seq<char>, args: Option<Seq<char>>, r: Option<CheckpointResponse>)
    requires
        a.pending_checkpoints@.len() > 0,
        paused_at(a, b, id, p),
        continued(b, c, msg, args, r),
    ensures
        r matches Some(x) ==> answers(x, a.pending_checkpoints@[0]),
        c.pending_checkpoints@.len() == a.pending_checkpoints@.len(),
        c.pending_checkpoints@.drop_last() == a.pending_checkpoints@.drop_first(),
        c.pending_checkpoints@.last().id == id,
{
    let n = a.pending_checkpoints@.len();
    assert(b.pending_checkpoints@[0] == a.pending_checkpoints@[0]) by {
        assert(b.pending_checkpoints@.drop_last()[0] == b.pending_checkpoints@[0]);
    }
    assert(c.pending_checkpoints@ == b.pending_checkpoints@.drop_first());
    assert(c.pending_checkpoints@.drop_last() =~= a.pending_checkpoints@.drop_first()) by {
        assert forall|i: int| 0 <= i < n - 1 implies c.pending_checkpoints@.drop_last()[i] == a.pending_checkpoints@.drop_first()[i] by {
            assert(b.pending_checkpoints@.drop_last()[i + 1] == b.pending_checkpoints@[i + 1]);
        }
    }
    assert(c.pending_checkpoints@.last() == b.pending_checkpoints@[n as int]);
}

/// A reported completion settles the timeline entry of its checkpoint (the
/// first with that id) and no other: a call reported as `error` is marked
/// failed, with the error shown, whatever it was marked before; a call
/// reported as `ok` (or without a status) is marked completed, unless it was
/// skipped, which it stays.
pub proof fn law_completion_marks_the_call(before: DashboardState, after: DashboardState, id: u64,
    p: CheckpointPayload, effect: CheckpointEffect, i: int)
    requires
        completed(before, after, id, p, effect),
        first_with_id(before.timeline_functions@, id, i),
    ensures
        after.timeline_functions@.len() == before.timeline_functions@.len(),
        after.timeline_functions@[i].checkpoint_id == id,
        after.timeline_functions@[i].name == before.timeline_functions@[i].name,
        after.timeline_functions@[i].duration == Some(p.duration),
        p.status matches Some(st) ==> (st@ == "error"@ ==> after.timeline_functions@[i].status
            == FunctionStatus::Failed && after.timeline_functions@[i].error_preview == p.error_preview),
        p.status matches Some(st) ==> (st@ == "ok"@ ==> after.timeline_functions@[i].status
            == (if before.timeline_functions@[i].status == FunctionStatus::Skipped {
                FunctionStatus::Skipped
            } else {
                FunctionStatus::Completed
            })),
        p.status is None ==> after.timeline_functions@[i].status
            == (if before.timeline_functions@[i].status == FunctionStatus::Skipped {
                FunctionStatus::Skipped
            } else {
                FunctionStatus::Completed
            }),
        forall|j: int| 0 <= j < before.timeline_functions@.len() && j != i
            ==> after.timeline_functions@[j] == before.timeline_functions@[j],
{
    lemma_first_with_id_unique(before.timeline_functions@, id, i);
    assert("ok"@ != "error"@) by {
        reveal_strlit("ok");
        reveal_strlit("error");
        assert("ok"@.len() != "error"@.len());
    }
}

} // verus!
