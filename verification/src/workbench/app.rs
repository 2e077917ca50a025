//! The workbench application: a stack of scenes over the dashboard, the
//! variable editor and the profiler, and what each key does in each scene.

use vstd::prelude::*;
use crate::tui::{is_char, KeyCode, KeyPress};
use crate::workbench::dashboard::{logged_once, DashboardState};
use crate::workbench::variable_editor::VariableEditorState;
use crate::text::concat;

verus! {

/// The screens of the workbench.
#[derive(Clone, Copy, Debug, PartialEq, Eq, Structural)]
pub enum Scene {
    Dashboard,
    VariableEditor,
    FunctionSkip,
    History,
    Profiler,
    CallStack,
    ErrorDialog,
}

/// A line a key press logs.
#[derive(Clone, Copy, Debug, PartialEq, Eq, Structural)]
pub enum Note {
    ContinueExecution,
    AppliedVariables,
    NextField,
    ResetVariables,
    SkippedWithOption,
    ContinueNormal,
    SkipOptionChanged,
    HistoryNavigation,
    GoToCheckpoint,
    Replay,
    ShowDetails,
    SaveHistory,
    ReportSaved,
    ExportCsv,
    FilterFunctions,
    NavigateStack,
    JumpToFrame,
    BreakpointSet,
    SkippedWithDefault,
    Restart,
}

pub open spec fn note_text(n: Note) -> Seq<char> {
    match n {
        Note::ContinueExecution => "Continue execution"@,
        Note::AppliedVariables => "Applied variable changes"@,
        Note::NextField => "Next field selected"@,
        Note::ResetVariables => "Reset all variables"@,
        Note::SkippedWithOption => "Function skipped with selected option"@,
        Note::ContinueNormal => "Continue normal execution"@,
        Note::SkipOptionChanged => "Skip option changed"@,
        Note::HistoryNavigation => "History navigation"@,
        Note::GoToCheckpoint => "Go to selected checkpoint"@,
        Note::Replay => "Replay from selected point"@,
        Note::ShowDetails => "Show execution details"@,
        Note::SaveHistory => "Save execution history"@,
        Note::ReportSaved => "Performance report saved"@,
        Note::ExportCsv => "Export to CSV"@,
        Note::FilterFunctions => "Filter functions"@,
        Note::NavigateStack => "Navigate call stack"@,
        Note::JumpToFrame => "Jump to selected frame"@,
        Note::BreakpointSet => "Breakpoint set"@,
        Note::SkippedWithDefault => "Function skipped with default value"@,
        Note::Restart => "Restart from last checkpoint"@,
    }
}

fn note_str(n: Note) -> (s: &'static str)
    ensures
        s@ == note_text(n),
{
    match n {
        Note::ContinueExecution => "Continue execution",
        Note::AppliedVariables => "Applied variable changes",
        Note::NextField => "Next field selected",
        Note::ResetVariables => "Reset all variables",
        Note::SkippedWithOption => "Function skipped with selected option",
        Note::ContinueNormal => "Continue normal execution",
        Note::SkipOptionChanged => "Skip option changed",
        Note::HistoryNavigation => "History navigation",
        Note::GoToCheckpoint => "Go to selected checkpoint",
        Note::Replay => "Replay from selected point",
        Note::ShowDetails => "Show execution details",
        Note::SaveHistory => "Save execution history",
        Note::ReportSaved => "Performance report saved",
        Note::ExportCsv => "Export to CSV",
        Note::FilterFunctions => "Filter functions",
        Note::NavigateStack => "Navigate call stack",
        Note::JumpToFrame => "Jump to selected frame",
        Note::BreakpointSet => "Breakpoint set",
        Note::SkippedWithDefault => "Function skipped with default value",
        Note::Restart => "Restart from last checkpoint",
    }
}

/// What a key press does in the workbench.
#[derive(Clone, Copy, Debug, PartialEq, Eq, Structural)]
pub enum WorkbenchAction {
    Quit,
    Note(Note),
    Open(Scene),
    Back,
    NoteAndBack(Note),
    Nothing,
}

/// The workbench application.
#[derive(Debug)]
pub struct TuiApp {
    pub current_scene: Scene,
    /// The scenes to go back to, the last one first.
    pub scene_stack: Vec<Scene>,
    pub running: bool,
    pub dashboard_state: DashboardState,
    pub variable_state: VariableEditorState,
}

/// Control and no other modifier.
pub open spec fn control_only(k: KeyPress) -> bool {
    k.control && !k.other_modifiers
}

/// Escape, `q`, or Control-C: what leaves a scene.
pub open spec fn leaves(k: KeyPress) -> bool {
    k.code == KeyCode::Esc || k.code == KeyCode::Char('q') || (control_only(k) && is_char(k, 'c', 'C'))
}

pub open spec fn is_key(k: KeyPress, c: char) -> bool {
    k.code == KeyCode::Char(c)
}

pub open spec fn up_or_down(k: KeyPress) -> bool {
    k.code == KeyCode::Up || k.code == KeyCode::Down
}

/// What `k` does in `scene`.
pub open spec fn workbench_action(scene: Scene, k: KeyPress) -> WorkbenchAction {
    match scene {
        Scene::Dashboard => if control_only(k) && is_char(k, 'c', 'C') {
            WorkbenchAction::Quit
        } else if is_key(k, 'c') {
            WorkbenchAction::Note(Note::ContinueExecution)
        } else if is_key(k, 's') {
            WorkbenchAction::Open(Scene::FunctionSkip)
        } else if is_key(k, 'e') {
            WorkbenchAction::Open(Scene::VariableEditor)
        } else if is_key(k, 'p') {
            WorkbenchAction::Open(Scene::Profiler)
        } else if is_key(k, 'v') {
            WorkbenchAction::Open(Scene::CallStack)
        } else if is_key(k, 'h') {
            WorkbenchAction::Open(Scene::History)
        } else if k.code == KeyCode::Esc || is_key(k, 'q') {
            WorkbenchAction::Quit
        } else {
            WorkbenchAction::Nothing
        },
        Scene::VariableEditor => if k.code == KeyCode::Enter {
            WorkbenchAction::Note(Note::AppliedVariables)
        } else if k.code == KeyCode::Tab {
            WorkbenchAction::Note(Note::NextField)
        } else if is_key(k, 'r') {
            WorkbenchAction::Note(Note::ResetVariables)
        } else if leaves(k) {
            WorkbenchAction::Back
        } else {
            WorkbenchAction::Nothing
        },
        Scene::FunctionSkip => if k.code == KeyCode::Enter {
            WorkbenchAction::NoteAndBack(Note::SkippedWithOption)
        } else if is_key(k, 'c') {
            WorkbenchAction::NoteAndBack(Note::ContinueNormal)
        } else if up_or_down(k) {
            WorkbenchAction::Note(Note::SkipOptionChanged)
        } else if leaves(k) {
            WorkbenchAction::Back
        } else {
            WorkbenchAction::Nothing
        },
        Scene::History => if up_or_down(k) {
            WorkbenchAction::Note(Note::HistoryNavigation)
        } else if k.code == KeyCode::Enter {
            WorkbenchAction::Note(Note::GoToCheckpoint)
        } else if is_key(k, 'r') {
            WorkbenchAction::Note(Note::Replay)
        } else if is_key(k, 'd') {
            WorkbenchAction::Note(Note::ShowDetails)
        } else if is_key(k, 's') {
            WorkbenchAction::Note(Note::SaveHistory)
        } else if leaves(k) {
            WorkbenchAction::Back
        } else {
            WorkbenchAction::Nothing
        },
        Scene::Profiler => if is_key(k, 's') {
            WorkbenchAction::Note(Note::ReportSaved)
        } else if is_key(k, 'e') {
            WorkbenchAction::Note(Note::ExportCsv)
        } else if is_key(k, 'f') {
            WorkbenchAction::Note(Note::FilterFunctions)
        } else if leaves(k) {
            WorkbenchAction::Back
        } else {
            WorkbenchAction::Nothing
        },
        Scene::CallStack => if up_or_down(k) {
            WorkbenchAction::Note(Note::NavigateStack)
        } else if k.code == KeyCode::Enter {
            WorkbenchAction::Note(Note::JumpToFrame)
        } else if is_key(k, 'v') {
            WorkbenchAction::Open(Scene::VariableEditor)
        } else if is_key(k, 'b') {
            WorkbenchAction::Note(Note::BreakpointSet)
        } else if is_key(k, 'c') {
            WorkbenchAction::NoteAndBack(Note::ContinueExecution)
        } else if leaves(k) {
            WorkbenchAction::Back
        } else {
            WorkbenchAction::Nothing
        },
        Scene::ErrorDialog => if is_key(k, 'f') {
            WorkbenchAction::Open(Scene::VariableEditor)
        } else if is_key(k, 's') {
            WorkbenchAction::NoteAndBack(Note::SkippedWithDefault)
        } else if is_key(k, 'r') {
            WorkbenchAction::NoteAndBack(Note::Restart)
        } else if leaves(k) {
            WorkbenchAction::Back
        } else {
            WorkbenchAction::Nothing
        },
    }
}

/// The name a scene is logged under.
pub open spec fn scene_name(s: Scene) -> Seq<char> {
    match s {
        Scene::Dashboard => "Dashboard"@,
        Scene::VariableEditor => "VariableEditor"@,
        Scene::FunctionSkip => "FunctionSkip"@,
        Scene::History => "History"@,
        Scene::Profiler => "Profiler"@,
        Scene::CallStack => "CallStack"@,
        Scene::ErrorDialog => "ErrorDialog"@,
    }
}

fn scene_str(s: Scene) -> (t: &'static str)
    ensures
        t@ == scene_name(s),
{
    match s {
        Scene::Dashboard => "Dashboard",
        Scene::VariableEditor => "VariableEditor",
        Scene::FunctionSkip => "FunctionSkip",
        Scene::History => "History",
        Scene::Profiler => "Profiler",
        Scene::CallStack => "CallStack",
        Scene::ErrorDialog => "ErrorDialog",
    }
}

/// `after` is `before` moved to `scene`, the old scene remembered, logged.
pub open spec fn moved_to(before: TuiApp, after: TuiApp, scene: Scene) -> bool {
    &&& after.current_scene == scene
    &&& after.scene_stack@ == before.scene_stack@.push(before.current_scene)
    &&& after.running == before.running
    &&& after.variable_state == before.variable_state
    &&& logged_once(before.dashboard_state, after.dashboard_state, "Navigated to "@ + scene_name(scene))
}

/// `after` is `before` back in the scene it came from, logged; the
/// application stops when there is none.
pub open spec fn moved_back(before: TuiApp, after: TuiApp) -> bool {
    if before.scene_stack@.len() == 0 {
        after == (TuiApp { running: false, ..before })
    } else {
        let prev = before.scene_stack@.last();
        &&& after.current_scene == prev
        &&& after.scene_stack@ == before.scene_stack@.drop_last()
        &&& after.running == before.running
        &&& after.variable_state == before.variable_state
        &&& logged_once(before.dashboard_state, after.dashboard_state, "Navigated back to "@ + scene_name(prev))
    }
}

/// `after` is `before` with `msg` logged.
pub open spec fn noted(before: TuiApp, after: TuiApp, msg: Seq<char>) -> bool {
    &&& logged_once(before.dashboard_state, after.dashboard_state, msg)
    &&& after == (TuiApp { dashboard_state: after.dashboard_state, ..before })
}

/// What action `a` does.
pub open spec fn acted(before: TuiApp, after: TuiApp, a: WorkbenchAction) -> bool {
    match a {
        WorkbenchAction::Quit => after == (TuiApp { running: false, ..before }),
        WorkbenchAction::Note(n) => noted(before, after, note_text(n)),
        WorkbenchAction::Open(s) => moved_to(before, after, s),
        WorkbenchAction::Back => moved_back(before, after),
        WorkbenchAction::NoteAndBack(n) => exists|mid: TuiApp| noted(before, mid, note_text(n)) && moved_back(mid, after),
        WorkbenchAction::Nothing => after == before,
    }
}

fn key_is(k: KeyPress, c: char) -> (r: bool)
    ensures
        r == is_key(k, c),
{
    match k.code {
        KeyCode::Char(x) => x == c,
        _ => false,
    }
}

fn interrupt(k: KeyPress) -> (r: bool)
    ensures
        r == (control_only(k) && is_char(k, 'c', 'C')),
{
    k.control && !k.other_modifiers && (key_is(k, 'c') || key_is(k, 'C'))
}

fn leaving(k: KeyPress) -> (r: bool)
    ensures
        r == leaves(k),
{
    k.code == KeyCode::Esc || key_is(k, 'q') || interrupt(k)
}

impl TuiApp {
    /// The workbench on its dashboard, running, with the sample session and
    /// `file` loaded when one is given.
    pub fn new(file: Option<String>) -> (a: Self)
        ensures
            a.current_scene == Scene::Dashboard,
            a.scene_stack@.len() == 0,
            a.running,
            file is None ==> a.dashboard_state.file_path is None,
            file matches Some(f) ==> a.dashboard_state.file_path == Some(f),
    {
        let mut dashboard_state = DashboardState::new();
        if let Some(f) = file {
            dashboard_state.set_file(f);
        }
        TuiApp {
            current_scene: Scene::Dashboard,
            scene_stack: Vec::new(),
            running: true,
            dashboard_state,
            variable_state: VariableEditorState::new(),
        }
    }

    /// Moves to `new_scene`, remembering the current one, logged.
    pub fn navigate_to(&mut self, new_scene: Scene)
        ensures
            moved_to(*old(self), *final(self), new_scene),
    {
        self.scene_stack.push(self.current_scene);
        self.current_scene = new_scene;
        self.dashboard_state.add_log(concat("Navigated to ", scene_str(new_scene)));
    }

    /// Goes back to the previous scene, logged; quits when there is none.
    pub fn navigate_back(&mut self)
        ensures
            moved_back(*old(self), *final(self)),
    {
        if self.scene_stack.len() == 0 {
            self.quit();
        } else {
            let prev = self.scene_stack.pop().unwrap();
            self.current_scene = prev;
            self.dashboard_state.add_log(concat("Navigated back to ", scene_str(prev)));
        }
    }

    pub fn quit(&mut self)
        ensures
            *final(self) == (TuiApp { running: false, ..*old(self) }),
    {
        self.running = false;
    }

    /// What `key` does in the current scene.
    pub fn key_action(&self, key: KeyPress) -> (a: WorkbenchAction)
        ensures
            a == workbench_action(self.current_scene, key),
    {
        let up_down = key.code == KeyCode::Up || key.code == KeyCode::Down;
        match self.current_scene {
            Scene::Dashboard => if interrupt(key) {
                WorkbenchAction::Quit
            } else if key_is(key, 'c') {
                WorkbenchAction::Note(Note::ContinueExecution)
            } else if key_is(key, 's') {
                WorkbenchAction::Open(Scene::FunctionSkip)
            } else if key_is(key, 'e') {
                WorkbenchAction::Open(Scene::VariableEditor)
            } else if key_is(key, 'p') {
                WorkbenchAction::Open(Scene::Profiler)
            } else if key_is(key, 'v') {
                WorkbenchAction::Open(Scene::CallStack)
            } else if key_is(key, 'h') {
                WorkbenchAction::Open(Scene::History)
            } else if key.code == KeyCode::Esc || key_is(key, 'q') {
                WorkbenchAction::Quit
            } else {
                WorkbenchAction::Nothing
            },
            Scene::VariableEditor => if key.code == KeyCode::Enter {
                WorkbenchAction::Note(Note::AppliedVariables)
            } else if key.code == KeyCode::Tab {
                WorkbenchAction::Note(Note::NextField)
            } else if key_is(key, 'r') {
                WorkbenchAction::Note(Note::ResetVariables)
            } else if leaving(key) {
                WorkbenchAction::Back
            } else {
                WorkbenchAction::Nothing
            },
            Scene::FunctionSkip => if key.code == KeyCode::Enter {
                WorkbenchAction::NoteAndBack(Note::SkippedWithOption)
            } else if key_is(key, 'c') {
                WorkbenchAction::NoteAndBack(Note::ContinueNormal)
            } else if up_down {
                WorkbenchAction::Note(Note::SkipOptionChanged)
            } else if leaving(key) {
                WorkbenchAction::Back
            } else {
                WorkbenchAction::Nothing
            },
            Scene::History => if up_down {
                WorkbenchAction::Note(Note::HistoryNavigation)
            } else if key.code == KeyCode::Enter {
                WorkbenchAction::Note(Note::GoToCheckpoint)
            } else if key_is(key, 'r') {
                WorkbenchAction::Note(Note::Replay)
            } else if key_is(key, 'd') {
                WorkbenchAction::Note(Note::ShowDetails)
            } else if key_is(key, 's') {
                WorkbenchAction::Note(Note::SaveHistory)
            } else if leaving(key) {
                WorkbenchAction::Back
            } else {
                WorkbenchAction::Nothing
            },
            Scene::Profiler => if key_is(key, 's') {
                WorkbenchAction::Note(Note::ReportSaved)
            } else if key_is(key, 'e') {
                WorkbenchAction::Note(Note::ExportCsv)
            } else if key_is(key, 'f') {
                WorkbenchAction::Note(Note::FilterFunctions)
            } else if leaving(key) {
                WorkbenchAction::Back
            } else {
                WorkbenchAction::Nothing
            },
            Scene::CallStack => if up_down {
                WorkbenchAction::Note(Note::NavigateStack)
            } else if key.code == KeyCode::Enter {
                WorkbenchAction::Note(Note::JumpToFrame)
            } else if key_is(key, 'v') {
                WorkbenchAction::Open(Scene::VariableEditor)
            } else if key_is(key, 'b') {
                WorkbenchAction::Note(Note::BreakpointSet)
            } else if key_is(key, 'c') {
                WorkbenchAction::NoteAndBack(Note::ContinueExecution)
            } else if leaving(key) {
                WorkbenchAction::Back
            } else {
                WorkbenchAction::Nothing
            },
            Scene::ErrorDialog => if key_is(key, 'f') {
                WorkbenchAction::Open(Scene::VariableEditor)
            } else if key_is(key, 's') {
                WorkbenchAction::NoteAndBack(Note::SkippedWithDefault)
            } else if key_is(key, 'r') {
                WorkbenchAction::NoteAndBack(Note::Restart)
            } else if leaving(key) {
                WorkbenchAction::Back
            } else {
                WorkbenchAction::Nothing
            },
        }
    }

    /// Performs `action`.
    pub fn perform(&mut self, action: WorkbenchAction)
        ensures
            acted(*old(self), *final(self), action),
    {
        match action {
            WorkbenchAction::Quit => self.quit(),
            WorkbenchAction::Note(n) => self.dashboard_state.add_log(String::from_str(note_str(n))),
            WorkbenchAction::Open(s) => self.navigate_to(s),
            WorkbenchAction::Back => self.navigate_back(),
            WorkbenchAction::NoteAndBack(n) => {
                self.dashboard_state.add_log(String::from_str(note_str(n)));
                let ghost mid = *self;
                self.navigate_back();
                assert(noted(*old(self), mid, note_text(n)));
            },
            WorkbenchAction::Nothing => {},
        }
    }

    /// Handles one key press in the current scene.
    pub fn handle_key_event(&mut self, key: KeyPress)
        ensures
            acted(*old(self), *final(self), workbench_action(old(self).current_scene, key)),
    {
        let action = self.key_action(key);
        self.perform(action);
    }
}

/// Going back right after opening a scene returns to the scene and the
/// stack of scenes left behind.
pub proof fn law_back_undoes_open(a: TuiApp, b: TuiApp, c: TuiApp, scene: Scene)
    requires
        moved_to(a, b, scene),
        moved_back(b, c),
    ensures
        c.current_scene == a.current_scene,
        c.scene_stack@ == a.scene_stack@,
        c.running == a.running,
{
    assert(b.scene_stack@.drop_last() =~= a.scene_stack@);
}

} // verus!
