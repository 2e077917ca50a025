//! The terminal interface: its scenes, how it moves between them, and what
//! each key press does in each of them.

use vstd::prelude::*;
use crate::dashboard::{continued, detail_closed, detail_down, detail_toggled, detail_up, edit_popup_opened,
    focus_toggled, fresh_dashboard, logged, logs_down, logs_up, same_but_logs, skip_popup_opened, timeline_down, timeline_up,
    CheckpointResponse, DashboardState, FocusedPanel};
use crate::profiler::{key_label, rows_down, rows_up, sort_set, PerformanceProfileState, SortDirection, SortKey};
use crate::rpc::Activity;
use crate::text::concat;

verus! {

/// The screens of the interface.
#[derive(Clone, Copy, Debug, PartialEq, Eq, Structural)]
pub enum Scene {
    Dashboard,
    Profiler,
}

/// The key of a key press, as far as the interface tells keys apart.
#[derive(Clone, Copy, Debug, PartialEq, Eq, Structural)]
pub enum KeyCode {
    Char(char),
    Up,
    Down,
    Enter,
    Tab,
    Esc,
    /// Any other key.
    Other,
}

/// A key press: the key, whether Control was held, and whether any other
/// modifier was held.
#[derive(Clone, Copy, Debug, PartialEq, Eq, Structural)]
pub struct KeyPress {
    pub code: KeyCode,
    pub control: bool,
    pub other_modifiers: bool,
}

/// What a key press asks for.
#[derive(Clone, Copy, Debug, PartialEq, Eq, Structural)]
pub enum KeyAction {
    Quit,
    Back,
    ShowProfiler,
    Continue,
    OpenSkip,
    OpenEdit,
    ToggleDetail,
    CloseDetail,
    ScrollDetailUp,
    ScrollDetailDown,
    CloseSkip,
    SubmitSkip,
    TypeInSkip,
    CloseEdit,
    SubmitEdit,
    TypeInEdit,
    ToggleFocus,
    TimelineUp,
    TimelineDown,
    LogsUp,
    LogsDown,
    SortBy(SortKey),
    RowsUp,
    RowsDown,
    Nothing,
}

/// What the caller has to do once a key press was handled, with what only
/// it holds: the runtime connection, the text boxes of the popups and the
/// Discord session.
#[derive(Debug)]
pub enum KeyEffect {
    Nothing,
    /// Send this answer to the runtime and report the outcome to
    /// `DashboardState::response_sent`.
    Send(CheckpointResponse),
    /// Empty the skip popup's text box.
    ClearSkipText,
    /// Empty the edit popup's text box.
    ClearEditText,
    /// Fill the edit popup's text box with these arguments (JSON text).
    FillEditText(String),
    /// Hand the key to the skip popup's text box.
    TypeInSkip(KeyPress),
    /// Hand the key to the edit popup's text box.
    TypeInEdit(KeyPress),
    /// Skip with the skip popup's text (`DashboardState::skip_with_textarea_value`).
    SubmitSkip,
    /// Continue with the edit popup's text (`DashboardState::submit_edited_args`).
    SubmitEdit,
    /// The scene changed: show the new activity on Discord.
    ShowActivity,
}

/// The whole interface.
#[derive(Debug)]
pub struct CheckpointTUI {
    pub current_scene: Scene,
    /// The scenes to go back to, the last one first.
    pub scene_stack: Vec<Scene>,
    pub running: bool,
    pub dashboard_state: DashboardState,
    pub profile_state: PerformanceProfileState,
    /// What the Discord profile shows.
    pub activity: Activity,
}

pub open spec fn is_char(k: KeyPress, a: char, b: char) -> bool {
    k.code matches KeyCode::Char(c) && (c == a || c == b)
}

/// Control-C.
pub open spec fn is_interrupt(k: KeyPress) -> bool {
    k.control && is_char(k, 'c', 'C')
}

/// What a key does on the dashboard: in an open popup first, else on the
/// panels.
pub open spec fn dashboard_action(d: DashboardState, k: KeyPress) -> KeyAction {
    if d.show_detail_popup {
        if k.code == KeyCode::Up {
            KeyAction::ScrollDetailUp
        } else if k.code == KeyCode::Down {
            KeyAction::ScrollDetailDown
        } else if is_char(k, 'd', 'D') || is_char(k, 'q', 'Q') || k.code == KeyCode::Esc {
            KeyAction::CloseDetail
        } else {
            KeyAction::Nothing
        }
    } else if d.show_skip_popup {
        if k.code == KeyCode::Esc {
            KeyAction::CloseSkip
        } else if is_char(k, 's', 'S') && k.control {
            KeyAction::SubmitSkip
        } else {
            KeyAction::TypeInSkip
        }
    } else if d.show_edit_popup {
        if k.code == KeyCode::Esc {
            KeyAction::CloseEdit
        } else if is_char(k, 's', 'S') && k.control {
            KeyAction::SubmitEdit
        } else {
            KeyAction::TypeInEdit
        }
    } else if is_char(k, 'c', 'C') {
        KeyAction::Continue
    } else if is_char(k, 's', 'S') {
        if d.paused { KeyAction::OpenSkip } else { KeyAction::Nothing }
    } else if is_char(k, 'd', 'D') {
        KeyAction::ToggleDetail
    } else if is_char(k, 'e', 'E') {
        if d.paused { KeyAction::OpenEdit } else { KeyAction::Nothing }
    } else if is_char(k, 'p', 'P') {
        KeyAction::ShowProfiler
    } else if is_char(k, 'q', 'Q') || k.code == KeyCode::Esc {
        KeyAction::Back
    } else if k.code == KeyCode::Tab {
        KeyAction::ToggleFocus
    } else if k.code == KeyCode::Up {
        if d.focused_panel == FocusedPanel::Timeline { KeyAction::TimelineUp } else { KeyAction::LogsUp }
    } else if k.code == KeyCode::Down {
        if d.focused_panel == FocusedPanel::Timeline { KeyAction::TimelineDown } else { KeyAction::LogsDown }
    } else {
        KeyAction::Nothing
    }
}

/// What a key does in the profile: choose the sort column, scroll, or go
/// back.
pub open spec fn profiler_action(k: KeyPress) -> KeyAction {
    if is_char(k, 't', 'T') {
        KeyAction::SortBy(SortKey::Total)
    } else if is_char(k, 'a', 'A') {
        KeyAction::SortBy(SortKey::Avg)
    } else if is_char(k, 'c', 'C') {
        KeyAction::SortBy(SortKey::Calls)
    } else if is_char(k, 'm', 'M') {
        KeyAction::SortBy(SortKey::Memory)
    } else if is_char(k, 'n', 'N') {
        KeyAction::SortBy(SortKey::Name)
    } else if k.code == KeyCode::Up {
        KeyAction::RowsUp
    } else if k.code == KeyCode::Down {
        KeyAction::RowsDown
    } else if is_char(k, 'q', 'Q') || k.code == KeyCode::Esc {
        KeyAction::Back
    } else {
        KeyAction::Nothing
    }
}

/// What a key does: Control-C quits from anywhere, other keys act on the
/// current scene.
pub open spec fn action_for(t: CheckpointTUI, k: KeyPress) -> KeyAction {
    if is_interrupt(k) {
        KeyAction::Quit
    } else if t.current_scene == Scene::Dashboard {
        dashboard_action(t.dashboard_state, k)
    } else {
        profiler_action(k)
    }
}

/// The name a scene is logged and shown under.
pub open spec fn scene_name(s: Scene) -> Seq<char> {
    match s {
        Scene::Dashboard => "Dashboard"@,
        Scene::Profiler => "Profiler"@,
    }
}

/// `after` is `before` with only the dashboard changed.
pub open spec fn only_dashboard(before: CheckpointTUI, after: CheckpointTUI) -> bool {
    after == (CheckpointTUI { dashboard_state: after.dashboard_state, ..before })
}

/// `after` is `before` with the dashboard turned into `d`.
pub open spec fn dashboard_becomes(before: CheckpointTUI, after: CheckpointTUI, d: DashboardState) -> bool {
    after == (CheckpointTUI { dashboard_state: d, ..before })
}

/// `after` is `before` moved to `scene`: the old scene is remembered to go
/// back to, the activity shows the new scene, and the move is logged.
pub open spec fn navigated(before: CheckpointTUI, after: CheckpointTUI, scene: Scene) -> bool {
    &&& after.current_scene == scene
    &&& after.scene_stack@ == before.scene_stack@.push(before.current_scene)
    &&& after.running == before.running
    &&& after.profile_state == before.profile_state
    &&& after.activity == (Activity { state: after.activity.state, ..before.activity })
    &&& after.activity.state matches Some(st) && st@ == seq![' '] + scene_name(scene)
    &&& logged(before.dashboard_state, after.dashboard_state, seq!["Navigated to "@ + scene_name(scene)])
    &&& same_but_logs(before.dashboard_state, after.dashboard_state)
}

/// `after` is `before` gone back to the scene it came from, logged; with
/// nowhere to go back to, the interface stops instead.
pub open spec fn went_back(before: CheckpointTUI, after: CheckpointTUI) -> bool {
    if before.scene_stack@.len() == 0 {
        after == (CheckpointTUI { running: false, ..before })
    } else {
        let prev = before.scene_stack@.last();
        &&& after.current_scene == prev
        &&& after.scene_stack@ == before.scene_stack@.drop_last()
        &&& after.running == before.running
        &&& after.profile_state == before.profile_state
        &&& after.activity == before.activity
        &&& logged(before.dashboard_state, after.dashboard_state, seq!["Navigated back to "@ + scene_name(prev)])
        &&& same_but_logs(before.dashboard_state, after.dashboard_state)
    }
}

/// What performing action `a` for key `k` does, and what it leaves to the
/// caller.
pub open spec fn performed(before: CheckpointTUI, after: CheckpointTUI, a: KeyAction, k: KeyPress, e: KeyEffect) -> bool {
    let d = before.dashboard_state;
    match a {
        KeyAction::Quit => after == (CheckpointTUI { running: false, ..before }) && e is Nothing,
        KeyAction::Back => went_back(before, after) && e is Nothing,
        KeyAction::ShowProfiler => navigated(before, after, Scene::Profiler) && e is ShowActivity,
        KeyAction::Continue => only_dashboard(before, after) && match e {
            KeyEffect::Send(r) => continued(d, after.dashboard_state,
                "→ Sending continue response for checkpoint ID "@, None, Some(r)),
            KeyEffect::Nothing => continued(d, after.dashboard_state,
                "→ Sending continue response for checkpoint ID "@, None, None),
            _ => false,
        },
        KeyAction::OpenSkip => dashboard_becomes(before, after, skip_popup_opened(d))
            && (if d.pending_checkpoints@.len() > 0 { e is ClearSkipText } else { e is Nothing }),
        KeyAction::OpenEdit => dashboard_becomes(before, after, edit_popup_opened(d))
            && (if d.pending_checkpoints@.len() > 0 {
                e matches KeyEffect::FillEditText(t) && t@ == d.pending_checkpoints@[0].args@
            } else {
                e is Nothing
            }),
        KeyAction::ToggleDetail => dashboard_becomes(before, after, detail_toggled(d)) && e is Nothing,
        KeyAction::CloseDetail => dashboard_becomes(before, after, detail_closed(d)) && e is Nothing,
        KeyAction::ScrollDetailUp => dashboard_becomes(before, after, detail_up(d)) && e is Nothing,
        KeyAction::ScrollDetailDown => dashboard_becomes(before, after, detail_down(d)) && e is Nothing,
        KeyAction::CloseSkip => dashboard_becomes(before, after, DashboardState { show_skip_popup: false, ..d })
            && e is ClearSkipText,
        KeyAction::SubmitSkip => after == before && e is SubmitSkip,
        KeyAction::TypeInSkip => after == before && e == KeyEffect::TypeInSkip(k),
        KeyAction::CloseEdit => dashboard_becomes(before, after, DashboardState { show_edit_popup: false, ..d })
            && e is ClearEditText,
        KeyAction::SubmitEdit => after == before && e is SubmitEdit,
        KeyAction::TypeInEdit => after == before && e == KeyEffect::TypeInEdit(k),
        KeyAction::ToggleFocus => dashboard_becomes(before, after, focus_toggled(d)) && e is Nothing,
        KeyAction::TimelineUp => dashboard_becomes(before, after, timeline_up(d)) && e is Nothing,
        KeyAction::TimelineDown => dashboard_becomes(before, after, timeline_down(d)) && e is Nothing,
        KeyAction::LogsUp => dashboard_becomes(before, after, logs_up(d)) && e is Nothing,
        KeyAction::LogsDown => dashboard_becomes(before, after, logs_down(d)) && e is Nothing,
        KeyAction::SortBy(key) => after == (CheckpointTUI { profile_state: sort_set(before.profile_state, key), ..before })
            && e is Nothing,
        KeyAction::RowsUp => after == (CheckpointTUI { profile_state: rows_up(before.profile_state), ..before })
            && e is Nothing,
        KeyAction::RowsDown => after == (CheckpointTUI {
            profile_state: rows_down(before.profile_state, usize::MAX, 1),
            ..before
        }) && e is Nothing,
        KeyAction::Nothing => after == before && e is Nothing,
    }
}

/// The name of `scene`.
fn scene_label(scene: Scene) -> (s: &'static str)
    ensures
        s@ == scene_name(scene),
{
    match scene {
        Scene::Dashboard => "Dashboard",
        Scene::Profiler => "Profiler",
    }
}

fn char_is(k: KeyPress, a: char, b: char) -> (r: bool)
    ensures
        r == is_char(k, a, b),
{
    match k.code {
        KeyCode::Char(c) => c == a || c == b,
        _ => false,
    }
}

impl CheckpointTUI {
    /// The interface on the dashboard, running. When the transformed and the
    /// original file are both given, and a runtime directory too, the
    /// dashboard records them; the caller then starts the runtime.
    pub fn new(transformed_file: Option<String>, original_file: Option<String>, has_runtime_dir: bool,
        activity: Activity) -> (t: Self)
        ensures
            t.current_scene == Scene::Dashboard,
            t.scene_stack@.len() == 0,
            t.running,
            t.activity == activity,
            t.profile_state == (PerformanceProfileState {
                sort_key: SortKey::Total,
                sort_direction: SortDirection::Desc,
                scroll_offset: 0,
            }),
            fresh_dashboard(DashboardState { file_path: None, transformed_path: None, ..t.dashboard_state }),
            has_runtime_dir && transformed_file is Some && original_file is Some ==> {
                &&& t.dashboard_state.file_path == original_file
                &&& t.dashboard_state.transformed_path == transformed_file
            },
            !(has_runtime_dir && transformed_file is Some && original_file is Some) ==> fresh_dashboard(t.dashboard_state),
    {
        let mut dashboard_state = DashboardState::new();
        if has_runtime_dir {
            match (transformed_file, original_file) {
                (Some(tf), Some(of)) => dashboard_state.set_file(tf, of),
                _ => {},
            }
        }
        CheckpointTUI {
            current_scene: Scene::Dashboard,
            scene_stack: Vec::new(),
            running: true,
            dashboard_state,
            profile_state: PerformanceProfileState::new(),
            activity,
        }
    }

    /// Moves to `new_scene`, remembering the current one to go back to; the
    /// activity shows the new scene (the caller pushes it to Discord) and
    /// the move is logged.
    pub fn navigate_to(&mut self, new_scene: Scene)
        ensures
            navigated(*old(self), *final(self), new_scene),
    {
        self.scene_stack.push(self.current_scene);
        self.current_scene = new_scene;
        let name = scene_label(new_scene);
        self.activity.state = Some(concat(" ", name));
        proof {
            reveal_strlit(" ");
            assert(" "@ =~= seq![' ']);
        }
        self.dashboard_state.add_log(concat("Navigated to ", name));
    }

    /// Goes back to the scene this one was reached from, logged; quits when
    /// there is none.
    pub fn navigate_back(&mut self)
        ensures
            went_back(*old(self), *final(self)),
    {
        if self.scene_stack.len() == 0 {
            self.quit();
        } else {
            let prev = self.scene_stack.pop().unwrap();
            self.current_scene = prev;
            self.dashboard_state.add_log(concat("Navigated back to ", scene_label(prev)));
        }
    }

    /// Stops the interface.
    pub fn quit(&mut self)
        ensures
            *final(self) == (CheckpointTUI { running: false, ..*old(self) }),
    {
        self.running = false;
    }

    /// What `key` asks for in the current state.
    pub fn key_action(&self, key: KeyPress) -> (a: KeyAction)
        ensures
            a == action_for(*self, key),
    {
        if key.control && char_is(key, 'c', 'C') {
            return KeyAction::Quit;
        }
        match self.current_scene {
            Scene::Dashboard => {
                let d = &self.dashboard_state;
                if d.show_detail_popup {
                    if key.code == KeyCode::Up {
                        KeyAction::ScrollDetailUp
                    } else if key.code == KeyCode::Down {
                        KeyAction::ScrollDetailDown
                    } else if char_is(key, 'd', 'D') || char_is(key, 'q', 'Q') || key.code == KeyCode::Esc {
                        KeyAction::CloseDetail
                    } else {
                        KeyAction::Nothing
                    }
                } else if d.show_skip_popup {
                    if key.code == KeyCode::Esc {
                        KeyAction::CloseSkip
                    } else if char_is(key, 's', 'S') && key.control {
                        KeyAction::SubmitSkip
                    } else {
                        KeyAction::TypeInSkip
                    }
                } else if d.show_edit_popup {
                    if key.code == KeyCode::Esc {
                        KeyAction::CloseEdit
                    } else if char_is(key, 's', 'S') && key.control {
                        KeyAction::SubmitEdit
                    } else {
                        KeyAction::TypeInEdit
                    }
                } else if char_is(key, 'c', 'C') {
                    KeyAction::Continue
                } else if char_is(key, 's', 'S') {
                    if d.paused { KeyAction::OpenSkip } else { KeyAction::Nothing }
                } else if char_is(key, 'd', 'D') {
                    KeyAction::ToggleDetail
                } else if char_is(key, 'e', 'E') {
                    if d.paused { KeyAction::OpenEdit } else { KeyAction::Nothing }
                } else if char_is(key, 'p', 'P') {
                    KeyAction::ShowProfiler
                } else if char_is(key, 'q', 'Q') || key.code == KeyCode::Esc {
                    KeyAction::Back
                } else if key.code == KeyCode::Tab {
                    KeyAction::ToggleFocus
                } else if key.code == KeyCode::Up {
                    if d.focused_panel == FocusedPanel::Timeline { KeyAction::TimelineUp } else { KeyAction::LogsUp }
                } else if key.code == KeyCode::Down {
                    if d.focused_panel == FocusedPanel::Timeline { KeyAction::TimelineDown } else { KeyAction::LogsDown }
                } else {
                    KeyAction::Nothing
                }
            },
            Scene::Profiler => {
                if char_is(key, 't', 'T') {
                    KeyAction::SortBy(SortKey::Total)
                } else if char_is(key, 'a', 'A') {
                    KeyAction::SortBy(SortKey::Avg)
                } else if char_is(key, 'c', 'C') {
                    KeyAction::SortBy(SortKey::Calls)
                } else if char_is(key, 'm', 'M') {
                    KeyAction::SortBy(SortKey::Memory)
                } else if char_is(key, 'n', 'N') {
                    KeyAction::SortBy(SortKey::Name)
                } else if key.code == KeyCode::Up {
                    KeyAction::RowsUp
                } else if key.code == KeyCode::Down {
                    KeyAction::RowsDown
                } else if char_is(key, 'q', 'Q') || key.code == KeyCode::Esc {
                    KeyAction::Back
                } else {
                    KeyAction::Nothing
                }
            },
        }
    }

    /// Performs `action`, asked for by `key`, and tells the caller what is
    /// left for it to do.
    pub fn perform(&mut self, action: KeyAction, key: KeyPress) -> (e: KeyEffect)
        ensures
            performed(*old(self), *final(self), action, key, e),
    {
        match action {
            KeyAction::Quit => {
                self.quit();
                KeyEffect::Nothing
            },
            KeyAction::Back => {
                self.navigate_back();
                KeyEffect::Nothing
            },
            KeyAction::ShowProfiler => {
                self.navigate_to(Scene::Profiler);
                KeyEffect::ShowActivity
            },
            KeyAction::Continue => match self.dashboard_state.continue_execution() {
                Some(r) => KeyEffect::Send(r),
                None => KeyEffect::Nothing,
            },
            KeyAction::OpenSkip => {
                if self.dashboard_state.open_skip_popup() {
                    KeyEffect::ClearSkipText
                } else {
                    KeyEffect::Nothing
                }
            },
            KeyAction::OpenEdit => match self.dashboard_state.open_edit_popup() {
                Some(args) => KeyEffect::FillEditText(args),
                None => KeyEffect::Nothing,
            },
            KeyAction::ToggleDetail => {
                self.dashboard_state.toggle_detail_popup();
                KeyEffect::Nothing
            },
            KeyAction::CloseDetail => {
                self.dashboard_state.close_detail_popup();
                KeyEffect::Nothing
            },
            KeyAction::ScrollDetailUp => {
                self.dashboard_state.scroll_detail_up();
                KeyEffect::Nothing
            },
            KeyAction::ScrollDetailDown => {
                self.dashboard_state.scroll_detail_down();
                KeyEffect::Nothing
            },
            KeyAction::CloseSkip => {
                self.dashboard_state.close_skip_popup();
                KeyEffect::ClearSkipText
            },
            KeyAction::SubmitSkip => KeyEffect::SubmitSkip,
            KeyAction::TypeInSkip => KeyEffect::TypeInSkip(key),
            KeyAction::CloseEdit => {
                self.dashboard_state.close_edit_popup();
                KeyEffect::ClearEditText
            },
            KeyAction::SubmitEdit => KeyEffect::SubmitEdit,
            KeyAction::TypeInEdit => KeyEffect::TypeInEdit(key),
            KeyAction::ToggleFocus => {
                self.dashboard_state.toggle_focus();
                KeyEffect::Nothing
            },
            KeyAction::TimelineUp => {
                self.dashboard_state.scroll_timeline_up();
                KeyEffect::Nothing
            },
            KeyAction::TimelineDown => {
                self.dashboard_state.scroll_timeline_down();
                KeyEffect::Nothing
            },
            KeyAction::LogsUp => {
                self.dashboard_state.scroll_logs_up();
                KeyEffect::Nothing
            },
            KeyAction::LogsDown => {
                self.dashboard_state.scroll_logs_down();
                KeyEffect::Nothing
            },
            KeyAction::SortBy(k) => {
                self.profile_state.set_sort(k);
                KeyEffect::Nothing
            },
            KeyAction::RowsUp => {
                self.profile_state.scroll_up();
                KeyEffect::Nothing
            },
            KeyAction::RowsDown => {
                self.profile_state.scroll_down(usize::MAX, 1);
                KeyEffect::Nothing
            },
            KeyAction::Nothing => KeyEffect::Nothing,
        }
    }

    /// Handles one key press: decides what it asks for and performs it.
    pub fn handle_key_event(&mut self, key: KeyPress) -> (e: KeyEffect)
        ensures
            performed(*old(self), *final(self), action_for(*old(self), key), key, e),
    {
        let action = self.key_action(key);
        self.perform(action, key)
    }
}

/// Going back right after moving to a scene returns to the scene and the
/// stack of scenes left behind.
pub proof fn law_back_undoes_navigate(a: CheckpointTUI, b: CheckpointTUI, c: CheckpointTUI, scene: Scene)
    requires
        navigated(a, b, scene),
        went_back(b, c),
    ensures
        c.current_scene == a.current_scene,
        c.scene_stack@ == a.scene_stack@,
        c.running == a.running,
{
    assert(b.scene_stack@.len() > 0);
    assert(b.scene_stack@.drop_last() =~= a.scene_stack@);
}

/// Control-C stops the interface from any scene and any popup.
pub proof fn law_interrupt_quits(t: CheckpointTUI, k: KeyPress)
    requires
        k.control,
        k.code == KeyCode::Char('c') || k.code == KeyCode::Char('C'),
    ensures
        action_for(t, k) == KeyAction::Quit,
{
}

/// In the profiler a letter orders the table by the column it begins:
/// `t` Total, `a` Avg, `c` Calls, `m` Memory, `n` Name, in either case and
/// whatever the modifiers, but for Control-C, which quits. Every key that
/// orders the table is the first letter of its column's name.
pub proof fn law_profiler_letters_pick_columns(t: CheckpointTUI, k: KeyPress)
    requires
        t.current_scene == Scene::Profiler,
    ensures
        k.code == KeyCode::Char('t') || k.code == KeyCode::Char('T')
            ==> action_for(t, k) == KeyAction::SortBy(SortKey::Total),
        k.code == KeyCode::Char('a') || k.code == KeyCode::Char('A')
            ==> action_for(t, k) == KeyAction::SortBy(SortKey::Avg),
        (k.code == KeyCode::Char('c') || k.code == KeyCode::Char('C')) && !k.control
            ==> action_for(t, k) == KeyAction::SortBy(SortKey::Calls),
        (k.code == KeyCode::Char('c') || k.code == KeyCode::Char('C')) && k.control
            ==> action_for(t, k) == KeyAction::Quit,
        k.code == KeyCode::Char('m') || k.code == KeyCode::Char('M')
            ==> action_for(t, k) == KeyAction::SortBy(SortKey::Memory),
        k.code == KeyCode::Char('n') || k.code == KeyCode::Char('N')
            ==> action_for(t, k) == KeyAction::SortBy(SortKey::Name),
        action_for(t, k) matches KeyAction::SortBy(col) ==> (k.code matches KeyCode::Char(ch)
            && (ch == key_label(col)[0] || ch as int == key_label(col)[0] as int + 32)),
{
    reveal_strlit("Total");
    reveal_strlit("Avg");
    reveal_strlit("Calls");
    reveal_strlit("Memory");
    reveal_strlit("Name");
}

} // verus!
