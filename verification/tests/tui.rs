use checkpoint_ts::dashboard::{CheckpointMessage, CheckpointPayload, FocusedPanel};
use checkpoint_ts::profiler::{SortDirection, SortKey};
use checkpoint_ts::rpc::Activity;
use checkpoint_ts::tui::{CheckpointTUI, KeyAction, KeyCode, KeyEffect, KeyPress, Scene};

fn key(c: char) -> KeyPress {
    KeyPress { code: KeyCode::Char(c), control: false, other_modifiers: false }
}

fn code(c: KeyCode) -> KeyPress {
    KeyPress { code: c, control: false, other_modifiers: false }
}

fn ctrl(c: char) -> KeyPress {
    KeyPress { code: KeyCode::Char(c), control: true, other_modifiers: false }
}

fn tui() -> CheckpointTUI {
    CheckpointTUI::new(None, None, false, Activity::new())
}

fn pause(t: &mut CheckpointTUI, id: u64) {
    t.dashboard_state.handle_checkpoint_message(CheckpointMessage {
        kind: Some("checkpoint".to_string()),
        id: Some(id),
        payload: Some(CheckpointPayload {
            function_name: Some("f".to_string()),
            args: Some("[1]".to_string()),
            context: None,
            stack_depth: None,
            caller_name: None,
            status: None,
            duration: String::new(),
            return_preview: None,
            return_type: None,
            return_value: None,
            error_preview: None,
        }),
    });
}

#[test]
fn control_c_quits_everywhere() {
    let mut t = tui();
    t.dashboard_state.show_edit_popup = true;
    assert_eq!(t.key_action(ctrl('c')), KeyAction::Quit);
    t.handle_key_event(ctrl('C'));
    assert!(!t.running);
}

#[test]
fn profiler_and_back() {
    let mut t = tui();
    let e = t.handle_key_event(key('p'));
    assert!(matches!(e, KeyEffect::ShowActivity));
    assert_eq!(t.current_scene, Scene::Profiler);
    assert_eq!(t.scene_stack, vec![Scene::Dashboard]);
    assert_eq!(t.activity.state.as_deref(), Some(" Profiler"));
    assert!(t.dashboard_state.logs.last().unwrap().ends_with("] Navigated to Profiler"));
    t.handle_key_event(code(KeyCode::Esc));
    assert_eq!(t.current_scene, Scene::Dashboard);
    assert!(t.scene_stack.is_empty());
    assert!(t.running);
    assert!(t.dashboard_state.logs.last().unwrap().ends_with("] Navigated back to Dashboard"));
    t.handle_key_event(key('q'));
    assert!(!t.running);
}

#[test]
fn profiler_keys_sort() {
    let mut t = tui();
    t.navigate_to(Scene::Profiler);
    t.handle_key_event(key('n'));
    assert_eq!(t.profile_state.sort_key, SortKey::Name);
    assert_eq!(t.profile_state.sort_direction, SortDirection::Asc);
    t.handle_key_event(key('N'));
    assert_eq!(t.profile_state.sort_direction, SortDirection::Desc);
    t.handle_key_event(code(KeyCode::Down));
    assert_eq!(t.profile_state.scroll_offset, 1);
    t.handle_key_event(code(KeyCode::Up));
    assert_eq!(t.profile_state.scroll_offset, 0);
}

#[test]
fn skip_only_when_paused() {
    let mut t = tui();
    assert_eq!(t.key_action(key('s')), KeyAction::Nothing);
    pause(&mut t, 1);
    assert_eq!(t.key_action(key('s')), KeyAction::OpenSkip);
    assert!(matches!(t.handle_key_event(key('s')), KeyEffect::ClearSkipText));
    assert!(t.dashboard_state.show_skip_popup);
    assert!(matches!(t.handle_key_event(key('x')), KeyEffect::TypeInSkip(_)));
    assert!(matches!(t.handle_key_event(ctrl('s')), KeyEffect::SubmitSkip));
    assert!(matches!(t.handle_key_event(code(KeyCode::Esc)), KeyEffect::ClearSkipText));
    assert!(!t.dashboard_state.show_skip_popup);
}

#[test]
fn edit_popup_gets_the_arguments() {
    let mut t = tui();
    pause(&mut t, 2);
    match t.handle_key_event(key('e')) {
        KeyEffect::FillEditText(a) => assert_eq!(a, "[1]"),
        other => panic!("unexpected {:?}", other),
    }
    assert!(t.dashboard_state.show_edit_popup);
    assert!(matches!(t.handle_key_event(key('q')), KeyEffect::TypeInEdit(_)));
    assert!(matches!(t.handle_key_event(code(KeyCode::Esc)), KeyEffect::ClearEditText));
}

#[test]
fn arrows_scroll_the_focused_panel() {
    let mut t = tui();
    assert_eq!(t.key_action(code(KeyCode::Up)), KeyAction::LogsUp);
    t.handle_key_event(code(KeyCode::Tab));
    assert_eq!(t.dashboard_state.focused_panel, FocusedPanel::Timeline);
    assert_eq!(t.key_action(code(KeyCode::Down)), KeyAction::TimelineDown);
}

#[test]
fn detail_popup_takes_the_keys() {
    let mut t = tui();
    pause(&mut t, 3);
    t.handle_key_event(key('d'));
    assert!(t.dashboard_state.show_detail_popup);
    assert_eq!(t.key_action(key('c')), KeyAction::Nothing);
    assert_eq!(t.key_action(key('Q')), KeyAction::CloseDetail);
    t.handle_key_event(key('D'));
    assert!(!t.dashboard_state.show_detail_popup);
}

#[test]
fn continue_key_hands_out_the_answer() {
    let mut t = tui();
    t.dashboard_state.app_load_sent();
    pause(&mut t, 4);
    match t.handle_key_event(key('c')) {
        KeyEffect::Send(r) => assert_eq!(r.id, 4),
        other => panic!("unexpected {:?}", other),
    }
}

#[test]
fn new_records_files_with_a_runtime() {
    let t = CheckpointTUI::new(Some("t.js".to_string()), Some("o.ts".to_string()), true, Activity::new());
    assert_eq!(t.dashboard_state.file_path.as_deref(), Some("o.ts"));
    assert_eq!(t.dashboard_state.transformed_path.as_deref(), Some("t.js"));
    let u = CheckpointTUI::new(Some("t.js".to_string()), Some("o.ts".to_string()), false, Activity::new());
    assert!(u.dashboard_state.file_path.is_none());
}
