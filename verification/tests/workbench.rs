use checkpoint_ts::tui::{KeyCode, KeyPress};
use checkpoint_ts::workbench::app::{Note, Scene, TuiApp, WorkbenchAction};
use checkpoint_ts::workbench::dashboard::{DashboardState, FunctionStatus, TimelineFunction};

fn key(c: char) -> KeyPress {
    KeyPress { code: KeyCode::Char(c), control: false, other_modifiers: false }
}

#[test]
fn sample_session() {
    let d = DashboardState::new();
    assert_eq!(d.runtime, "Bun v1.3.2");
    assert_eq!(d.timeline_functions.len(), 5);
    assert_eq!(d.timeline_functions[4].name, "calculateTax");
    assert_eq!(d.timeline_functions[4].status, FunctionStatus::Current);
    assert_eq!(d.logs.len(), 3);
}

#[test]
fn checkpoint_and_status_are_logged() {
    let mut d = DashboardState::new();
    d.set_current_checkpoint("calc".to_string(), 45, Some("main".to_string()));
    assert_eq!(d.current_line, Some(45));
    assert!(d.logs.last().unwrap().ends_with("] Paused at calc() line 45"));
    d.set_status("Running".to_string());
    assert_eq!(d.status, "Running");
    assert!(d.logs.last().unwrap().ends_with("] Status: Running"));
    for i in 0..200 {
        d.add_log(format!("{}", i));
    }
    assert_eq!(d.logs.len(), 100);
}

#[test]
fn timeline_updates_the_first_match() {
    let mut d = DashboardState::new();
    d.add_timeline_function(TimelineFunction {
        name: "initApp".to_string(),
        status: FunctionStatus::Pending,
        duration: None,
    });
    d.update_function_status("initApp", FunctionStatus::Skipped, Some("1ms".to_string()));
    assert_eq!(d.timeline_functions[0].status, FunctionStatus::Skipped);
    assert_eq!(d.timeline_functions[5].status, FunctionStatus::Pending);
    d.update_function_status("nothing", FunctionStatus::Completed, None);
    assert_eq!(d.timeline_functions.len(), 6);
    d.update_execution_time("3s".to_string());
    assert_eq!(d.execution_time, "3s");
}

#[test]
fn workbench_scene_keys() {
    let mut app = TuiApp::new(Some("main.ts".to_string()));
    assert_eq!(app.dashboard_state.file_path.as_deref(), Some("main.ts"));
    assert_eq!(app.key_action(key('s')), WorkbenchAction::Open(Scene::FunctionSkip));
    app.handle_key_event(key('s'));
    assert_eq!(app.current_scene, Scene::FunctionSkip);
    assert_eq!(app.key_action(key('c')), WorkbenchAction::NoteAndBack(Note::ContinueNormal));
    app.handle_key_event(KeyPress { code: KeyCode::Enter, control: false, other_modifiers: false });
    assert_eq!(app.current_scene, Scene::Dashboard);
    assert!(app.dashboard_state.logs.last().unwrap().ends_with("] Navigated back to Dashboard"));
    let n = app.dashboard_state.logs.len();
    assert!(app.dashboard_state.logs[n - 2].ends_with("] Function skipped with selected option"));
    app.handle_key_event(key('h'));
    app.handle_key_event(key('r'));
    assert!(app.dashboard_state.logs.last().unwrap().ends_with("] Replay from selected point"));
    app.handle_key_event(KeyPress { code: KeyCode::Char('c'), control: true, other_modifiers: false });
    assert_eq!(app.current_scene, Scene::Dashboard);
    app.handle_key_event(KeyPress { code: KeyCode::Char('c'), control: true, other_modifiers: true });
    assert!(app.running);
    assert!(app.dashboard_state.logs.last().unwrap().ends_with("] Continue execution"));
    app.handle_key_event(KeyPress { code: KeyCode::Char('C'), control: true, other_modifiers: false });
    assert!(!app.running);
}

#[test]
fn call_stack_continue_goes_back() {
    let mut app = TuiApp::new(None);
    app.navigate_to(Scene::CallStack);
    app.handle_key_event(key('v'));
    assert_eq!(app.current_scene, Scene::VariableEditor);
    assert_eq!(app.scene_stack, vec![Scene::Dashboard, Scene::CallStack]);
    app.handle_key_event(key('q'));
    app.handle_key_event(key('c'));
    assert_eq!(app.current_scene, Scene::Dashboard);
    app.handle_key_event(KeyPress { code: KeyCode::Esc, control: false, other_modifiers: false });
    assert!(!app.running);
}
