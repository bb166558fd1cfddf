use purrtty::shell::{LoopAction, PurttyApp, Renderer, WindowSignal};

#[test]
fn one_window_is_made() {
    let mut app = PurttyApp::new();
    assert_eq!(app.resumed(), LoopAction::CreateWindow);
    assert_eq!(app.window_created(true), LoopAction::Continue);
    assert!(app.has_window);
    assert_eq!(app.resumed(), LoopAction::Continue);
}

#[test]
fn failure_to_make_the_window_exits() {
    let mut app = PurttyApp::new();
    assert_eq!(app.window_created(false), LoopAction::Exit);
    assert!(!app.has_window);
}

#[test]
fn closing_the_window_exits() {
    let app = PurttyApp::new();
    assert_eq!(app.window_event(WindowSignal::CloseRequested), LoopAction::Exit);
    let resized = WindowSignal::Resized { width: 1, height: 2 };
    assert_eq!(app.window_event(resized), LoopAction::Continue);
    assert_eq!(app.window_event(WindowSignal::RedrawRequested), LoopAction::Continue);
    assert_eq!(app.window_event(WindowSignal::Other), LoopAction::Continue);
}

#[test]
fn shell_renderer_has_one_value() {
    assert_eq!(format!("{:?}", Renderer::new()), format!("{:?}", Renderer::default()));
}
