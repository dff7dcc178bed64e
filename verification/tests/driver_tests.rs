use cinder::driver::{Driver, EventAction, LifecycleAction, WindowEventKind};
use cinder::input::{PhysicalKeyCode, RawKeyEvent};

const WINDOW: u64 = 7;

fn key_event(logical_escape: bool) -> WindowEventKind {
    WindowEventKind::KeyboardInput {
        event: RawKeyEvent {
            identity: 1,
            code: PhysicalKeyCode::Other,
            scancode: Some(30),
            text: Some("a".to_string()),
            logical_escape,
            pressed: true,
        },
    }
}

#[test]
fn first_resume_inits_state_then_surface() {
    let mut d = Driver::new(WINDOW);
    assert_eq!(d.resumed(), LifecycleAction::InitBoth);
}

#[test]
fn resume_after_suspend_reinits_surface_only() {
    let mut d = Driver::new(WINDOW);
    assert_eq!(d.resumed(), LifecycleAction::InitBoth);
    assert_eq!(d.suspended(), LifecycleAction::DropSurface);
    assert_eq!(d.resumed(), LifecycleAction::InitSurfaceOnly);
}

#[test]
fn idle_delivered_only_after_first_resume() {
    let mut d = Driver::new(WINDOW);
    assert_eq!(d.about_to_wait(), LifecycleAction::SkipIdle);
    d.resumed();
    assert_eq!(d.about_to_wait(), LifecycleAction::DeliverIdle);
    d.suspended();
    assert_eq!(d.about_to_wait(), LifecycleAction::DeliverIdle);
}

#[test]
fn other_windows_events_are_ignored() {
    let mut d = Driver::new(WINDOW);
    d.resumed();
    let a = d.window_event(WINDOW + 1, &WindowEventKind::CloseRequested);
    assert_eq!(a, EventAction::Ignore);
    let a = d.window_event(WINDOW + 1, &WindowEventKind::Resized { width: 10, height: 10 });
    assert_eq!(a, EventAction::Ignore);
}

#[test]
fn positive_resize_reconfigures_surface() {
    let mut d = Driver::new(WINDOW);
    d.resumed();
    let a = d.window_event(WINDOW, &WindowEventKind::Resized { width: 800, height: 600 });
    assert_eq!(a, EventAction::ResizeSurface { width: 800, height: 600 });
    let a = d.window_event(WINDOW, &WindowEventKind::RedrawRequested);
    assert_eq!(a, EventAction::Render { width: 800, height: 600 });
    match a {
        EventAction::Render { width, height } => {
            assert_eq!((width as usize) * (height as usize), 480_000);
        },
        _ => unreachable!(),
    }
}

#[test]
fn zero_resize_keeps_dimensions() {
    let mut d = Driver::new(WINDOW);
    d.resumed();
    d.window_event(WINDOW, &WindowEventKind::Resized { width: 800, height: 600 });
    let a = d.window_event(WINDOW, &WindowEventKind::Resized { width: 0, height: 600 });
    assert_eq!(a, EventAction::Ignore);
    let a = d.window_event(WINDOW, &WindowEventKind::Resized { width: 800, height: 0 });
    assert_eq!(a, EventAction::Ignore);
    let a = d.window_event(WINDOW, &WindowEventKind::RedrawRequested);
    assert_eq!(a, EventAction::Render { width: 800, height: 600 });
}

#[test]
fn resize_and_redraw_without_surface_are_reported() {
    let mut d = Driver::new(WINDOW);
    d.resumed();
    d.suspended();
    let a = d.window_event(WINDOW, &WindowEventKind::Resized { width: 10, height: 10 });
    assert_eq!(a, EventAction::ReportNoSurface);
    let a = d.window_event(WINDOW, &WindowEventKind::RedrawRequested);
    assert_eq!(a, EventAction::ReportNoSurface);
}

#[test]
fn close_request_exits() {
    let mut d = Driver::new(WINDOW);
    d.resumed();
    let a = d.window_event(WINDOW, &WindowEventKind::CloseRequested);
    assert_eq!(a, EventAction::Exit);
}

#[test]
fn escape_key_exits_other_keys_do_not() {
    let mut d = Driver::new(WINDOW);
    d.resumed();
    assert_eq!(d.window_event(WINDOW, &key_event(true)), EventAction::Exit);
    assert_eq!(d.window_event(WINDOW, &key_event(false)), EventAction::Ignore);
}

#[test]
fn unmatched_events_are_ignored() {
    let mut d = Driver::new(WINDOW);
    d.resumed();
    assert_eq!(d.window_event(WINDOW, &WindowEventKind::Other), EventAction::Ignore);
}

#[test]
fn new_surface_starts_unconfigured() {
    let mut d = Driver::new(WINDOW);
    d.resumed();
    d.window_event(WINDOW, &WindowEventKind::Resized { width: 64, height: 64 });
    d.suspended();
    d.resumed();
    let a = d.window_event(WINDOW, &WindowEventKind::RedrawRequested);
    assert_eq!(a, EventAction::Render { width: 0, height: 0 });
}
