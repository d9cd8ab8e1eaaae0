use mlsim_common::platform::{keyboard_change, main_event_action, os_name, FrameClock, MainAction, MainEvent};

#[test]
fn os_name_from_browser_version() {
    assert_eq!(os_name("5.0 (X11; Linux x86_64)"), "linux");
    assert_eq!(os_name("5.0 (X11; CrOS aarch64)"), "unix");
    assert_eq!(os_name("5.0 (Macintosh; Intel Mac OS X 10_15_7)"), "macos");
    assert_eq!(os_name("5.0 (Windows NT 10.0; Win64; x64)"), "windows");
    assert_eq!(os_name("5.0 (Windows; Mac)"), "macos");
    assert_eq!(os_name(""), "Unknown");
    assert_eq!(os_name("Li nux"), "Unknown");
}

#[test]
fn frame_clock_paces_and_counts() {
    assert!(!FrameClock::frame_due(16));
    assert!(FrameClock::frame_due(17));
    let mut c = FrameClock::default();
    assert!(!c.count_frame(0));
    assert!(!c.count_frame(0));
    assert_eq!((c.frame_count, c.fps), (2, 0));
    assert!(c.count_frame(1));
    assert_eq!((c.frame_count, c.fps), (0, 3));
}

#[test]
fn lifetime_events_and_keyboard() {
    assert_eq!(main_event_action(MainEvent::Pause), MainAction::Suspend);
    assert_eq!(main_event_action(MainEvent::Resume), MainAction::Resume);
    assert_eq!(main_event_action(MainEvent::InitWindow), MainAction::RenewSurface);
    assert_eq!(main_event_action(MainEvent::TerminateWindow), MainAction::DropWindow);
    assert_eq!(main_event_action(MainEvent::Destroy), MainAction::Exit);
    assert_eq!(main_event_action(MainEvent::Other), MainAction::Ignore);
    let mut showing = false;
    assert_eq!(keyboard_change(&mut showing, false), None);
    assert_eq!(keyboard_change(&mut showing, true), Some(true));
    assert!(showing);
    assert_eq!(keyboard_change(&mut showing, true), None);
}
