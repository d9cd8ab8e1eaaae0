use mlsim_common::geom::Vec2Bits;
use mlsim_common::input::{InputEvent, InputState, Key, PtrButton};
use mlsim_common::Id;

fn p(x: u32, y: u32) -> Vec2Bits {
    Vec2Bits { x, y }
}

#[test]
fn input_state_records_events() {
    let mut s = InputState::default();
    assert!(s.ptr_gone());
    s.on_event(InputEvent::Hover(p(3, 4)));
    assert_eq!(s.ptr_pos(), p(3, 4));
    s.on_event(InputEvent::Press(p(3, 4), PtrButton::left()));
    assert!(s.ptr_down(PtrButton::left()));
    assert!(s.ptr_pressed(PtrButton::left()));
    assert!(!s.ptr_pressed(PtrButton::right()));
    s.on_event(InputEvent::Click(p(3, 4), PtrButton::right()));
    assert!(s.ptr_clicked(PtrButton::right()));
    assert_eq!(s.ptr_click(), Some((PtrButton::right(), p(3, 4))));
    s.on_event(InputEvent::PressKey(Key::Shift));
    assert!(s.key_pressed(Key::Shift));
    assert!(s.modifiers().shift);
    s.on_event(InputEvent::ReleaseKey(Key::Shift));
    assert!(!s.modifiers().shift);
    s.on_event(InputEvent::Type('q'));
    assert_eq!(s.char_press(), Some('q'));
    s.on_event(InputEvent::Paste(String::from("ab")));
    s.on_event(InputEvent::Paste(String::from("c")));
    assert_eq!(s.pasted_text(), "abc");
    s.on_event(InputEvent::PointerLeft);
    assert!(s.ptr_gone());
    assert_eq!(s.ptr_pos(), p(3, 4));
}

#[test]
fn input_state_frames_and_drags() {
    let mut s = InputState::default();
    s.on_event(InputEvent::Hover(p(1, 1)));
    s.on_event(InputEvent::Press(p(1, 1), PtrButton::left()));
    s.update_drag_hovered(Id(9), false, p(0, 0), PtrButton::left());
    assert!(s.get_drag_full(Id(9)).is_none());
    s.update_drag_hovered(Id(9), true, p(5, 5), PtrButton::left());
    let d = s.get_drag_full(Id(9)).unwrap();
    assert_eq!((d.anchor, d.press_pos, d.button), (p(5, 5), p(1, 1), PtrButton::left()));
    assert!(s.get_drag_full(Id(8)).is_none());
    s.update();
    assert!(s.ptr_press().is_none() && s.ptr_click().is_none());
    assert_eq!(s.prev_ptr_pos, Some(p(1, 1)));
    assert!(s.get_drag_full(Id(9)).is_some());
    s.on_event(InputEvent::Release(PtrButton::right()));
    assert!(s.get_drag_full(Id(9)).is_some());
    s.on_event(InputEvent::Release(PtrButton::left()));
    assert!(s.get_drag_full(Id(9)).is_none());
    assert!(!s.ptr_down(PtrButton::left()));
    let mut m = s.modifiers();
    m.cmd = true;
    s.set_modifiers(m);
    assert!(s.modifiers().cmd);
}
