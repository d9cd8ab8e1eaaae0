use mlsim_common::graphics::{split_first, Align, Align2, Color, FontKey, Interaction, PainterOutput};
use mlsim_common::input::{edit_text_field, Key, Modifiers, PtrButton, TextInputState};
use mlsim_common::storage::{decode_nibbles, encode_nibbles, load_stored};
use mlsim_common::{Id, UiTheme};
use std::hash::{Hash, Hasher};

fn field(text: &str, cursor: u32) -> TextInputState {
    TextInputState { blink_timer: 0, id: Id(7), text: String::from(text), cursor, compose: None }
}

#[test]
fn split_first_examples() {
    assert_eq!(split_first("Hello!"), Some(('H', "ello!")));
    assert_eq!(split_first("😃🤣<-"), Some(('😃', "🤣<-")));
    assert_eq!(split_first("😃"), Some(('😃', "")));
    assert_eq!(split_first("x"), Some(('x', "")));
    assert_eq!(split_first(""), None);
}

#[test]
fn color_channels_round_trip() {
    let c = Color::rgba(0x12, 0x34, 0x56, 0x78);
    assert_eq!(c.0, 0x12345678);
    assert_eq!((c.r(), c.g(), c.b(), c.a()), (0x12, 0x34, 0x56, 0x78));
    assert_eq!(Color::rgb(1, 2, 3).0, 0x010203FF);
    assert_eq!(Color::shade(9).0, 0x090909FF);
    assert_eq!(Color::default().0, 0);
}

#[test]
fn named_colors_and_alignments() {
    assert_eq!(Color::white().0, 0xFFFFFFFF);
    assert_eq!(Color::black().0, 0x000000FF);
    assert_eq!(Color::red().r(), 255);
    assert_eq!(Color::green().g(), 255);
    assert_eq!(Color::blue().b(), 255);
    assert_eq!(Color::yellow().0, 0xFFFF00FF);
    assert_eq!(Color::magenta().0, 0xFF00FFFF);
    assert_eq!(Color::cyan().0, 0x00FFFFFF);
    assert_eq!(Color::pink().0, 0xFC88A3FF);
    assert_eq!(Color::orange().0, 0xFF5F00FF);
    assert_eq!(Color::mango().0, 0xFF9900FF);
    assert_eq!(Color::white().inv().0, Color::black().0);
    assert_eq!(Align2::top_left(), Align2::min());
    assert_eq!(Align2::top_center(), Align2 { x: Align::Min, y: Align::Center });
    assert_eq!(Align2::top_right(), Align2 { x: Align::Max, y: Align::Min });
    assert_eq!(Align2::center_left(), Align2 { x: Align::Min, y: Align::Center });
    assert_eq!(Align2::center_right(), Align2 { x: Align::Max, y: Align::Center });
    assert_eq!(Align2::bottom_left(), Align2 { x: Align::Min, y: Align::Max });
    assert_eq!(Align2::bottom_center(), Align2 { x: Align::Center, y: Align::Max });
    assert_eq!(Align2::bottom_right(), Align2 { x: Align::Max, y: Align::Max });
}

#[test]
fn color_inv_and_darken() {
    let c = Color::rgba(10, 200, 255, 7);
    assert_eq!(c.inv().0, Color::rgba(245, 55, 0, 7).0);
    assert_eq!(c.inv().inv().0, c.0);
    assert_eq!(c.darken(20).0, Color::rgba(0, 180, 235, 7).0);
    assert_eq!(c.darken(0).0, c.0);
}

#[test]
fn small_ui_types() {
    let f = FontKey::new("mono", 12, true, false);
    assert_eq!((f.name, f.size, f.bold, f.italic), ("mono", 12, true, false));
    assert_eq!(Align::default(), Align::Min);
    assert_eq!(Align2::default(), Align2::min());
    assert_eq!(Align2::center().x, Align::Center);
    let i = Interaction::default();
    assert!(!i.clicked && !i.hovered && i.color.0 == 0);
    assert!(PainterOutput::default().text_input.is_none());
    assert_ne!(UiTheme::Light, UiTheme::Dark);
}

#[test]
fn modifiers_follow_modifier_keys() {
    let mut m = Modifiers::default();
    m.update(Key::Shift, true);
    m.update(Key::Command, true);
    assert!(m.shift && m.cmd && !m.option && !m.os);
    m.update(Key::Shift, false);
    m.update(Key::Space, true);
    assert!(!m.shift && m.cmd);
    m.update(Key::Super, true);
    m.update(Key::Option, true);
    assert!(m.os && m.option);
}

#[test]
fn ptr_buttons() {
    assert_eq!(PtrButton::new(4), PtrButton::back());
    assert_eq!(PtrButton::left().0, 0);
    assert_eq!(PtrButton::right().0, 2);
    assert_eq!(u16::from(PtrButton::middle()), 1);
    assert_eq!(usize::from(PtrButton::forward()), 3);
}

#[test]
fn text_edit_keys() {
    let mut f = field("abc", 1);
    f.apply_edit("", Some(Key::Backspace), None, 5);
    assert_eq!((f.text.as_str(), f.cursor, f.blink_timer), ("bc", 0, 5));
    f.apply_edit("", Some(Key::Backspace), None, 6);
    assert_eq!((f.text.as_str(), f.cursor, f.blink_timer), ("bc", 0, 6));
    f.apply_edit("", Some(Key::Space), None, 7);
    assert_eq!((f.text.as_str(), f.cursor), (" bc", 1));
    f.apply_edit("", Some(Key::Tab), None, 7);
    assert_eq!((f.text.as_str(), f.cursor), (" \tbc", 2));
    f.apply_edit("", Some(Key::End), None, 7);
    assert_eq!(f.cursor, 4);
    f.apply_edit("", Some(Key::Right), None, 7);
    assert_eq!(f.cursor, 4);
    f.apply_edit("", Some(Key::Left), None, 7);
    assert_eq!(f.cursor, 3);
    f.apply_edit("", Some(Key::Home), None, 7);
    assert_eq!(f.cursor, 0);
    f.apply_edit("", Some(Key::Left), None, 7);
    assert_eq!(f.cursor, 0);
    f.apply_edit("", None, Some('x'), 8);
    assert_eq!((f.text.as_str(), f.cursor, f.blink_timer), ("x \tbc", 1, 8));
    f.apply_edit("", Some(Key::F1), Some('y'), 9);
    assert_eq!((f.text.as_str(), f.cursor), ("xy \tbc", 2));
    f.apply_edit("", Some(Key::Enter), None, 10);
    assert_eq!((f.text.as_str(), f.cursor, f.blink_timer), ("xy \tbc", 2, 9));
}

#[test]
fn text_edit_paste_appends_at_end() {
    let mut f = field("ab", 1);
    f.apply_edit("cd", None, None, 3);
    assert_eq!((f.text.as_str(), f.cursor, f.blink_timer), ("abcd", 1, 3));
    f.apply_edit("é", None, Some('z'), 4);
    assert_eq!(f.text, "azbcdé");
}

#[test]
fn text_edit_non_ascii_boundaries() {
    let mut f = field("é", 2);
    f.apply_edit("", None, Some('a'), 1);
    assert_eq!((f.text.as_str(), f.cursor), ("éa", 3));
    f.apply_edit("", Some(Key::Backspace), None, 1);
    assert_eq!((f.text.as_str(), f.cursor), ("é", 2));
}

#[test]
fn text_field_focus_and_edit() {
    let mut text = String::from("hi");
    let (active, focused) = edit_text_field(None, Id(1), &mut text, true, false, "", None, Some('!'), 50);
    assert!(!focused);
    let f = active.unwrap();
    assert_eq!((f.id, f.text.as_str(), f.cursor, f.blink_timer), (Id(1), "hi", 2, 50));
    assert_eq!(text, "hi");
    let (active, focused) = edit_text_field(Some(f), Id(1), &mut text, false, false, "", None, Some('!'), 55);
    assert!(focused);
    let f = active.unwrap();
    assert_eq!((f.text.as_str(), f.cursor, f.blink_timer), ("hi!", 3, 55));
    assert_eq!(text, "hi!");
    let (active, focused) = edit_text_field(Some(f), Id(1), &mut text, false, false, "", Some(Key::Backspace), None, 60);
    assert!(focused);
    assert_eq!(text, "hi");
    let (active, focused) = edit_text_field(active, Id(2), &mut text, false, true, "", None, Some('q'), 70);
    assert!(!focused);
    assert!(active.is_some());
    assert_eq!(text, "hi");
    let (active, focused) = edit_text_field(active, Id(1), &mut text, false, true, "", None, None, 80);
    assert!(!focused && active.is_none());
}

#[test]
fn text_field_blink() {
    let mut f = field("", 0);
    assert!(f.blink(100));
    assert_eq!(f.blink_timer, 0);
    assert!(!f.blink(500));
    assert!(!f.blink(900));
    assert_eq!(f.blink_timer, 900);
    let g = TextInputState::focused(Id(3), &String::from("héllo"), 12);
    assert_eq!((g.cursor, g.blink_timer), (6, 12));
}

#[test]
fn nibbles_round_trip() {
    let data = vec![0b1101_0011u8, 0b0000_1001, 0xFF, 0];
    let wide = encode_nibbles(&data);
    assert_eq!(wide, vec![0b0011, 0b1101, 0b1001, 0b0000, 0xF, 0xF, 0, 0]);
    assert!(std::str::from_utf8(&wide).is_ok());
    assert_eq!(decode_nibbles(&wide), data);
    assert!(encode_nibbles(&[]).is_empty());
    assert_eq!(decode_nibbles(&[1, 2]), vec![0x21]);
}

#[test]
fn id_is_the_default_hash() {
    let mut h = std::collections::hash_map::DefaultHasher::new();
    5u32.hash(&mut h);
    assert_eq!(Id::new(5).0, h.finish());
    assert_ne!(Id::new(5), Id::new(6));
    assert_eq!(Id::default().0, 0);
}

#[test]
fn load_stored_round_trips_and_reports_missing() {
    let data: Vec<u8> = vec![0b1101_0011, 0b0000_1001, 0xFF, 0];
    let stored = encode_nibbles(&data);
    assert_eq!(stored, vec![0b0011, 0b1101, 0b1001, 0, 0xF, 0xF, 0, 0]);
    assert_eq!(load_stored(Some(stored)), Some(data));
    assert_eq!(load_stored(None), None);
    assert_eq!(load_stored(Some(vec![])), Some(vec![]));
}

#[test]
fn text_field_click_on_focused_field_restarts_at_end() {
    let mut text = String::from("abc");
    let (active, focused) = edit_text_field(Some(field("abc", 1)), Id(7), &mut text, true, false, "", Some(Key::Home), None, 5);
    assert!(focused);
    let f = active.unwrap();
    assert_eq!((f.cursor, f.blink_timer), (0, 5));
    let mut other = String::from("xyz");
    let (active, focused) = edit_text_field(None, Id(7), &mut other, true, false, "", Some(Key::Home), None, 9);
    assert!(!focused);
    assert_eq!(active.unwrap().cursor, 3);
}
