use mlsim_common::keymap::{backspace_event, combined_key, key_step, KeyAction, KeyLookup, KeyMapChar, KeyStep};

#[test]
fn delete_key_gives_backspace_events() {
    assert_eq!(backspace_event(KeyAction::Down), Some(true));
    assert_eq!(backspace_event(KeyAction::Up), Some(false));
    assert_eq!(backspace_event(KeyAction::Multiple), None);
}

#[test]
fn dead_key_combines_with_next_character() {
    let mut accent = None;
    let step = key_step(&mut accent, KeyAction::Down, KeyLookup::Found(KeyMapChar::CombiningAccent('´')));
    assert_eq!(step, KeyStep::Done(Some(KeyMapChar::CombiningAccent('´'))));
    assert_eq!(accent, Some('´'));
    let step = key_step(&mut accent, KeyAction::Down, KeyLookup::Found(KeyMapChar::Unicode('e')));
    assert_eq!(step, KeyStep::Combine('´', 'e'));
    assert_eq!(accent, None);
    assert_eq!(combined_key(Ok(Some('é'))), Some(KeyMapChar::Unicode('é')));
    assert_eq!(combined_key(Ok(None)), None);
    assert_eq!(combined_key(Err(())), None);
}

#[test]
fn plain_keys_and_failures() {
    let mut accent = None;
    assert_eq!(
        key_step(&mut accent, KeyAction::Down, KeyLookup::Found(KeyMapChar::Unicode('a'))),
        KeyStep::Done(Some(KeyMapChar::Unicode('a')))
    );
    assert_eq!(key_step(&mut accent, KeyAction::Up, KeyLookup::Found(KeyMapChar::Unicode('a'))), KeyStep::Done(None));
    let mut accent = Some('`');
    assert_eq!(key_step(&mut accent, KeyAction::Down, KeyLookup::Found(KeyMapChar::NoChar)), KeyStep::Done(None));
    assert_eq!(accent, Some('`'));
    assert_eq!(
        key_step(&mut accent, KeyAction::Up, KeyLookup::Found(KeyMapChar::CombiningAccent('^'))),
        KeyStep::Done(Some(KeyMapChar::CombiningAccent('^')))
    );
    assert_eq!(accent, Some('`'));
    assert_eq!(key_step(&mut accent, KeyAction::Down, KeyLookup::Failed), KeyStep::Done(None));
    assert_eq!(accent, None);
}
