use vstd::prelude::*;

verus! {

/// What a device's key character map gives for a key: a Unicode character,
/// an accent of a dead key that combines with the next character, or nothing.
#[derive(Clone, Copy, PartialEq, Eq, Debug, Structural)]
pub enum KeyMapChar {
    Unicode(char),
    CombiningAccent(char),
    NoChar,
}

/// Whether a key went down or up (or repeated).
#[derive(Clone, Copy, PartialEq, Eq, Debug, Structural)]
pub enum KeyAction {
    Down,
    Up,
    Multiple,
}

/// The outcome of looking a key up in the key character map.
#[derive(Clone, Copy, PartialEq, Eq, Debug, Structural)]
pub enum KeyLookup {
    Found(KeyMapChar),
    Failed,
}

/// The first step of mapping a key: either the character is known, or the
/// pending accent has to be combined with a character (by the key map).
#[derive(Clone, Copy, PartialEq, Eq, Debug, Structural)]
pub enum KeyStep {
    Done(Option<KeyMapChar>),
    Combine(char, char),
}

/// The backspace event the delete key gives: pressed when it goes down,
/// released when it goes up, none for a repeat.
pub fn backspace_event(action: KeyAction) -> (r: Option<bool>)
    ensures
        r == (match action {
            KeyAction::Down => Some(true),
            KeyAction::Up => Some(false),
            KeyAction::Multiple => None,
        }),
{
    match action {
        KeyAction::Down => Some(true),
        KeyAction::Up => Some(false),
        KeyAction::Multiple => None,
    }
}

/// Maps a key from the pending dead-key accent, the key's action and its
/// lookup: a character on key down is given as it is, or is to be combined
/// with the pending accent, which is then cleared (nothing is given on key
/// up); an accent is given and, on key down, becomes pending; a key with no
/// character gives nothing and keeps the accent; a failed lookup gives nothing
/// and clears it.
pub fn key_step(accent: &mut Option<char>, action: KeyAction, lookup: KeyLookup) -> (r: KeyStep)
    ensures
        match lookup {
            KeyLookup::Found(KeyMapChar::Unicode(u)) => if action == KeyAction::Down {
                *final(accent) == None::<char> && r == (match *old(accent) {
                    Some(a) => KeyStep::Combine(a, u),
                    None => KeyStep::Done(Some(KeyMapChar::Unicode(u))),
                })
            } else {
                *final(accent) == *old(accent) && r == KeyStep::Done(None)
            },
            KeyLookup::Found(KeyMapChar::CombiningAccent(a)) => r == KeyStep::Done(Some(KeyMapChar::CombiningAccent(a)))
                && *final(accent) == (if action == KeyAction::Down { Some(a) } else { *old(accent) }),
            KeyLookup::Found(KeyMapChar::NoChar) => r == KeyStep::Done(None) && *final(accent) == *old(accent),
            KeyLookup::Failed => r == KeyStep::Done(None) && *final(accent) == None::<char>,
        },
{
    match lookup {
        KeyLookup::Found(KeyMapChar::Unicode(u)) => {
            if action == KeyAction::Down {
                let step = match *accent {
                    Some(a) => KeyStep::Combine(a, u),
                    None => KeyStep::Done(Some(KeyMapChar::Unicode(u))),
                };
                *accent = None;
                step
            } else {
                KeyStep::Done(None)
            }
        },
        KeyLookup::Found(KeyMapChar::CombiningAccent(a)) => {
            if action == KeyAction::Down {
                *accent = Some(a);
            }
            KeyStep::Done(Some(KeyMapChar::CombiningAccent(a)))
        },
        KeyLookup::Found(KeyMapChar::NoChar) => KeyStep::Done(None),
        KeyLookup::Failed => {
            *accent = None;
            KeyStep::Done(None)
        },
    }
}

/// The character a combination of an accent with a character gives: the
/// combined character when the key map has one, else nothing.
pub fn combined_key(dead: Result<Option<char>, ()>) -> (r: Option<KeyMapChar>)
    ensures
        r == (match dead {
            Ok(Some(k)) => Some(KeyMapChar::Unicode(k)),
            _ => None,
        }),
{
    match dead {
        Ok(Some(k)) => Some(KeyMapChar::Unicode(k)),
        _ => None,
    }
}

} // verus!
