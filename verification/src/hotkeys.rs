//! Key handling: the system-level escape combination and the mapping from
//! a pressed key to a menu action. The keyboard scanner itself lives in
//! the platform adapter; it hands the core plain key values.
use vstd::prelude::*;

use crate::menu::MenuAction;

verus! {

/// The keys the core reacts to; everything else scans as `Other`.
#[derive(Clone, Copy, Debug, PartialEq, Eq, Structural)]
pub enum Key {
    Ctrl,
    Backspace,
    Semicolon,
    W,
    Period,
    S,
    Enter,
    Slash,
    Tab,
    Fn,
    Other,
}

/// A system-level action decoded from the currently held keys.
#[derive(Debug, Clone, Copy, PartialEq, Eq, Structural)]
pub enum SystemAction {
    ReturnToOs,
}

/// Decodes the reserved two-key escape: Ctrl+Backspace held together
/// returns control to the resident loader, and nothing else does.
pub fn action_from_keys(keys: &Vec<Key>) -> (r: Option<SystemAction>)
    ensures
        r == (if keys@.contains(Key::Ctrl) && keys@.contains(Key::Backspace) {
            Some(SystemAction::ReturnToOs)
        } else {
            None::<SystemAction>
        }),
{
    let mut has_ctrl = false;
    let mut has_backspace = false;
    let mut i: usize = 0;
    while i < keys.len()
        invariant
            i <= keys@.len(),
            has_ctrl == keys@.subrange(0, i as int).contains(Key::Ctrl),
            has_backspace == keys@.subrange(0, i as int).contains(Key::Backspace),
        decreases keys@.len() - i,
    {
        let ghost before = keys@.subrange(0, i as int);
        let ghost after = keys@.subrange(0, i + 1);
        proof {
            assert(after.drop_last() =~= before);
            assert(after.last() == keys@[i as int]);
            assert(forall|k: Key| after.contains(k) <==> before.contains(k) || after.last() == k)
                by {
                assert(forall|k: Key|
                    before.contains(k) ==> exists|j: int|
                        0 <= j < after.len() && after[j] == k && after[j] == before[j]);
            }
        }
        match keys[i] {
            Key::Ctrl => {
                has_ctrl = true;
            },
            Key::Backspace => {
                has_backspace = true;
            },
            _ => {},
        }
        i = i + 1;
    }
    proof {
        assert(keys@.subrange(0, keys@.len() as int) =~= keys@);
    }
    if has_ctrl && has_backspace {
        Some(SystemAction::ReturnToOs)
    } else {
        None
    }
}

/// Maps one pressed key to its menu action, if it has one.
pub fn menu_action_for(key: Key) -> (r: Option<MenuAction>)
    ensures
        r == (match key {
            Key::Semicolon | Key::W => Some(MenuAction::Up),
            Key::Period | Key::S => Some(MenuAction::Down),
            Key::Enter => Some(MenuAction::Select),
            Key::Backspace | Key::Slash => Some(MenuAction::Back),
            Key::Tab | Key::Fn => Some(MenuAction::Refresh),
            _ => None::<MenuAction>,
        }),
{
    match key {
        Key::Semicolon | Key::W => Some(MenuAction::Up),
        Key::Period | Key::S => Some(MenuAction::Down),
        Key::Enter => Some(MenuAction::Select),
        Key::Backspace | Key::Slash => Some(MenuAction::Back),
        Key::Tab | Key::Fn => Some(MenuAction::Refresh),
        _ => None,
    }
}

} // verus!
