//! The control loop's decision table: what one decoded menu action does,
//! given the entry under the cursor. The loop outside the core performs
//! the step — it polls the keyboard, runs the storage listing, and drives
//! the flasher — but which step to take is decided here.
use vstd::prelude::*;

use crate::menu::{MenuAction, MenuItem};

verus! {

/// The step the loop performs for one tick's input.
#[derive(Clone, Debug)]
pub enum ControlStep {
    /// No key, or a key with no meaning here.
    Idle,
    /// Move the selection up.
    MoveUp,
    /// Move the selection down.
    MoveDown,
    /// List the current directory again.
    RefreshListing,
    /// Step back to the parent directory and, if that moved, refresh.
    NavigateBack,
    /// Enter this directory and refresh.
    EnterDirectory(String),
    /// Validate and flash this application image.
    LaunchApp(String),
}

/// The decision table: navigation keys map directly; selecting an entry
/// dispatches on its kind, and selecting nothing does nothing.
pub open spec fn spec_control_step(
    action: Option<MenuAction>,
    selected: Option<MenuItem>,
) -> ControlStep {
    match action {
        None => ControlStep::Idle,
        Some(MenuAction::Up) => ControlStep::MoveUp,
        Some(MenuAction::Down) => ControlStep::MoveDown,
        Some(MenuAction::Refresh) => ControlStep::RefreshListing,
        Some(MenuAction::Back) => ControlStep::NavigateBack,
        Some(MenuAction::Select) => match selected {
            None => ControlStep::Idle,
            Some(MenuItem::Back) => ControlStep::NavigateBack,
            Some(MenuItem::Dir(p)) => ControlStep::EnterDirectory(p),
            Some(MenuItem::App(p)) => ControlStep::LaunchApp(p),
        },
    }
}

/// Decides the step for one tick.
pub fn control_step(action: Option<MenuAction>, selected: Option<&MenuItem>) -> (r: ControlStep)
    ensures
        r == spec_control_step(
            action,
            match selected {
                Some(item) => Some(*item),
                None => None,
            },
        ),
{
    match action {
        None => ControlStep::Idle,
        Some(MenuAction::Up) => ControlStep::MoveUp,
        Some(MenuAction::Down) => ControlStep::MoveDown,
        Some(MenuAction::Refresh) => ControlStep::RefreshListing,
        Some(MenuAction::Back) => ControlStep::NavigateBack,
        Some(MenuAction::Select) => match selected {
            None => ControlStep::Idle,
            Some(MenuItem::Back) => ControlStep::NavigateBack,
            Some(MenuItem::Dir(p)) => ControlStep::EnterDirectory(p.clone()),
            Some(MenuItem::App(p)) => ControlStep::LaunchApp(p.clone()),
        },
    }
}

} // verus!
