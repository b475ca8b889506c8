//! Keyboard commands of the terminal interface.
use vstd::prelude::*;

verus! {

/// Actions a key can ask for.
#[derive(Debug, Clone, Copy, PartialEq, Eq)]
pub enum InputAction {
    Quit,
    ToggleMeasurement,
    Reload,
    NextSensor,
    PrevSensor,
    ToggleSensor,
    ClearCharts,
    ToggleHelp,
    /// The key asks for nothing.
    NoAction,
}

/// A key, as far as the commands tell keys apart.
#[derive(Debug, Clone, Copy, PartialEq, Eq)]
pub enum Key {
    Char(char),
    Esc,
    Up,
    Down,
    Enter,
    F(u8),
    Other,
}

/// A key press with the state of the Control modifier.
#[derive(Debug, Clone, Copy, PartialEq, Eq)]
pub struct KeyPress {
    pub key: Key,
    pub ctrl: bool,
}

/// The action of a key press.
pub open spec fn spec_action(k: KeyPress) -> InputAction {
    match k.key {
        Key::Char(c) => if c == 'q' || c == 'Q' || (c == 'c' && k.ctrl) {
            InputAction::Quit
        } else if c == ' ' || c == 'p' || c == 'P' {
            InputAction::ToggleMeasurement
        } else if c == 'r' || c == 'R' {
            InputAction::Reload
        } else if c == 'k' || c == 'K' {
            InputAction::PrevSensor
        } else if c == 'j' || c == 'J' {
            InputAction::NextSensor
        } else if c == 'd' || c == 'D' {
            InputAction::ToggleSensor
        } else if c == 'c' || c == 'C' {
            InputAction::ClearCharts
        } else if c == '?' || c == 'h' || c == 'H' {
            InputAction::ToggleHelp
        } else {
            InputAction::NoAction
        },
        Key::Esc => InputAction::Quit,
        Key::Up => InputAction::PrevSensor,
        Key::Down => InputAction::NextSensor,
        Key::Enter => InputAction::ToggleSensor,
        Key::F(n) => if n == 1 {
            InputAction::ToggleHelp
        } else {
            InputAction::NoAction
        },
        Key::Other => InputAction::NoAction,
    }
}

/// Maps a key press to its action.
pub fn map_key_to_action(k: KeyPress) -> (a: InputAction)
    ensures
        a == spec_action(k),
{
    match k.key {
        Key::Char(c) => {
            if c == 'q' || c == 'Q' || (c == 'c' && k.ctrl) {
                InputAction::Quit
            } else if c == ' ' || c == 'p' || c == 'P' {
                InputAction::ToggleMeasurement
            } else if c == 'r' || c == 'R' {
                InputAction::Reload
            } else if c == 'k' || c == 'K' {
                InputAction::PrevSensor
            } else if c == 'j' || c == 'J' {
                InputAction::NextSensor
            } else if c == 'd' || c == 'D' {
                InputAction::ToggleSensor
            } else if c == 'c' || c == 'C' {
                InputAction::ClearCharts
            } else if c == '?' || c == 'h' || c == 'H' {
                InputAction::ToggleHelp
            } else {
                InputAction::NoAction
            }
        },
        Key::Esc => InputAction::Quit,
        Key::Up => InputAction::PrevSensor,
        Key::Down => InputAction::NextSensor,
        Key::Enter => InputAction::ToggleSensor,
        Key::F(n) => {
            if n == 1 {
                InputAction::ToggleHelp
            } else {
                InputAction::NoAction
            }
        },
        Key::Other => InputAction::NoAction,
    }
}

} // verus!
