//! The main loop's decisions: what each multiplexed event asks of it.
use vstd::prelude::*;

verus! {

/// A key read from the terminal.
#[derive(Clone, Copy, Debug, PartialEq, Eq, Structural)]
pub enum Key {
    Char(char),
    Ctrl(char),
    Esc,
    /// Any other key.
    Other,
}

/// One event of the merged stream that drives the main loop.
#[derive(Clone, Copy, Debug, PartialEq, Eq, Structural)]
pub enum AppEvent {
    Key(Key),
    /// Terminal input that is not a key (a mouse event, say).
    OtherInput,
    /// The terminal changed size.
    Resize,
    /// The watched command completed a run.
    Update,
}

/// What the main loop does after an event.
#[derive(Clone, Copy, Debug, PartialEq, Eq, Structural)]
pub enum Action {
    Quit,
    Redraw,
    Nothing,
}

pub open spec fn is_quit_key(k: Key) -> bool {
    k == Key::Ctrl('c') || k == Key::Char('q') || k == Key::Esc
}

pub open spec fn is_help_key(k: Key) -> bool {
    k == Key::Char('h')
}

/// The action that follows `e`.
pub open spec fn action_for(e: AppEvent) -> Action {
    match e {
        AppEvent::Key(k) => if is_quit_key(k) {
            Action::Quit
        } else if is_help_key(k) {
            Action::Redraw
        } else {
            Action::Nothing
        },
        AppEvent::OtherInput => Action::Nothing,
        AppEvent::Resize | AppEvent::Update => Action::Redraw,
    }
}

/// The state of the view that events change.
pub struct UiState {
    pub show_help: bool,
}

impl UiState {
    pub fn new() -> (r: Self)
        ensures
            !r.show_help,
    {
        UiState { show_help: false }
    }

    /// Handles one event: quit keys end the loop, the help key toggles the
    /// help window, resizes and command updates ask for a redraw, and all
    /// other input is ignored.
    pub fn process_event(&mut self, e: AppEvent) -> (r: Action)
        ensures
            r == action_for(e),
            final(self).show_help == (if e == AppEvent::Key(Key::Char('h')) {
                !old(self).show_help
            } else {
                old(self).show_help
            }),
    {
        match e {
            AppEvent::Key(k) => {
                if k == Key::Ctrl('c') || k == Key::Char('q') || k == Key::Esc {
                    Action::Quit
                } else if k == Key::Char('h') {
                    self.show_help = !self.show_help;
                    Action::Redraw
                } else {
                    Action::Nothing
                }
            },
            AppEvent::OtherInput => Action::Nothing,
            AppEvent::Resize | AppEvent::Update => Action::Redraw,
        }
    }
}

} // verus!
