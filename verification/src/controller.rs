//! Events, key bindings, and the mode-keyed routing table.
//!
//! The input layer delivers discrete events; each is applied in one step.
//! A key stands for the same command in every mode; the routing table then
//! decides what the command does: navigation commands drive the revision
//! window only while browsing the record list, the detail window only while
//! browsing a record's detail, and nothing at all in the log overlay or
//! once the session is over.

use vstd::prelude::*;

use crate::model::{
    mv_decrement, mv_diff_decrement, mv_diff_first, mv_diff_increment, mv_diff_last,
    mv_diff_page_back, mv_diff_page_forward, mv_first, mv_increment, mv_last, AppModel, AppState,
    ModelView,
};

verus! {

/// An event delivered to the engine by the input layer.
pub enum Event<I> {
    /// An input arrived.
    Input(I),
    /// The event source failed; the session ends.
    Failure,
    /// A timer tick; the engine ignores it.
    Tick,
}

/// A key press, as the input layer reports it.
#[derive(Clone, Copy, PartialEq, Eq, Structural, Debug)]
pub enum Key {
    /// A plain character key.
    Char(char),
    /// A character key with the control modifier held.
    CtrlChar(char),
    Up,
    Down,
    Tab,
    PageUp,
    PageDown,
    /// Any key the bindings do not name.
    Other,
}

/// A command of the engine: navigation, a mode toggle, or quitting.
#[derive(Clone, Copy, PartialEq, Eq, Structural, Debug)]
pub enum Command {
    First,
    Last,
    Increment,
    Decrement,
    PageForward,
    PageBack,
    /// Alternates between the record list and the detail pane.
    ToggleDetail,
    /// Enters the log overlay, or leaves it for the record list.
    ToggleLog,
    Quit,
}

/// The key bindings: which command a key stands for.  The same binding
/// holds in every mode; the routing table decides what the command does.
pub open spec fn spec_key_command(key: Key) -> Option<Command> {
    match key {
        Key::Char(c) => if c == 'q' {
            Some(Command::Quit)
        } else if c == 'g' {
            Some(Command::First)
        } else if c == 'G' {
            Some(Command::Last)
        } else if c == 'j' {
            Some(Command::Increment)
        } else if c == 'k' {
            Some(Command::Decrement)
        } else if c == 'l' {
            Some(Command::ToggleLog)
        } else {
            None
        },
        Key::CtrlChar(c) => if c == 'f' {
            Some(Command::PageForward)
        } else if c == 'b' {
            Some(Command::PageBack)
        } else {
            None
        },
        Key::Up => Some(Command::Decrement),
        Key::Down => Some(Command::Increment),
        Key::Tab => Some(Command::ToggleDetail),
        Key::PageUp => Some(Command::PageBack),
        Key::PageDown => Some(Command::PageForward),
        Key::Other => None,
    }
}

/// The key bindings, as executable code.
pub fn key_command(key: Key) -> (r: Option<Command>)
    ensures
        r == spec_key_command(key),
{
    match key {
        Key::Char(c) => if c == 'q' {
            Some(Command::Quit)
        } else if c == 'g' {
            Some(Command::First)
        } else if c == 'G' {
            Some(Command::Last)
        } else if c == 'j' {
            Some(Command::Increment)
        } else if c == 'k' {
            Some(Command::Decrement)
        } else if c == 'l' {
            Some(Command::ToggleLog)
        } else {
            None
        },
        Key::CtrlChar(c) => if c == 'f' {
            Some(Command::PageForward)
        } else if c == 'b' {
            Some(Command::PageBack)
        } else {
            None
        },
        Key::Up => Some(Command::Decrement),
        Key::Down => Some(Command::Increment),
        Key::Tab => Some(Command::ToggleDetail),
        Key::PageUp => Some(Command::PageBack),
        Key::PageDown => Some(Command::PageForward),
        Key::Other => None,
    }
}

/// The routing table: what a command does in each mode.  Quitting works
/// from any mode; the toggles switch modes; navigation reaches the revision
/// window only in `Commits` and the detail window only in `Details`, and is
/// dropped in `Log` and `Finished`.
pub open spec fn mv_apply_command(v: ModelView, command: Command) -> ModelView {
    match command {
        Command::Quit => ModelView { app_state: AppState::Finished, ..v },
        Command::ToggleDetail => match v.app_state {
            AppState::Commits => ModelView { app_state: AppState::Details, ..v },
            AppState::Details => ModelView { app_state: AppState::Commits, ..v },
            AppState::Log => v,
            AppState::Finished => v,
        },
        Command::ToggleLog => match v.app_state {
            AppState::Commits => ModelView { app_state: AppState::Log, ..v },
            AppState::Details => ModelView { app_state: AppState::Log, ..v },
            AppState::Log => ModelView { app_state: AppState::Commits, ..v },
            AppState::Finished => v,
        },
        Command::First => match v.app_state {
            AppState::Commits => mv_first(v),
            AppState::Details => mv_diff_first(v),
            _ => v,
        },
        Command::Last => match v.app_state {
            AppState::Commits => mv_last(v),
            AppState::Details => mv_diff_last(v),
            _ => v,
        },
        Command::Increment => match v.app_state {
            AppState::Commits => mv_increment(v),
            AppState::Details => mv_diff_increment(v),
            _ => v,
        },
        Command::Decrement => match v.app_state {
            AppState::Commits => mv_decrement(v),
            AppState::Details => mv_diff_decrement(v),
            _ => v,
        },
        Command::PageForward => match v.app_state {
            AppState::Details => mv_diff_page_forward(v),
            _ => v,
        },
        Command::PageBack => match v.app_state {
            AppState::Details => mv_diff_page_back(v),
            _ => v,
        },
    }
}

/// What one event does to the engine.
pub open spec fn mv_apply_event(v: ModelView, event: Event<Key>) -> ModelView {
    match event {
        Event::Input(key) => match spec_key_command(key) {
            Some(command) => mv_apply_command(v, command),
            None => v,
        },
        Event::Failure => ModelView { app_state: AppState::Finished, ..v },
        Event::Tick => v,
    }
}

impl AppModel {
    /// Routes one command through the mode-keyed dispatch table.
    pub fn apply_command(&mut self, command: Command)
        requires
            old(self).wf(),
        ensures
            final(self).wf(),
            final(self)@ == mv_apply_command(old(self)@, command),
    {
        match command {
            Command::Quit => {
                self.set_app_state(AppState::Finished);
            },
            Command::ToggleDetail => {
                if self.state() == AppState::Commits {
                    self.set_app_state(AppState::Details);
                } else if self.state() == AppState::Details {
                    self.set_app_state(AppState::Commits);
                }
            },
            Command::ToggleLog => {
                if self.state() == AppState::Commits || self.state() == AppState::Details {
                    self.set_app_state(AppState::Log);
                } else if self.state() == AppState::Log {
                    self.set_app_state(AppState::Commits);
                }
            },
            Command::First => {
                if self.state() == AppState::Commits {
                    self.go_to_first_revision();
                } else if self.state() == AppState::Details {
                    self.go_to_first_diff_line();
                }
            },
            Command::Last => {
                if self.state() == AppState::Commits {
                    self.go_to_last_revision();
                } else if self.state() == AppState::Details {
                    self.go_to_last_diff_line();
                }
            },
            Command::Increment => {
                if self.state() == AppState::Commits {
                    self.increment_revision();
                } else if self.state() == AppState::Details {
                    self.increment_diff_line();
                }
            },
            Command::Decrement => {
                if self.state() == AppState::Commits {
                    self.decrement_revision();
                } else if self.state() == AppState::Details {
                    self.decrement_diff_line();
                }
            },
            Command::PageForward => {
                if self.state() == AppState::Details {
                    self.page_forward_diff_lines();
                }
            },
            Command::PageBack => {
                if self.state() == AppState::Details {
                    self.page_back_diff_lines();
                }
            },
        }
    }

    /// Applies one delivered event: an input is routed through the key
    /// bindings and the dispatch table, a source failure ends the session,
    /// and a tick does nothing.
    pub fn apply_event(&mut self, event: &Event<Key>)
        requires
            old(self).wf(),
        ensures
            final(self).wf(),
            final(self)@ == mv_apply_event(old(self)@, *event),
    {
        match event {
            Event::Input(key) => {
                match key_command(*key) {
                    Some(command) => self.apply_command(command),
                    None => {},
                }
            },
            Event::Failure => {
                self.set_app_state(AppState::Finished);
            },
            Event::Tick => {},
        }
    }
}

} // verus!
