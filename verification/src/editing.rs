//! The state of one entry on the screen: shown, or open for editing.
//!
//! The state belongs to the view of an entry and is no part of the list.
//! This module decides; whoever drives the screen performs the action that
//! a step asks for and hands the next event back.

use crate::entry::{ENTER_KEY, ESCAPE_KEY};
use vstd::prelude::*;

verus! {

/// Whether an entry is shown or open for editing.
#[derive(Debug, Clone, Copy, PartialEq, Eq, Structural)]
pub enum EditState {
    /// The entry is shown.
    Viewing,
    /// The edit field of the entry is open.
    Editing,
}

/// What the user did to an entry on the screen.
#[derive(Debug, Clone, Copy, PartialEq, Eq, Structural)]
pub enum EditEvent {
    /// A double click on the entry.
    DoubleClick,
    /// A key was released in the edit field.
    KeyUp { key_code: u32 },
    /// The edit field lost the focus.
    FocusOut,
}

/// What is to be done after a step.
#[derive(Debug, Clone, Copy, PartialEq, Eq, Structural)]
pub enum EditAction {
    /// Nothing.
    Nothing,
    /// Give the edit field the focus.
    Focus,
    /// Commit the text of the edit field to the list.
    Save,
}

/// The transitions. A double click opens the edit field and asks for the
/// focus. While the field is open, Enter and the loss of focus commit the
/// text and close it, Escape closes it and drops the text, and any other
/// key leaves it open. While the entry is only shown, keys and the loss of
/// focus do nothing.
pub open spec fn edit_transition(state: EditState, event: EditEvent) -> (EditState, EditAction) {
    match (state, event) {
        (_, EditEvent::DoubleClick) => (EditState::Editing, EditAction::Focus),
        (EditState::Viewing, _) => (EditState::Viewing, EditAction::Nothing),
        (EditState::Editing, EditEvent::FocusOut) => (EditState::Viewing, EditAction::Save),
        (EditState::Editing, EditEvent::KeyUp { key_code }) => if key_code == ENTER_KEY {
            (EditState::Viewing, EditAction::Save)
        } else if key_code == ESCAPE_KEY {
            (EditState::Viewing, EditAction::Nothing)
        } else {
            (EditState::Editing, EditAction::Nothing)
        },
    }
}

/// One step of an entry's edit state: the next state and what is to be
/// done.
pub fn edit_step(state: EditState, event: EditEvent) -> (next: (EditState, EditAction))
    ensures
        next == edit_transition(state, event),
{
    match event {
        EditEvent::DoubleClick => (EditState::Editing, EditAction::Focus),
        EditEvent::FocusOut => match state {
            EditState::Editing => (EditState::Viewing, EditAction::Save),
            EditState::Viewing => (EditState::Viewing, EditAction::Nothing),
        },
        EditEvent::KeyUp { key_code } => match state {
            EditState::Viewing => (EditState::Viewing, EditAction::Nothing),
            EditState::Editing => {
                if key_code == ENTER_KEY {
                    (EditState::Viewing, EditAction::Save)
                } else if key_code == ESCAPE_KEY {
                    (EditState::Viewing, EditAction::Nothing)
                } else {
                    (EditState::Editing, EditAction::Nothing)
                }
            },
        },
    }
}

/// A commit closes the edit field, and only an open field commits: every
/// step that asks to save starts in `Editing` and ends in `Viewing`.
/// Escape never asks to save.
pub proof fn lemma_save_closes_the_field(state: EditState, event: EditEvent)
    ensures
        edit_transition(state, event).1 == EditAction::Save ==> state == EditState::Editing
            && edit_transition(state, event).0 == EditState::Viewing,
        event == (EditEvent::KeyUp { key_code: ESCAPE_KEY }) ==> edit_transition(state, event)
            == (EditState::Viewing, EditAction::Nothing),
{
}

} // verus!
