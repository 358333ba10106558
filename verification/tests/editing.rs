use pays::editing::{edit_step, EditAction, EditEvent, EditState};
use pays::entry::{ENTER_KEY, ESCAPE_KEY};

#[test]
fn double_click_opens_the_field_and_asks_for_the_focus() {
    assert_eq!(
        edit_step(EditState::Viewing, EditEvent::DoubleClick),
        (EditState::Editing, EditAction::Focus)
    );
    assert_eq!(
        edit_step(EditState::Editing, EditEvent::DoubleClick),
        (EditState::Editing, EditAction::Focus)
    );
}

#[test]
fn enter_commits_and_closes() {
    assert_eq!(
        edit_step(EditState::Editing, EditEvent::KeyUp { key_code: ENTER_KEY }),
        (EditState::Viewing, EditAction::Save)
    );
}

#[test]
fn loss_of_focus_commits_and_closes() {
    assert_eq!(
        edit_step(EditState::Editing, EditEvent::FocusOut),
        (EditState::Viewing, EditAction::Save)
    );
}

#[test]
fn escape_closes_without_a_commit() {
    assert_eq!(
        edit_step(EditState::Editing, EditEvent::KeyUp { key_code: ESCAPE_KEY }),
        (EditState::Viewing, EditAction::Nothing)
    );
}

#[test]
fn other_keys_leave_the_field_open() {
    for key_code in [0u32, 12, 14, 26, 28, 65, u32::MAX] {
        assert_eq!(
            edit_step(EditState::Editing, EditEvent::KeyUp { key_code }),
            (EditState::Editing, EditAction::Nothing)
        );
    }
}

#[test]
fn a_shown_entry_ignores_keys_and_loss_of_focus() {
    for key_code in [ENTER_KEY, ESCAPE_KEY, 65] {
        assert_eq!(
            edit_step(EditState::Viewing, EditEvent::KeyUp { key_code }),
            (EditState::Viewing, EditAction::Nothing)
        );
    }
    assert_eq!(
        edit_step(EditState::Viewing, EditEvent::FocusOut),
        (EditState::Viewing, EditAction::Nothing)
    );
}

#[test]
fn edit_then_cancel_then_edit_then_commit() {
    let mut state = EditState::Viewing;
    let mut actions = Vec::new();
    for event in [
        EditEvent::DoubleClick,
        EditEvent::KeyUp { key_code: 49 },
        EditEvent::KeyUp { key_code: ESCAPE_KEY },
        EditEvent::DoubleClick,
        EditEvent::KeyUp { key_code: 50 },
        EditEvent::KeyUp { key_code: ENTER_KEY },
        EditEvent::FocusOut,
    ] {
        let (next, action) = edit_step(state, event);
        state = next;
        actions.push(action);
    }
    assert_eq!(state, EditState::Viewing);
    assert_eq!(
        actions,
        vec![
            EditAction::Focus,
            EditAction::Nothing,
            EditAction::Nothing,
            EditAction::Focus,
            EditAction::Nothing,
            EditAction::Save,
            EditAction::Nothing,
        ]
    );
}
