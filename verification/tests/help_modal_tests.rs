use gview::help_modal::{HelpModal, HELP_ENTRY_COUNT};
use gview::messages::{Key, Message, OnceOperation};

#[test]
fn test_help_modal_initial_state() {
    let modal = HelpModal::new();
    assert!(!modal.is_open());
    assert_eq!(modal.scroll_offset, 0);
}

#[test]
fn test_help_modal_show_and_hide() {
    let mut modal = HelpModal::new();
    assert!(!modal.is_open());

    let r = modal.handle_message(&Message::Once(OnceOperation::ShowHelpModal));
    assert_eq!(r, Message::NoAction);
    assert!(modal.is_open());

    modal.scroll_offset = 3;
    let r = modal.handle_message(&Message::Once(OnceOperation::CloseHelpModal));
    assert_eq!(r, Message::NoAction);
    assert!(!modal.is_open());
    assert_eq!(modal.scroll_offset, 0);
}

#[test]
fn test_help_modal_key_events() {
    let mut modal = HelpModal::new();

    // Keys are ignored while the modal is closed.
    let r = modal.process_events(Key::Esc);
    assert_eq!(r, Message::NoAction);

    modal.handle_message(&Message::Once(OnceOperation::ShowHelpModal));

    let r = modal.process_events(Key::Down);
    assert_eq!(r, Message::NoAction);
    assert_eq!(modal.scroll_offset, 1);

    let r = modal.process_events(Key::Up);
    assert_eq!(r, Message::NoAction);
    assert_eq!(modal.scroll_offset, 0);

    let r = modal.process_events(Key::Esc);
    assert_eq!(r, Message::Once(OnceOperation::CloseHelpModal));
}

#[test]
fn test_help_modal_process_focus() {
    let mut modal = HelpModal::new();
    let before_visible = modal.is_open();
    modal.process_focus();
    assert_eq!(modal.is_open(), before_visible);
}

#[test]
fn test_help_modal_scroll_stays_in_range() {
    let mut modal = HelpModal::new();
    modal.handle_message(&Message::Once(OnceOperation::ShowHelpModal));
    let mut presses = 0;
    while presses < HELP_ENTRY_COUNT + 10 {
        modal.process_events(Key::Down);
        presses += 1;
    }
    assert_eq!(modal.scroll_offset, HELP_ENTRY_COUNT - 1);
    modal.process_events(Key::Up);
    assert_eq!(modal.scroll_offset, HELP_ENTRY_COUNT - 2);
}
