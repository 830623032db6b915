//! The help modal: a scrollable overlay that, while open, consumes every
//! keystroke.

use vstd::prelude::*;

use crate::messages::{reply_ok, Focus, Key, Message, OnceOperation};

verus! {

/// How many entries the help text holds; the scroll offset stays below it.
pub const HELP_ENTRY_COUNT: usize = 32;

/// The help modal's state.
pub struct HelpModal {
    pub visible: bool,
    pub focus: Focus,
    pub scroll_offset: usize,
}

impl HelpModal {
    pub fn new() -> (r: HelpModal)
        ensures
            !r.visible,
            r.focus == Focus::Off,
            r.scroll_offset == 0,
    {
        HelpModal { visible: false, focus: Focus::Off, scroll_offset: 0 }
    }

    pub fn is_open(&self) -> (r: bool)
        ensures
            r == self.visible,
    {
        self.visible
    }

    /// The help modal needs no focus handling: it owns the input whenever
    /// it is visible.
    pub fn process_focus(&mut self)
        ensures
            *final(self) == *old(self),
    {
    }

    /// Reacts to a keystroke while the modal is open: escape closes it, up
    /// and down scroll within the help text, and every other key is
    /// consumed.
    pub fn process_events(&mut self, key: Key) -> (r: Message)
        ensures
            final(self).visible == old(self).visible,
            final(self).focus == old(self).focus,
            !old(self).visible ==> r == Message::NoAction && *final(self) == *old(self),
            old(self).visible && key == Key::Esc ==> r == Message::Once(
                OnceOperation::CloseHelpModal,
            ) && *final(self) == *old(self),
            old(self).visible && key == Key::Up ==> r == Message::NoAction && final(self).scroll_offset == if old(self).scroll_offset > 0 {
                old(self).scroll_offset - 1
            } else {
                0
            },
            old(self).visible && key == Key::Down ==> r == Message::NoAction && final(self).scroll_offset == if old(self).scroll_offset < HELP_ENTRY_COUNT - 1 {
                old(self).scroll_offset + 1
            } else {
                old(self).scroll_offset as int
            },
            !(key == Key::Esc || key == Key::Up || key == Key::Down) ==> r == Message::NoAction
                && *final(self) == *old(self),
    {
        if !self.visible {
            return Message::NoAction;
        }
        match key {
            Key::Esc => Message::Once(OnceOperation::CloseHelpModal),
            Key::Up => {
                if self.scroll_offset > 0 {
                    self.scroll_offset = self.scroll_offset - 1;
                }
                Message::NoAction
            },
            Key::Down => {
                if self.scroll_offset < HELP_ENTRY_COUNT - 1 {
                    self.scroll_offset = self.scroll_offset + 1;
                }
                Message::NoAction
            },
            _ => Message::NoAction,
        }
    }

    /// Reacts to a broadcast message: the show directive opens the modal,
    /// the close directive shuts it and rewinds the scroll.
    pub fn handle_message(&mut self, message: &Message) -> (r: Message)
        ensures
            reply_ok(message, &r),
            r == Message::NoAction,
            message == Message::Once(OnceOperation::ShowHelpModal) ==> final(self).visible && final(self).focus == Focus::ON,
            message == Message::Once(OnceOperation::CloseHelpModal) ==> !final(self).visible
                && final(self).focus == Focus::Off && final(self).scroll_offset == 0,
            !(message == Message::Once(OnceOperation::ShowHelpModal) || message == Message::Once(
                OnceOperation::CloseHelpModal,
            )) ==> *final(self) == *old(self),
    {
        match message {
            Message::Once(OnceOperation::ShowHelpModal) => {
                self.visible = true;
                self.focus = Focus::ON;
            },
            Message::Once(OnceOperation::CloseHelpModal) => {
                self.visible = false;
                self.focus = Focus::Off;
                self.scroll_offset = 0;
            },
            _ => {},
        }
        Message::NoAction
    }
}

} // verus!
