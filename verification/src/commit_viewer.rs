//! The commit-summary panel: shows the commit the cursor stands on and
//! turns its keys into cursor movements.

use vstd::prelude::*;

use crate::messages::{reply_ok, Focus, Key, Message, MultipleTimesOperation, OnceOperation};
use crate::repository::RepositoryInfo;
use crate::strutil::{push_char, starts_with_seq};

verus! {

/// The one-line form a commit is shown in: its identifier, a separating
/// colon, and its message.
pub fn format_commit_line(id: &String, message: &String) -> (r: String)
    ensures
        r@ == id@ + seq![':', ' '] + message@,
{
    let mut r = id.clone();
    push_char(&mut r, ':');
    push_char(&mut r, ' ');
    r.append(message.as_str());
    proof {
        assert(r@ =~= id@ + seq![':', ' '] + message@);
    }
    r
}

/// The commit-summary panel.
pub struct CommitViewer {
    pub focus: Focus,
    pub content: String,
}

impl CommitViewer {
    pub fn new() -> (r: CommitViewer)
        ensures
            r.focus == Focus::Off,
            r.content@ == Seq::<char>::empty(),
    {
        CommitViewer { focus: Focus::Off, content: String::new() }
    }

    /// Reacts to a broadcast message: both the setup notification and a
    /// commit change re-read the cursor's commit and reformat the summary
    /// line; a failure to read it is reported as an error message.
    pub fn _handle_message(&mut self, message: &Message, repo: &RepositoryInfo) -> (r: Message)
        requires
            repo.wf(),
        ensures
            reply_ok(message, &r),
            r is NoAction || r is Error,
            final(self).focus == old(self).focus,
            !(message matches Message::MultipleTimes(MultipleTimesOperation::SetUp) || message
                matches Message::MultipleTimes(MultipleTimesOperation::ChangeShowCommit)) ==> (
            *final(self) == *old(self) && r == Message::NoAction),
            (message matches Message::MultipleTimes(MultipleTimesOperation::SetUp) || message
                matches Message::MultipleTimes(MultipleTimesOperation::ChangeShowCommit)) ==> {
                &&& r is NoAction ==> starts_with_seq(final(self).content@, repo.cursor_id())
                &&& r is Error ==> *final(self) == *old(self)
            },
    {
        match message {
            Message::MultipleTimes(MultipleTimesOperation::SetUp) => {
                self.refresh(repo)
            },
            Message::MultipleTimes(MultipleTimesOperation::ChangeShowCommit) => {
                self.refresh(repo)
            },
            _ => Message::NoAction,
        }
    }

    /// Re-reads the cursor's commit into the summary line, which then opens
    /// with the cursor's identifier; a failed read changes nothing.
    fn refresh(&mut self, repo: &RepositoryInfo) -> (r: Message)
        requires
            repo.wf(),
        ensures
            final(self).focus == old(self).focus,
            r is NoAction || r is Error,
            r is NoAction ==> starts_with_seq(final(self).content@, repo.cursor_id()),
            r is Error ==> *final(self) == *old(self),
    {
        match repo.current_commit() {
            Ok((id, message)) => {
                self.content = format_commit_line(&id, &message);
                proof {
                    assert(self.content@.subrange(0, id@.len() as int) =~= id@);
                }
                Message::NoAction
            },
            Err(_) => Message::Error {
                _message: String::from_str("failed to read the current commit"),
            },
        }
    }

    /// The broadcast entry point; its reply always steps the rank down.
    pub fn handle_message(&mut self, message: &Message, repo: &RepositoryInfo) -> (r: Message)
        requires
            repo.wf(),
        ensures
            reply_ok(message, &r),
            r is NoAction || r is Error,
            final(self).focus == old(self).focus,
            !(message matches Message::MultipleTimes(MultipleTimesOperation::SetUp) || message
                matches Message::MultipleTimes(MultipleTimesOperation::ChangeShowCommit)) ==> (
            *final(self) == *old(self) && r == Message::NoAction),
            (message matches Message::MultipleTimes(MultipleTimesOperation::SetUp) || message
                matches Message::MultipleTimes(MultipleTimesOperation::ChangeShowCommit)) ==> {
                &&& r is NoAction ==> starts_with_seq(final(self).content@, repo.cursor_id())
                &&& r is Error ==> *final(self) == *old(self)
            },
    {
        self._handle_message(message, repo)
    }

    /// Flips this panel's focus flag.
    pub fn process_focus(&mut self)
        ensures
            final(self).content == old(self).content,
            final(self).focus == match old(self).focus {
                Focus::Off => Focus::ON,
                Focus::ON => Focus::Off,
            },
    {
        match self.focus {
            Focus::Off => self.focus = Focus::ON,
            Focus::ON => self.focus = Focus::Off,
        }
    }

    /// Reacts to a keystroke while this panel is focused: down moves the
    /// cursor to the parent commit, up to the chronological successor, both
    /// followed by a commit-change broadcast; the modal key opens the
    /// commit-history modal.
    pub fn process_events(&mut self, key: Key, repo: &mut RepositoryInfo) -> (r: Message)
        requires
            old(repo).wf(),
        ensures
            final(repo).wf(),
            *final(self) == *old(self),
            key == Key::Down ==> r == Message::MultipleTimes(
                MultipleTimesOperation::ChangeShowCommit,
            ),
            key == Key::Up ==> r == Message::MultipleTimes(
                MultipleTimesOperation::ChangeShowCommit,
            ),
            key == Key::Char('g') ==> r == Message::Once(OnceOperation::OpenCommitModal) && *final(repo) == *old(repo),
            !(key == Key::Down || key == Key::Up || key == Key::Char('g')) ==> r
                == Message::NoAction && *final(repo) == *old(repo),
    {
        match key {
            Key::Down => {
                repo.set_parent_commit();
                Message::MultipleTimes(MultipleTimesOperation::ChangeShowCommit)
            },
            Key::Up => {
                let _ = repo.set_next_commit();
                Message::MultipleTimes(MultipleTimesOperation::ChangeShowCommit)
            },
            Key::Char(c) => {
                if c == 'g' {
                    Message::Once(OnceOperation::OpenCommitModal)
                } else {
                    Message::NoAction
                }
            },
            _ => Message::NoAction,
        }
    }
}

} // verus!
