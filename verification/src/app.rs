//! The dispatcher and focus router: owns the repository cursor and every
//! panel, routes keyboard input to the modal or the focused panel, and runs
//! the message-propagation cycle.
//!
//! Propagation terminates by construction: every handler answers a message
//! with one of strictly smaller rank (see `message_rank`), so the dispatch
//! recursion is bounded and Verus checks it through its `decreases` clause.

use vstd::prelude::*;

use crate::commit_modal::CommitModal;
use crate::commit_viewer::CommitViewer;
use crate::content_viewer::ContentViewer;
use crate::filer::Filer;
use crate::filter::Filter;
use crate::help_modal::HelpModal;
use crate::filer::shown_results;
use crate::filter::FilterMode;
use crate::messages::{
    message_rank, Focus, Key, Message, MultipleTimesOperation, OnceOperation,
};
use crate::repository::RepositoryInfo;
use crate::strutil::{is_oid, starts_with_seq};

verus! {

/// Which panel owns the keyboard, in a fixed cycle.
#[derive(Clone, Copy, Debug, PartialEq, Eq, Structural)]
pub enum FocusState {
    Filter,
    Filer,
    Commit,
    Viewer,
}

impl FocusState {
    /// The panel after this one in the cycle: filter, file list, commit
    /// summary, content viewer, and around again.
    pub open spec fn spec_next(self) -> FocusState {
        match self {
            FocusState::Filter => FocusState::Filer,
            FocusState::Filer => FocusState::Commit,
            FocusState::Commit => FocusState::Viewer,
            FocusState::Viewer => FocusState::Filter,
        }
    }

    pub fn next(self) -> (r: FocusState)
        ensures
            r == self.spec_next(),
    {
        match self {
            FocusState::Filter => FocusState::Filer,
            FocusState::Filer => FocusState::Commit,
            FocusState::Commit => FocusState::Viewer,
            FocusState::Viewer => FocusState::Filter,
        }
    }
}

/// The focus cycle closes after exactly four steps: from any starting
/// panel, four advances return to it, through each other panel once.
pub proof fn lemma_focus_cycle(f: FocusState)
    ensures
        f.spec_next().spec_next().spec_next().spec_next() == f,
        f.spec_next() != f,
        f.spec_next().spec_next() != f,
        f.spec_next().spec_next().spec_next() != f,
{
}

/// The smallest width the file-list pane may take, in percent.
pub const MIN_LEFT_PERCENTAGE: u16 = 15;

/// The largest width the file-list pane may take, in percent.
pub const MAX_LEFT_PERCENTAGE: u16 = 70;

/// The dispatcher: the repository cursor, the panels, the focus state, and
/// a status line that surfaces error messages reaching the dispatch root.
pub struct App {
    pub left_main_chunk_percentage: u16,
    pub should_exit: bool,
    pub focus_state: FocusState,
    pub status: Option<String>,
    pub repository: RepositoryInfo,
    pub filter: Filter,
    pub filer: Filer,
    pub commit_viewer: CommitViewer,
    pub content_viewer: ContentViewer,
    pub commit_modal: CommitModal,
    pub help_modal: HelpModal,
}

impl App {
    /// Every part holds its own invariant and the pane split stays within
    /// its range.
    pub open spec fn wf(self) -> bool {
        &&& self.repository.wf()
        &&& self.filter.wf()
        &&& self.filer.wf()
        &&& self.commit_modal.wf()
        &&& MIN_LEFT_PERCENTAGE <= self.left_main_chunk_percentage <= MAX_LEFT_PERCENTAGE
    }

    /// Builds the dispatcher around an opened repository cursor and runs
    /// the setup broadcast: the filter panel takes focus, the file list is
    /// loaded and shown, and the commit summary opens with the cursor's
    /// identifier — or, where a repository read fails, the failure stands
    /// on the status line.
    pub fn new(repository_info: RepositoryInfo) -> (r: App)
        requires
            repository_info.wf(),
        ensures
            r.wf(),
            !r.should_exit,
            r.left_main_chunk_percentage == MIN_LEFT_PERCENTAGE,
            r.repository == repository_info,
            r.filter.focus == Focus::ON,
            r.filer.results.deep_view() == shown_results(
                r.filer.items.deep_view(),
                Seq::<char>::empty(),
                FilterMode::PartialMatch,
            ) || r.status is Some,
            starts_with_seq(r.commit_viewer.content@, repository_info.cursor_id())
                || r.status is Some,
    {
        let mut app = App {
            left_main_chunk_percentage: MIN_LEFT_PERCENTAGE,
            should_exit: false,
            focus_state: FocusState::Filter,
            status: None,
            repository: repository_info,
            filter: Filter::new(),
            filer: Filer::new(),
            commit_viewer: CommitViewer::new(),
            content_viewer: ContentViewer::new(),
            commit_modal: CommitModal::new(),
            help_modal: HelpModal::new(),
        };
        app.handle_message(Message::MultipleTimes(MultipleTimesOperation::SetUp));
        app
    }

    /// Tells the focused panel that focus moved.
    pub fn process_focus(&mut self)
        requires
            old(self).wf(),
        ensures
            final(self).wf(),
            final(self).focus_state == old(self).focus_state,
            final(self).should_exit == old(self).should_exit,
    {
        match self.focus_state {
            FocusState::Commit => self.commit_viewer.process_focus(),
            FocusState::Filter => self.filter.process_focus(),
            FocusState::Filer => self.filer.process_focus(),
            FocusState::Viewer => self.content_viewer.process_focus(),
        }
    }

    /// Moves the focus one panel along the fixed cycle, telling the panel
    /// that loses it and the panel that gains it.
    pub fn advance_focus(&mut self)
        requires
            old(self).wf(),
        ensures
            final(self).wf(),
            final(self).focus_state == old(self).focus_state.spec_next(),
    {
        self.process_focus();
        self.focus_state = self.focus_state.next();
        self.process_focus();
    }

    /// Routes a keystroke to its recipient: an open help modal first, an
    /// open commit modal next, otherwise the focused panel; hands back the
    /// message the recipient answered with.
    pub fn process_events(&mut self, key: Key) -> (r: Message)
        requires
            old(self).wf(),
        ensures
            final(self).wf(),
            final(self).focus_state == old(self).focus_state,
            final(self).should_exit == old(self).should_exit,
            old(self).help_modal.visible ==> *final(self) == (App {
                help_modal: final(self).help_modal,
                ..*old(self)
            }),
            !old(self).help_modal.visible && old(self).commit_modal.is_open ==> *final(self) == (
            App { commit_modal: final(self).commit_modal, ..*old(self) }),
            !old(self).help_modal.visible && !old(self).commit_modal.is_open && old(
                self,
            ).focus_state != FocusState::Commit ==> final(self).repository == old(self).repository,
    {
        if self.help_modal.is_open() {
            return self.help_modal.process_events(key);
        }
        if self.commit_modal.is_open() {
            return self.commit_modal.process_events(key);
        }
        match self.focus_state {
            FocusState::Commit => self.commit_viewer.process_events(key, &mut self.repository),
            FocusState::Filter => self.filter.process_events(key),
            FocusState::Filer => self.filer.process_events(key),
            FocusState::Viewer => self.content_viewer.process_events(key, &self.repository),
        }
    }

    /// Delivers a message to every panel in a fixed order, recursing on
    /// each panel's answer before moving to the next panel. The recursion
    /// is bounded: every answer has a strictly smaller rank than the
    /// message it answers, so Verus accepts the rank as the measure.
    ///
    /// A commit-selection directive is handled at the root: the cursor
    /// move is attempted first, the modal is closed in any case, and then a
    /// successful move is followed by a commit-change broadcast while a
    /// failed one lands on the status line, as a failed modal action. An
    /// error message ends its propagation chain on the status line.
    pub fn handle_message(&mut self, message: Message)
        requires
            old(self).wf(),
        ensures
            final(self).wf(),
            final(self).should_exit == old(self).should_exit,
            final(self).left_main_chunk_percentage == old(self).left_main_chunk_percentage,
            message == Message::NoAction ==> *final(self) == *old(self),
            message matches Message::Error { .. } ==> final(self).status is Some,
            message_rank(&message) == 0 ==> *final(self) == (App {
                status: final(self).status,
                ..*old(self)
            }),
            message == Message::Once(OnceOperation::JumpToFiler) ==> final(self).focus_state
                == FocusState::Filer && final(self).filer.focus
                == Focus::ON && final(self).filter.focus
                == Focus::Off,
            message == Message::Once(OnceOperation::JumpToContentView) ==> final(self).focus_state
                == FocusState::Viewer && final(self).content_viewer.focus
                == Focus::ON && final(self).filer.focus
                == Focus::Off,
            message == Message::Once(OnceOperation::ShowHelpModal) ==> final(self).help_modal.visible,
            message == Message::Once(OnceOperation::CloseCommitModal) ==> !final(self).commit_modal.is_open,
            message matches Message::Once(OnceOperation::SetCommitById { .. }) ==> !final(self).commit_modal.is_open,
            !(message == Message::Once(OnceOperation::OpenCommitModal) || message == Message::Once(
                OnceOperation::CloseCommitModal,
            ) || message matches Message::Once(OnceOperation::SetCommitById { .. })) ==> final(self).commit_modal == old(self).commit_modal,
            !(message matches Message::Once(OnceOperation::SetCommitById { .. })) ==> final(self).repository == old(self).repository,
            old(self).status is Some ==> final(self).status is Some,
            message == Message::Once(OnceOperation::CloseHelpModal) ==> !final(self).help_modal.visible,
            message == Message::Once(OnceOperation::OpenCommitModal) ==> {
                &&& final(self).commit_modal.is_open
                &&& final(self).commit_modal.focus == Focus::ON
                &&& final(self).commit_modal.commits@.len() == 0 ==> final(self).commit_modal.selected is None
                &&& final(self).commit_modal.commits@.len() > 0 ==> final(self).commit_modal.selected
                    == Some(
                    crate::commit_modal::selection_row(
                        final(self).commit_modal.commits@,
                        old(self).repository.cursor_id(),
                    ) as usize,
                )
            },
            message matches Message::Once(OnceOperation::ShowFile { file }) ==> {
                &&& *final(self) == (App {
                    content_viewer: final(self).content_viewer,
                    status: final(self).status,
                    ..*old(self)
                })
                &&& final(self).content_viewer.title@ == file@ || final(self).status is Some
            },
            message matches Message::MultipleTimes(MultipleTimesOperation::Filtering {
                query,
                mode,
            }) ==> {
                &&& final(self).filer.query == query
                &&& final(self).filer.mode == mode
                &&& final(self).filer.items == old(self).filer.items
                &&& final(self).filer.results.deep_view() == shown_results(
                    old(self).filer.items.deep_view(),
                    query@,
                    mode,
                )
            },
            (message == Message::MultipleTimes(MultipleTimesOperation::SetUp) || message
                == Message::MultipleTimes(MultipleTimesOperation::ChangeShowCommit)) ==> {
                &&& final(self).filer.results.deep_view() == shown_results(
                    final(self).filer.items.deep_view(),
                    old(self).filer.query@,
                    old(self).filer.mode,
                ) || final(self).status is Some
                &&& starts_with_seq(
                    final(self).commit_viewer.content@,
                    old(self).repository.cursor_id(),
                ) || final(self).status is Some
            },
            message == Message::MultipleTimes(MultipleTimesOperation::SetUp) ==> final(self).filter.focus == Focus::ON,
            message matches Message::Once(OnceOperation::SetCommitById { commit_id }) ==> {
                &&& final(self).status is Some || starts_with_seq(
                    final(self).commit_viewer.content@,
                    final(self).repository.cursor_id(),
                )
                &&& is_oid(commit_id@) ==> (final(self).repository.cursor_id() == commit_id@
                    || final(self).status is Some)
            },
        decreases message_rank(&message),
    {
        match &message {
            Message::NoAction => {
                return ;
            },
            Message::Error { _message } => {
                self.status = Some(_message.clone());
                return ;
            },
            Message::Once(OnceOperation::JumpToContentView) => {
                self.focus_state = FocusState::Viewer;
            },
            Message::Once(OnceOperation::JumpToFiler) => {
                self.focus_state = FocusState::Filer;
            },
            Message::Once(OnceOperation::SetCommitById { commit_id }) => {
                let outcome = self.repository.set_commit_by_id(commit_id);
                self.handle_message(Message::Once(OnceOperation::CloseCommitModal));
                match outcome {
                    Ok(()) => {
                        self.handle_message(
                            Message::MultipleTimes(MultipleTimesOperation::ChangeShowCommit),
                        );
                    },
                    Err(e) => {
                        // A failed resolution is surfaced, not discarded.
                        let text = match e {
                            crate::repository::RepositoryError::AmbiguousCommit => String::from_str(
                                "ambiguous commit id",
                            ),
                            crate::repository::RepositoryError::CommitNotFound => String::from_str(
                                "commit not found",
                            ),
                            _ => String::from_str("commit selection failed"),
                        };
                        self.status = Some(text);
                    },
                }
                return ;
            },
            _ => {},
        }
        let reply = self.filer.handle_message(&message, &self.repository);
        self.handle_message(reply);
        let reply = self.filter.handle_message(&message);
        self.handle_message(reply);
        let reply = self.content_viewer.handle_message(&message, &self.repository);
        self.handle_message(reply);
        let reply = self.commit_viewer.handle_message(&message, &self.repository);
        self.handle_message(reply);
        let reply = self.commit_modal.handle_message(&message, &self.repository);
        self.handle_message(reply);
        let reply = self.help_modal.handle_message(&message);
        self.handle_message(reply);
    }

    /// Reacts to one keystroke: the global keys — focus cycle, quit, pane
    /// resize, help — are handled here, every other key goes to its
    /// recipient and the answer is dispatched.
    pub fn handle_key(&mut self, key: Key)
        requires
            old(self).wf(),
        ensures
            final(self).wf(),
            key == Key::Tab ==> final(self).focus_state == old(self).focus_state.spec_next(),
            key == Key::CtrlC ==> final(self).should_exit,
            key == Key::Char('<') ==> final(self).left_main_chunk_percentage == (if old(self).left_main_chunk_percentage >= MIN_LEFT_PERCENTAGE + 5 {
                old(self).left_main_chunk_percentage - 5
            } else {
                MIN_LEFT_PERCENTAGE as int
            }),
            key == Key::Char('>') ==> final(self).left_main_chunk_percentage == (if old(self).left_main_chunk_percentage + 5 <= MAX_LEFT_PERCENTAGE {
                old(self).left_main_chunk_percentage + 5
            } else {
                MAX_LEFT_PERCENTAGE as int
            }),
            key == Key::Char('?') ==> final(self).help_modal.visible,
    {
        match key {
            Key::Tab => {
                self.advance_focus();
            },
            Key::CtrlC => {
                self.should_exit = true;
            },
            Key::Char(c) => {
                if c == '<' {
                    if self.left_main_chunk_percentage >= MIN_LEFT_PERCENTAGE + 5 {
                        self.left_main_chunk_percentage = self.left_main_chunk_percentage - 5;
                    } else {
                        self.left_main_chunk_percentage = MIN_LEFT_PERCENTAGE;
                    }
                } else if c == '>' {
                    if self.left_main_chunk_percentage + 5 <= MAX_LEFT_PERCENTAGE {
                        self.left_main_chunk_percentage = self.left_main_chunk_percentage + 5;
                    } else {
                        self.left_main_chunk_percentage = MAX_LEFT_PERCENTAGE;
                    }
                } else if c == '?' {
                    self.handle_message(Message::Once(OnceOperation::ShowHelpModal));
                } else {
                    let message = self.process_events(key);
                    self.handle_message(message);
                }
            },
            _ => {
                let message = self.process_events(key);
                self.handle_message(message);
            },
        }
    }

    /// Whether the user asked to leave.
    pub fn should_exit(&self) -> (r: bool)
        ensures
            r == self.should_exit,
    {
        self.should_exit
    }

    /// Takes the pending status-line message, if one arrived.
    pub fn take_status(&mut self) -> (r: Option<String>)
        ensures
            *final(self) == (App { status: None, ..*old(self) }),
            r == old(self).status,
    {
        let status = match &self.status {
            Some(s) => Some(s.clone()),
            None => None,
        };
        self.status = None;
        status
    }
}

} // verus!
