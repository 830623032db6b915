//! The commit-history modal: lists all reachable commits, lets the user
//! pick one, and asks for the cursor to be moved there.

use vstd::prelude::*;

use crate::messages::{reply_ok, Focus, Key, Message, OnceOperation};
use crate::repository::RepositoryInfo;

verus! {

/// The first row holding the given identifier, if any.
pub open spec fn id_row(commits: Seq<(String, String)>, id: Seq<char>) -> Option<int>
    decreases commits.len(),
{
    if commits.len() == 0 {
        Option::None
    } else if commits[0].0@ == id {
        Option::Some(0int)
    } else {
        match id_row(commits.drop_first(), id) {
            Option::Some(k) => Option::Some(k + 1),
            Option::None => Option::None,
        }
    }
}

/// The row the modal highlights: the first row holding the cursor's
/// identifier, or the first row at all when that commit is not listed.
pub open spec fn selection_row(commits: Seq<(String, String)>, id: Seq<char>) -> int {
    match id_row(commits, id) {
        Option::Some(k) => k,
        Option::None => 0,
    }
}

proof fn lemma_id_row_push(commits: Seq<(String, String)>, e: (String, String), id: Seq<char>)
    ensures
        id_row(commits.push(e), id) == (match id_row(commits, id) {
            Option::Some(k) => Option::Some(k),
            Option::None => if e.0@ == id {
                Option::Some(commits.len() as int)
            } else {
                Option::None::<int>
            },
        }),
    decreases commits.len(),
{
    let pushed = commits.push(e);
    if commits.len() == 0 {
        assert(pushed[0] == e);
        assert(pushed.drop_first() =~~= Seq::<(String, String)>::empty());
        if e.0@ != id {
            assert(id_row(pushed.drop_first(), id) is None);
        }
    } else {
        assert(pushed[0] == commits[0]);
        assert(pushed.drop_first() =~~= commits.drop_first().push(e));
        lemma_id_row_push(commits.drop_first(), e, id);
        if commits[0].0@ == id {
            assert(id_row(pushed, id) == Option::Some(0int));
            assert(id_row(commits, id) == Option::Some(0int));
        } else {
            assert(id_row(pushed, id) == (match id_row(commits.drop_first().push(e), id) {
                Option::Some(k) => Option::Some(k + 1),
                Option::None => Option::None::<int>,
            }));
            assert(id_row(commits, id) == (match id_row(commits.drop_first(), id) {
                Option::Some(k) => Option::Some(k + 1),
                Option::None => Option::None::<int>,
            }));
        }
    }
}

/// The commit-history modal's state.
pub struct CommitModal {
    pub focus: Focus,
    pub is_open: bool,
    pub commits: Vec<(String, String)>,
    pub selected: Option<usize>,
}

impl CommitModal {
    /// The selection, when set, points into the commit list.
    pub open spec fn wf(self) -> bool {
        self.selected matches Some(k) ==> k < self.commits@.len()
    }

    pub fn new() -> (r: CommitModal)
        ensures
            r.wf(),
            r.focus == Focus::Off,
            !r.is_open,
            r.commits@.len() == 0,
            r.selected is None,
    {
        CommitModal { focus: Focus::Off, is_open: false, commits: Vec::new(), selected: None }
    }

    pub fn is_open(&self) -> (r: bool)
        ensures
            r == self.is_open,
    {
        self.is_open
    }

    /// Loads the reachable commits, newest first, and highlights the row
    /// the cursor stands on, or the newest row where the cursor's commit is
    /// not listed. A history that cannot be read leaves the list as it was;
    /// the highlight is recomputed over whatever list is held.
    fn load_commits(&mut self, repo: &RepositoryInfo)
        requires
            old(self).wf(),
            repo.wf(),
        ensures
            final(self).wf(),
            final(self).focus == old(self).focus,
            final(self).is_open == old(self).is_open,
            final(self).commits@.len() == 0 ==> final(self).selected is None,
            final(self).commits@.len() > 0 ==> final(self).selected == Some(
                selection_row(final(self).commits@, repo.cursor_id()) as usize,
            ),
    {
        match repo.get_commit_history() {
            Ok(history) => {
                self.commits = history;
            },
            Err(_) => {},
        }
        let current = repo.get_current_commit_id();
        let n = self.commits.len();
        let mut found: Option<usize> = None;
        let mut i: usize = 0;
        proof {
            assert(self.commits@.take(0) =~~= Seq::<(String, String)>::empty());
        }
        while i < n
            invariant
                n == self.commits@.len(),
                i <= n,
                current@ == repo.cursor_id(),
                found is None <==> id_row(self.commits@.take(i as int), current@) is None,
                found matches Some(k) ==> id_row(self.commits@.take(i as int), current@)
                    == Option::Some(k as int) && k < n,
            decreases n - i,
        {
            proof {
                assert(self.commits@.take(i as int + 1) =~~= self.commits@.take(i as int).push(
                    self.commits@[i as int],
                ));
                lemma_id_row_push(self.commits@.take(i as int), self.commits@[i as int], current@);
            }
            if found.is_none() && self.commits[i].0.eq(&current) {
                found = Some(i);
            }
            i = i + 1;
        }
        proof {
            assert(self.commits@.take(n as int) =~~= self.commits@);
        }
        if n > 0 {
            let position = match found {
                Some(k) => k,
                None => 0,
            };
            self.selected = Some(position);
        } else {
            self.selected = None;
        }
    }

    /// Opens the modal and loads the history, highlighting the cursor's row.
    fn open(&mut self, repo: &RepositoryInfo)
        requires
            old(self).wf(),
            repo.wf(),
        ensures
            final(self).wf(),
            final(self).is_open,
            final(self).focus == Focus::ON,
            final(self).commits@.len() == 0 ==> final(self).selected is None,
            final(self).commits@.len() > 0 ==> final(self).selected == Some(
                selection_row(final(self).commits@, repo.cursor_id()) as usize,
            ),
    {
        self.is_open = true;
        self.focus = Focus::ON;
        self.load_commits(repo);
    }

    /// Closes the modal and clears the selection.
    fn close(&mut self)
        ensures
            final(self).wf(),
            !final(self).is_open,
            final(self).focus == Focus::Off,
            final(self).selected is None,
            final(self).commits == old(self).commits,
    {
        self.is_open = false;
        self.focus = Focus::Off;
        self.selected = None;
    }

    /// The identifier of the commit the selection stands on.
    pub fn get_selected_commit_id(&self) -> (r: Option<String>)
        requires
            self.wf(),
        ensures
            self.selected matches Some(k) ==> (r matches Some(id) && id@ == self.commits@[k as int].0@),
            self.selected is None ==> r is None,
    {
        match self.selected {
            Some(k) => Some(self.commits[k].0.clone()),
            None => None,
        }
    }

    /// Reacts to a broadcast message: the open directive loads the history
    /// and shows the modal, the close directive shuts it.
    pub fn _handle_message(&mut self, message: &Message, repo: &RepositoryInfo) -> (r: Message)
        requires
            old(self).wf(),
            repo.wf(),
        ensures
            final(self).wf(),
            r == Message::NoAction,
            message == Message::Once(OnceOperation::OpenCommitModal) ==> {
                &&& final(self).is_open
                &&& final(self).focus == Focus::ON
                &&& final(self).commits@.len() == 0 ==> final(self).selected is None
                &&& final(self).commits@.len() > 0 ==> final(self).selected == Some(
                    selection_row(final(self).commits@, repo.cursor_id()) as usize,
                )
            },
            message == Message::Once(OnceOperation::CloseCommitModal) ==> !final(self).is_open
                && final(self).focus == Focus::Off && final(self).selected is None,
            !(message == Message::Once(OnceOperation::OpenCommitModal) || message == Message::Once(
                OnceOperation::CloseCommitModal,
            )) ==> *final(self) == *old(self),
    {
        match message {
            Message::Once(OnceOperation::OpenCommitModal) => {
                self.open(repo);
            },
            Message::Once(OnceOperation::CloseCommitModal) => {
                self.close();
            },
            _ => {},
        }
        Message::NoAction
    }

    /// The broadcast entry point; its reply always steps the rank down.
    pub fn handle_message(&mut self, message: &Message, repo: &RepositoryInfo) -> (r: Message)
        requires
            old(self).wf(),
            repo.wf(),
        ensures
            final(self).wf(),
            reply_ok(message, &r),
            r == Message::NoAction,
            message == Message::Once(OnceOperation::OpenCommitModal) ==> {
                &&& final(self).is_open
                &&& final(self).focus == Focus::ON
                &&& final(self).commits@.len() == 0 ==> final(self).selected is None
                &&& final(self).commits@.len() > 0 ==> final(self).selected == Some(
                    selection_row(final(self).commits@, repo.cursor_id()) as usize,
                )
            },
            message == Message::Once(OnceOperation::CloseCommitModal) ==> !final(self).is_open
                && final(self).focus == Focus::Off && final(self).selected is None,
            !(message == Message::Once(OnceOperation::OpenCommitModal) || message == Message::Once(
                OnceOperation::CloseCommitModal,
            )) ==> *final(self) == *old(self),
    {
        self._handle_message(message, repo)
    }

    /// Flips this panel's focus flag.
    pub fn process_focus(&mut self)
        ensures
            final(self).wf() == old(self).wf(),
            final(self).focus == match old(self).focus {
                Focus::Off => Focus::ON,
                Focus::ON => Focus::Off,
            },
            final(self).is_open == old(self).is_open,
            final(self).commits == old(self).commits,
            final(self).selected == old(self).selected,
    {
        match self.focus {
            Focus::Off => self.focus = Focus::ON,
            Focus::ON => self.focus = Focus::Off,
        }
    }

    /// Reacts to a keystroke while the modal is open: escape asks to close
    /// it, enter asks to move the cursor to the selected commit, up and
    /// down move the selection within the list.
    pub fn process_events(&mut self, key: Key) -> (r: Message)
        requires
            old(self).wf(),
        ensures
            final(self).wf(),
            final(self).is_open == old(self).is_open,
            final(self).commits == old(self).commits,
            final(self).focus == old(self).focus,
            !old(self).is_open ==> r == Message::NoAction && *final(self) == *old(self),
            old(self).is_open && key == Key::Esc ==> r == Message::Once(
                OnceOperation::CloseCommitModal,
            ) && *final(self) == *old(self),
            old(self).is_open && key == Key::Enter ==> (old(self).selected matches Some(k) ==> (
            r matches Message::Once(OnceOperation::SetCommitById { commit_id }) && commit_id@ == old(self).commits@[k as int].0@)) && (old(self).selected is None ==> r == Message::NoAction),
            old(self).is_open && key == Key::Up ==> r == Message::NoAction && final(self).selected
                == (match old(self).selected {
                Some(k) => if k > 0 {
                    Some((k - 1) as usize)
                } else {
                    Some(k)
                },
                None => None,
            }),
            old(self).is_open && key == Key::Down ==> r == Message::NoAction && ({
                let cur = match old(self).selected {
                    Some(k) => k,
                    None => 0usize,
                };
                final(self).selected == if old(self).commits@.len() > 0 && cur < old(
                    self,
                ).commits@.len() - 1 {
                    Some((cur + 1) as usize)
                } else {
                    old(self).selected
                }
            }),
            old(self).is_open && !(key == Key::Esc || key == Key::Enter || key == Key::Up || key
                == Key::Down) ==> r == Message::NoAction && *final(self) == *old(self),
    {
        if !self.is_open {
            return Message::NoAction;
        }
        match key {
            Key::Esc => Message::Once(OnceOperation::CloseCommitModal),
            Key::Enter => {
                match self.get_selected_commit_id() {
                    Some(commit_id) => Message::Once(OnceOperation::SetCommitById { commit_id }),
                    None => Message::NoAction,
                }
            },
            Key::Up => {
                let current = match self.selected {
                    Some(k) => k,
                    None => 0,
                };
                if current > 0 {
                    proof {
                        assert(self.commits@.len() > 0);
                    }
                    self.selected = Some(current - 1);
                }
                Message::NoAction
            },
            Key::Down => {
                let current = match self.selected {
                    Some(k) => k,
                    None => 0,
                };
                let len = self.commits.len();
                if len > 0 && current < len - 1 {
                    self.selected = Some(current + 1);
                }
                Message::NoAction
            },
            _ => Message::NoAction,
        }
    }
}

} // verus!
