//! The file-list panel: holds the enumerated paths, applies the filter
//! engine to them, and keeps a selection that always points at a result.

use vstd::prelude::*;

use crate::filter::{
    fuzzy_filter, partial_filter, regex_filter, regex_valid, FilterMode,
};
use crate::messages::{reply_ok, Focus, Key, Message, MultipleTimesOperation, OnceOperation};
use crate::repository::RepositoryInfo;

verus! {

/// What the panel shows for a list filtered down to nothing.
pub open spec fn sentinel_results() -> Seq<Seq<char>> {
    seq!["not found"@]
}

/// The results the panel shows for the given items, query and mode: the
/// engine's output, or the sentinel where that output is empty.
pub open spec fn shown_results(items: Seq<Seq<char>>, q: Seq<char>, mode: FilterMode) -> Seq<
    Seq<char>,
> {
    let f = match mode {
        FilterMode::PartialMatch => partial_filter(items, q),
        FilterMode::FuzzyMatch => fuzzy_filter(items, q),
        FilterMode::RegularMatch => if regex_valid(q) {
            regex_filter(items, q)
        } else {
            seq!["error"@]
        },
    };
    if f.len() == 0 {
        sentinel_results()
    } else {
        f
    }
}

/// The file-list panel.
pub struct Filer {
    pub focus: Focus,
    pub selected: usize,
    pub query: String,
    pub start_position: usize,
    pub max_scroll: usize,
    pub mode: FilterMode,
    pub items: Vec<String>,
    pub results: Vec<String>,
}

impl Filer {
    /// The selection points into the results whenever there are any.
    pub open spec fn wf(self) -> bool {
        if self.results@.len() == 0 {
            self.selected == 0
        } else {
            self.selected < self.results@.len()
        }
    }

    pub fn new() -> (r: Filer)
        ensures
            r.wf(),
            r.focus == Focus::Off,
            r.selected == 0,
            r.query@ == Seq::<char>::empty(),
            r.start_position == 0,
            r.max_scroll == 0,
            r.mode == FilterMode::PartialMatch,
            r.items@.len() == 0,
            r.results@.len() == 0,
    {
        Filer {
            focus: Focus::Off,
            selected: 0,
            query: String::new(),
            start_position: 0,
            max_scroll: 0,
            mode: FilterMode::PartialMatch,
            items: Vec::new(),
            results: Vec::new(),
        }
    }

    /// Runs the filter engine over the held items with the held query and
    /// mode, substitutes the sentinel for an empty outcome, clamps the
    /// selection into the new results, rewinds the horizontal scroll, and
    /// announces the file now selected.
    fn apply_filter(&mut self) -> (r: Message)
        ensures
            final(self).wf(),
            final(self).results.deep_view() == shown_results(
                old(self).items.deep_view(),
                old(self).query@,
                old(self).mode,
            ),
            final(self).items == old(self).items,
            final(self).query == old(self).query,
            final(self).mode == old(self).mode,
            final(self).focus == old(self).focus,
            final(self).start_position == 0,
            final(self).selected == vstd::math::min(
                old(self).selected as int,
                final(self).results@.len() - 1,
            ),
            r matches Message::Once(OnceOperation::ShowFile { file }) && file@ == final(self).results.deep_view()[final(self).selected as int],
    {
        let filtered = self.mode.filter(self.items.clone(), &self.query);
        self.results = filtered;
        if self.results.len() == 0 {
            self.results.push(String::from_str("not found"));
            proof {
                assert(self.results.deep_view() =~~= sentinel_results());
            }
        }
        if self.selected >= self.results.len() {
            self.selected = self.results.len() - 1;
        }
        self.start_position = 0;
        let file = self.results[self.selected].clone();
        proof {
            assert(file@ == self.results.deep_view()[self.selected as int]);
        }
        Message::Once(OnceOperation::ShowFile { file })
    }

    /// Reacts to a broadcast message. The setup notification loads the file
    /// list from the repository and shows its first entry; a commit change
    /// reloads the list and re-applies the filter; a filter announcement
    /// re-applies the filter with its query and mode; the jump directives
    /// move this panel's focus flag.
    pub fn _handle_message(&mut self, message: &Message, repo: &RepositoryInfo) -> (r: Message)
        requires
            old(self).wf(),
            repo.wf(),
        ensures
            final(self).wf(),
            reply_ok(message, &r),
            r is NoAction || r is Error || r matches Message::Once(OnceOperation::ShowFile { .. }),
            message matches Message::MultipleTimes(MultipleTimesOperation::Filtering {
                query,
                mode,
            }) ==> {
                &&& final(self).query == *query
                &&& final(self).mode == *mode
                &&& final(self).items == old(self).items
                &&& final(self).results.deep_view() == shown_results(
                    old(self).items.deep_view(),
                    query@,
                    *mode,
                )
                &&& final(self).start_position == 0
                &&& final(self).selected == vstd::math::min(
                    old(self).selected as int,
                    final(self).results@.len() - 1,
                )
                &&& r matches Message::Once(OnceOperation::ShowFile { file }) && file@ == final(self).results.deep_view()[final(self).selected as int]
            },
            (message == Message::MultipleTimes(MultipleTimesOperation::SetUp) || message
                == Message::MultipleTimes(MultipleTimesOperation::ChangeShowCommit)) ==> {
                &&& !(r is NoAction)
                &&& r is Error ==> *final(self) == *old(self)
                &&& r matches Message::Once(OnceOperation::ShowFile { file }) ==> {
                    &&& final(self).query == old(self).query
                    &&& final(self).mode == old(self).mode
                    &&& final(self).results.deep_view() == shown_results(
                        final(self).items.deep_view(),
                        old(self).query@,
                        old(self).mode,
                    )
                    &&& final(self).start_position == 0
                    &&& file@ == final(self).results.deep_view()[final(self).selected as int]
                }
            },
            message == Message::Once(OnceOperation::JumpToFiler) ==> *final(self) == (Filer {
                focus: Focus::ON,
                ..*old(self)
            }) && r == Message::NoAction,
            message == Message::Once(OnceOperation::JumpToContentView) ==> *final(self) == (Filer {
                focus: Focus::Off,
                ..*old(self)
            }) && r == Message::NoAction,
            !(message matches Message::MultipleTimes(MultipleTimesOperation::Filtering { .. })
                || message == Message::MultipleTimes(MultipleTimesOperation::SetUp) || message
                == Message::MultipleTimes(MultipleTimesOperation::ChangeShowCommit) || message
                == Message::Once(OnceOperation::JumpToFiler) || message == Message::Once(
                OnceOperation::JumpToContentView,
            )) ==> *final(self) == *old(self) && r == Message::NoAction,
    {
        match message {
            Message::Once(OnceOperation::JumpToContentView) => {
                self.focus = Focus::Off;
                Message::NoAction
            },
            Message::Once(OnceOperation::JumpToFiler) => {
                self.focus = Focus::ON;
                Message::NoAction
            },
            Message::MultipleTimes(MultipleTimesOperation::SetUp) => {
                match repo.recursive_walk() {
                    Ok(items) => {
                        self.items = items;
                        self.selected = 0;
                        let r = self.apply_filter();
                        r
                    },
                    Err(_) => Message::Error {
                        _message: String::from_str("failed to list the repository files"),
                    },
                }
            },
            Message::MultipleTimes(MultipleTimesOperation::ChangeShowCommit) => {
                match repo.recursive_walk() {
                    Ok(items) => {
                        self.items = items;
                        let r = self.apply_filter();
                        r
                    },
                    Err(_) => Message::Error {
                        _message: String::from_str("failed to list the repository files"),
                    },
                }
            },
            Message::MultipleTimes(MultipleTimesOperation::Filtering { query, mode }) => {
                self.query = query.clone();
                self.mode = *mode;
                let r = self.apply_filter();
                r
            },
            _ => Message::NoAction,
        }
    }

    /// The broadcast entry point; its reply always steps the rank down.
    pub fn handle_message(&mut self, message: &Message, repo: &RepositoryInfo) -> (r: Message)
        requires
            old(self).wf(),
            repo.wf(),
        ensures
            final(self).wf(),
            reply_ok(message, &r),
            r is NoAction || r is Error || r matches Message::Once(OnceOperation::ShowFile { .. }),
            message matches Message::MultipleTimes(MultipleTimesOperation::Filtering {
                query,
                mode,
            }) ==> {
                &&& final(self).query == *query
                &&& final(self).mode == *mode
                &&& final(self).items == old(self).items
                &&& final(self).results.deep_view() == shown_results(
                    old(self).items.deep_view(),
                    query@,
                    *mode,
                )
                &&& final(self).start_position == 0
                &&& final(self).selected == vstd::math::min(
                    old(self).selected as int,
                    final(self).results@.len() - 1,
                )
                &&& r matches Message::Once(OnceOperation::ShowFile { file }) && file@ == final(self).results.deep_view()[final(self).selected as int]
            },
            (message == Message::MultipleTimes(MultipleTimesOperation::SetUp) || message
                == Message::MultipleTimes(MultipleTimesOperation::ChangeShowCommit)) ==> {
                &&& !(r is NoAction)
                &&& r is Error ==> *final(self) == *old(self)
                &&& r matches Message::Once(OnceOperation::ShowFile { file }) ==> {
                    &&& final(self).query == old(self).query
                    &&& final(self).mode == old(self).mode
                    &&& final(self).results.deep_view() == shown_results(
                        final(self).items.deep_view(),
                        old(self).query@,
                        old(self).mode,
                    )
                    &&& final(self).start_position == 0
                    &&& file@ == final(self).results.deep_view()[final(self).selected as int]
                }
            },
            message == Message::Once(OnceOperation::JumpToFiler) ==> *final(self) == (Filer {
                focus: Focus::ON,
                ..*old(self)
            }) && r == Message::NoAction,
            message == Message::Once(OnceOperation::JumpToContentView) ==> *final(self) == (Filer {
                focus: Focus::Off,
                ..*old(self)
            }) && r == Message::NoAction,
            !(message matches Message::MultipleTimes(MultipleTimesOperation::Filtering { .. })
                || message == Message::MultipleTimes(MultipleTimesOperation::SetUp) || message
                == Message::MultipleTimes(MultipleTimesOperation::ChangeShowCommit) || message
                == Message::Once(OnceOperation::JumpToFiler) || message == Message::Once(
                OnceOperation::JumpToContentView,
            )) ==> *final(self) == *old(self) && r == Message::NoAction,
    {
        self._handle_message(message, repo)
    }

    /// Flips this panel's focus flag.
    pub fn process_focus(&mut self)
        ensures
            *final(self) == (Filer {
                focus: match old(self).focus {
                    Focus::Off => Focus::ON,
                    Focus::ON => Focus::Off,
                },
                ..*old(self)
            }),
    {
        match self.focus {
            Focus::Off => self.focus = Focus::ON,
            Focus::ON => self.focus = Focus::Off,
        }
    }

    /// Reacts to a keystroke while this panel is focused: up and down move
    /// the selection and show the newly selected file, left and right
    /// scroll horizontally within the scroll range, enter jumps to the
    /// content view.
    pub fn process_events(&mut self, key: Key) -> (r: Message)
        requires
            old(self).wf(),
        ensures
            final(self).wf(),
            final(self).results == old(self).results,
            final(self).items == old(self).items,
            final(self).query == old(self).query,
            final(self).mode == old(self).mode,
            final(self).focus == old(self).focus,
            key == Key::Up && old(self).selected > 0 ==> final(self).selected == old(self).selected - 1 && (r matches Message::Once(OnceOperation::ShowFile { file }) && file@
                == final(self).results.deep_view()[final(self).selected as int]),
            key == Key::Up && old(self).selected == 0 ==> *final(self) == *old(self) && r
                == Message::NoAction,
            key == Key::Down && old(self).results@.len() > 0 && old(self).selected < old(self).results@.len() - 1 ==> final(self).selected == old(self).selected + 1 && (
            r matches Message::Once(OnceOperation::ShowFile { file }) && file@ == final(self).results.deep_view()[final(self).selected as int]),
            key == Key::Down && (old(self).results@.len() == 0 || old(self).selected >= old(self).results@.len() - 1) ==> *final(self) == *old(self) && r == Message::NoAction,
            key == Key::Left ==> final(self).start_position == if old(self).start_position > 0 {
                old(self).start_position - 1
            } else {
                0
            },
            key == Key::Right ==> final(self).start_position == vstd::math::min(
                old(self).start_position + 1,
                old(self).max_scroll as int,
            ),
            key == Key::Enter ==> r == Message::Once(OnceOperation::JumpToContentView) && *final(self) == *old(self),
    {
        match key {
            Key::Up => {
                if self.selected > 0 {
                    self.selected = self.selected - 1;
                    let file = self.results[self.selected].clone();
                    proof {
                        assert(file@ == self.results.deep_view()[self.selected as int]);
                    }
                    return Message::Once(OnceOperation::ShowFile { file });
                }
                Message::NoAction
            },
            Key::Down => {
                let len = self.results.len();
                if len > 0 && self.selected < len - 1 {
                    self.selected = self.selected + 1;
                    let file = self.results[self.selected].clone();
                    proof {
                        assert(file@ == self.results.deep_view()[self.selected as int]);
                    }
                    return Message::Once(OnceOperation::ShowFile { file });
                }
                Message::NoAction
            },
            Key::Left => {
                if self.start_position > 0 {
                    self.start_position = self.start_position - 1;
                }
                Message::NoAction
            },
            Key::Right => {
                if self.start_position < self.max_scroll {
                    self.start_position = self.start_position + 1;
                } else {
                    self.start_position = self.max_scroll;
                }
                Message::NoAction
            },
            Key::Enter => Message::Once(OnceOperation::JumpToContentView),
            _ => Message::NoAction,
        }
    }

    /// Re-derives the horizontal scroll range from the viewport width: the
    /// longest result, in characters, less the room the viewport offers.
    pub fn set_viewport(&mut self, width: usize)
        ensures
            *final(self) == (Filer { max_scroll: final(self).max_scroll, ..*old(self) }),
            final(self).max_scroll == (if max_item_len(old(self).results.deep_view()) > (if width
                >= 3 {
                width - 3
            } else {
                0
            }) {
                max_item_len(old(self).results.deep_view()) - (if width >= 3 {
                    width - 3
                } else {
                    0
                })
            } else {
                0
            }),
    {
        let longest = longest_result_len(&self.results);
        let room = if width >= 3 {
            width - 3
        } else {
            0
        };
        if longest > room {
            self.max_scroll = longest - room;
        } else {
            self.max_scroll = 0;
        }
    }
}

/// The length, in characters, of the longest item; zero for none.
pub open spec fn max_item_len(items: Seq<Seq<char>>) -> nat
    decreases items.len(),
{
    if items.len() == 0 {
        0
    } else if items.last().len() > max_item_len(items.drop_last()) {
        items.last().len()
    } else {
        max_item_len(items.drop_last())
    }
}

fn longest_result_len(items: &Vec<String>) -> (r: usize)
    ensures
        r == max_item_len(items.deep_view()),
{
    let n = items.len();
    let mut best: usize = 0;
    let mut i: usize = 0;
    proof {
        assert(items.deep_view().take(0) =~~= Seq::<Seq<char>>::empty());
    }
    while i < n
        invariant
            n == items@.len(),
            i <= n,
            best == max_item_len(items.deep_view().take(i as int)),
        decreases n - i,
    {
        let len = items[i].as_str().unicode_len();
        proof {
            assert(items.deep_view().take(i as int + 1).drop_last() =~~= items.deep_view().take(
                i as int,
            ));
            assert(items.deep_view().take(i as int + 1).last() == items.deep_view()[i as int]);
        }
        if len > best {
            best = len;
        }
        i = i + 1;
    }
    proof {
        assert(items.deep_view().take(n as int) =~~= items.deep_view());
    }
    best
}

} // verus!
