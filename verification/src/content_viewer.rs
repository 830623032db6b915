//! The content-viewer panel: renders a file's blame-annotated rows in one
//! of three modes and keeps a clamped scroll position over the result.

use vstd::prelude::*;

use crate::messages::{reply_ok, Focus, Key, Message, OnceOperation};
use crate::repository::{CommitRow, RepositoryInfo};
use crate::strutil::{dec_padded, dec_rep, push_char, usize_to_dec, usize_to_dec_padded};

verus! {

/// How file content is rendered: bare lines, lines with their numbers, or
/// lines with the commit that last changed them.
#[derive(Clone, Copy, Debug, PartialEq, Eq, Structural)]
pub enum ShowMode {
    WithLine,
    WithBlame,
    NoLine,
}

/// The largest line number among the rows; zero for none.
pub open spec fn max_row_number(rows: Seq<CommitRow>) -> nat
    decreases rows.len(),
{
    if rows.len() == 0 {
        0
    } else if rows.last().number > max_row_number(rows.drop_last()) {
        rows.last().number as nat
    } else {
        max_row_number(rows.drop_last())
    }
}

/// How one row is rendered: the bare line, or the line prefixed by its
/// padded number or its commit identifier, separated by a pipe.
pub open spec fn row_part(row: CommitRow, mode: ShowMode, width: nat) -> Seq<char> {
    match mode {
        ShowMode::NoLine => row.line@,
        ShowMode::WithLine => dec_padded(row.number as nat, width) + seq![' ', '|', ' ']
            + row.line@ + seq![' '],
        ShowMode::WithBlame => row.commit@ + seq![' ', '|', ' '] + row.line@ + seq![' '],
    }
}

/// The rendered rows, joined by line feeds.
pub open spec fn joined_rows(rows: Seq<CommitRow>, mode: ShowMode, width: nat) -> Seq<char>
    decreases rows.len(),
{
    if rows.len() == 0 {
        Seq::empty()
    } else {
        joined_rows(rows.drop_last(), mode, width) + (if rows.len() >= 2 {
            seq!['\n']
        } else {
            Seq::<char>::empty()
        }) + row_part(rows.last(), mode, width)
    }
}

/// The full rendering of the rows in a mode; line numbers are padded to the
/// width of the largest one.
pub open spec fn rendered(rows: Seq<CommitRow>, mode: ShowMode) -> Seq<char> {
    joined_rows(rows, mode, dec_rep(max_row_number(rows)).len())
}

fn max_number(rows: &Vec<CommitRow>) -> (r: usize)
    ensures
        r == max_row_number(rows@),
{
    let n = rows.len();
    let mut best: usize = 0;
    let mut i: usize = 0;
    proof {
        assert(rows@.take(0) =~= Seq::<CommitRow>::empty());
    }
    while i < n
        invariant
            n == rows@.len(),
            i <= n,
            best == max_row_number(rows@.take(i as int)),
        decreases n - i,
    {
        proof {
            assert(rows@.take(i as int + 1).drop_last() =~= rows@.take(i as int));
            assert(rows@.take(i as int + 1).last() == rows@[i as int]);
        }
        if rows[i].number > best {
            best = rows[i].number;
        }
        i = i + 1;
    }
    proof {
        assert(rows@.take(n as int) =~= rows@);
    }
    best
}

impl ShowMode {
    /// Renders the rows in this mode, one per line.
    pub fn concat(&mut self, rows: Vec<CommitRow>) -> (r: String)
        ensures
            *final(self) == *old(self),
            r@ == rendered(rows@, *old(self)),
    {
        let mode = *self;
        let width = {
            let digits = usize_to_dec(max_number(&rows));
            digits.as_str().unicode_len()
        };
        let n = rows.len();
        let mut r = String::new();
        let mut i: usize = 0;
        proof {
            reveal_strlit(" | ");
            reveal_strlit(" ");
            assert(" | "@ =~= seq![' ', '|', ' ']);
            assert(" "@ =~= seq![' ']);
            assert(rows@.take(0) =~= Seq::<CommitRow>::empty());
        }
        while i < n
            invariant
                n == rows@.len(),
                i <= n,
                mode == *old(self),
                width == dec_rep(max_row_number(rows@)).len(),
                " | "@ =~= seq![' ', '|', ' '],
                " "@ =~= seq![' '],
                r@ == joined_rows(rows@.take(i as int), mode, width as nat),
            decreases n - i,
        {
            if i > 0 {
                push_char(&mut r, '\n');
            }
            match mode {
                ShowMode::NoLine => {
                    r.append(rows[i].line.as_str());
                },
                ShowMode::WithLine => {
                    let padded = usize_to_dec_padded(rows[i].number, width);
                    r.append(padded.as_str());
                    r.append(" | ");
                    r.append(rows[i].line.as_str());
                    r.append(" ");
                },
                ShowMode::WithBlame => {
                    r.append(rows[i].commit.as_str());
                    r.append(" | ");
                    r.append(rows[i].line.as_str());
                    r.append(" ");
                },
            }
            proof {
                assert(rows@.take(i as int + 1).drop_last() =~= rows@.take(i as int));
                assert(rows@.take(i as int + 1).last() == rows@[i as int]);
                assert(r@ =~= joined_rows(rows@.take(i as int + 1), mode, width as nat));
            }
            i = i + 1;
        }
        proof {
            assert(rows@.take(n as int) =~= rows@);
        }
        r
    }
}

/// How far down the content may scroll: a few rows past the last page, and
/// never past what the machine can count.
pub open spec fn scroll_limit(context_size: usize, height: usize) -> int {
    let room: int = if context_size > height + 1 {
        context_size - height - 1
    } else {
        0
    };
    if room + 4 <= usize::MAX {
        room + 4
    } else {
        usize::MAX as int
    }
}

/// The content-viewer panel.
pub struct ContentViewer {
    pub focus: Focus,
    pub title: String,
    pub content: String,
    pub context_size: usize,
    pub scroll_position: usize,
    pub horizontal_scroll: usize,
    pub height: usize,
    pub mode: ShowMode,
}

impl ContentViewer {
    pub fn new() -> (r: ContentViewer)
        ensures
            r.focus == Focus::Off,
            r.title@ == "Content Viewer"@,
            r.content@ == Seq::<char>::empty(),
            r.context_size == 0,
            r.scroll_position == 0,
            r.horizontal_scroll == 0,
            r.height == 0,
            r.mode == ShowMode::WithLine,
    {
        ContentViewer {
            focus: Focus::Off,
            title: String::from_str("Content Viewer"),
            content: String::new(),
            context_size: 0,
            scroll_position: 0,
            horizontal_scroll: 0,
            height: 0,
            mode: ShowMode::WithLine,
        }
    }

    /// Switches between bare lines and numbered lines (blame view also
    /// returns to numbered lines), then re-renders the current file.
    pub fn toggle_line_numbers(&mut self, repo: &RepositoryInfo)
        requires
            repo.wf(),
        ensures
            final(self).mode == match old(self).mode {
                ShowMode::NoLine => ShowMode::WithLine,
                ShowMode::WithLine => ShowMode::NoLine,
                ShowMode::WithBlame => ShowMode::WithLine,
            },
            final(self).title == old(self).title,
            final(self).focus == old(self).focus,
            final(self).scroll_position == 0 || (final(self).content == old(self).content && final(self).scroll_position == old(self).scroll_position),
    {
        self.mode = match self.mode {
            ShowMode::NoLine => ShowMode::WithLine,
            ShowMode::WithLine => ShowMode::NoLine,
            ShowMode::WithBlame => ShowMode::WithLine,
        };
        self.refresh_content(repo);
    }

    /// Switches blame view on or off, then re-renders the current file.
    pub fn toggle_blame_mode(&mut self, repo: &RepositoryInfo)
        requires
            repo.wf(),
        ensures
            final(self).mode == match old(self).mode {
                ShowMode::NoLine => ShowMode::WithBlame,
                ShowMode::WithLine => ShowMode::WithBlame,
                ShowMode::WithBlame => ShowMode::NoLine,
            },
            final(self).title == old(self).title,
            final(self).focus == old(self).focus,
            final(self).scroll_position == 0 || (final(self).content == old(self).content && final(self).scroll_position == old(self).scroll_position),
    {
        self.mode = match self.mode {
            ShowMode::NoLine => ShowMode::WithBlame,
            ShowMode::WithLine => ShowMode::WithBlame,
            ShowMode::WithBlame => ShowMode::NoLine,
        };
        self.refresh_content(repo);
    }

    /// Re-fetches the current file and re-renders it in the current mode,
    /// rewinding the vertical scroll; a failed fetch leaves the view as it
    /// stands.
    fn refresh_content(&mut self, repo: &RepositoryInfo)
        requires
            repo.wf(),
        ensures
            final(self).mode == old(self).mode,
            final(self).title == old(self).title,
            final(self).focus == old(self).focus,
            final(self).scroll_position == 0 || (final(self).content == old(self).content && final(self).scroll_position == old(self).scroll_position),
    {
        match repo.get_content(self.title.clone()) {
            Ok(rows) => {
                let text = self.mode.concat(rows);
                self.content = text;
                self.scroll_position = 0;
            },
            Err(_) => {},
        }
    }

    /// Reacts to a broadcast message: a show-file directive retitles the
    /// view and renders that file's rows; a failed fetch is reported as an
    /// error message and leaves the view exactly as it stands. The jump
    /// directive grants this panel focus.
    pub fn _handle_message(&mut self, message: &Message, repo: &RepositoryInfo) -> (r: Message)
        requires
            repo.wf(),
        ensures
            reply_ok(message, &r),
            r is NoAction || r is Error,
            message matches Message::Once(OnceOperation::ShowFile { file }) ==> {
                &&& r is NoAction ==> final(self).title@ == file@ && final(self).scroll_position
                    == 0
                &&& r is Error ==> *final(self) == *old(self)
            },
            message matches Message::Once(OnceOperation::JumpToContentView) ==> final(self).focus
                == Focus::ON && *final(self) == (ContentViewer { focus: Focus::ON, ..*old(self) }),
            !(message matches Message::Once(OnceOperation::ShowFile { .. }) || message
                matches Message::Once(OnceOperation::JumpToContentView)) ==> *final(self) == *old(
                self,
            ) && r == Message::NoAction,
    {
        match message {
            Message::Once(OnceOperation::ShowFile { file }) => {
                match repo.get_content(file.clone()) {
                    Ok(rows) => {
                        self.title = file.clone();
                        let text = self.mode.concat(rows);
                        self.content = text;
                        self.scroll_position = 0;
                        Message::NoAction
                    },
                    Err(_) => Message::Error {
                        _message: String::from_str("failed to get content"),
                    },
                }
            },
            Message::Once(OnceOperation::JumpToContentView) => {
                self.focus = Focus::ON;
                Message::NoAction
            },
            _ => Message::NoAction,
        }
    }

    /// The broadcast entry point; its reply always steps the rank down.
    pub fn handle_message(&mut self, message: &Message, repo: &RepositoryInfo) -> (r: Message)
        requires
            repo.wf(),
        ensures
            reply_ok(message, &r),
            r is NoAction || r is Error,
            message matches Message::Once(OnceOperation::ShowFile { file }) ==> {
                &&& r is NoAction ==> final(self).title@ == file@ && final(self).scroll_position
                    == 0
                &&& r is Error ==> *final(self) == *old(self)
            },
            message matches Message::Once(OnceOperation::JumpToContentView) ==> final(self).focus
                == Focus::ON && *final(self) == (ContentViewer { focus: Focus::ON, ..*old(self) }),
            !(message matches Message::Once(OnceOperation::ShowFile { .. }) || message
                matches Message::Once(OnceOperation::JumpToContentView)) ==> *final(self) == *old(
                self,
            ) && r == Message::NoAction,
    {
        self._handle_message(message, repo)
    }

    /// Flips this panel's focus flag.
    pub fn process_focus(&mut self)
        ensures
            *final(self) == (ContentViewer {
                focus: match old(self).focus {
                    Focus::Off => Focus::ON,
                    Focus::ON => Focus::Off,
                },
                ..*old(self)
            }),
    {
        match self.focus {
            Focus::Off => self.focus = Focus::ON,
            Focus::ON => self.focus = Focus::Off,
        }
    }

    /// Re-derives the scroll context from the viewport on each draw: the
    /// rendered line count and the viewport height.
    pub fn set_viewport(&mut self, context_size: usize, height: usize)
        ensures
            *final(self) == (ContentViewer { context_size, height, ..*old(self) }),
    {
        self.context_size = context_size;
        self.height = height;
    }

    /// Reacts to a keystroke while this panel is focused: vertical scroll
    /// clamped so the last page stays reachable, horizontal scroll bounded
    /// below by zero alone, and the render-mode toggles.
    pub fn process_events(&mut self, key: Key, repo: &RepositoryInfo) -> (r: Message)
        requires
            repo.wf(),
        ensures
            r == Message::NoAction,
            final(self).title == old(self).title,
            final(self).focus == old(self).focus,
            (key == Key::Up || key == Key::Char('k')) ==> final(self).scroll_position == (if old(self).scroll_position > 0 {
                old(self).scroll_position - 1
            } else {
                0
            }) && final(self).content == old(self).content,
            (key == Key::Down || key == Key::Char('j')) ==> final(self).scroll_position == (if old(self).scroll_position < scroll_limit(old(self).context_size, old(self).height) {
                old(self).scroll_position + 1
            } else {
                old(self).scroll_position as int
            }) && final(self).content == old(self).content,
            (key == Key::Left || key == Key::Char('h')) ==> final(self).horizontal_scroll == (if old(self).horizontal_scroll > 0 {
                old(self).horizontal_scroll - 1
            } else {
                0
            }) && *final(self) == (ContentViewer {
                horizontal_scroll: final(self).horizontal_scroll,
                ..*old(self)
            }),
            (key == Key::Right || key == Key::Char('l')) ==> final(self).horizontal_scroll == (if old(self).horizontal_scroll < usize::MAX {
                old(self).horizontal_scroll + 1
            } else {
                usize::MAX as int
            }) && *final(self) == (ContentViewer {
                horizontal_scroll: final(self).horizontal_scroll,
                ..*old(self)
            }),
            key == Key::Char('n') ==> final(self).mode == (match old(self).mode {
                ShowMode::NoLine => ShowMode::WithLine,
                ShowMode::WithLine => ShowMode::NoLine,
                ShowMode::WithBlame => ShowMode::WithLine,
            }),
            key == Key::Char('b') ==> final(self).mode == (match old(self).mode {
                ShowMode::NoLine => ShowMode::WithBlame,
                ShowMode::WithLine => ShowMode::WithBlame,
                ShowMode::WithBlame => ShowMode::NoLine,
            }),
            key matches Key::Char(c) ==> (!(c == 'k' || c == 'j' || c == 'h' || c == 'l' || c
                == 'n' || c == 'b') ==> *final(self) == *old(self)),
            !(key == Key::Up || key == Key::Down || key == Key::Left || key == Key::Right || key
                is Char) ==> *final(self) == *old(self),
    {
        match key {
            Key::Up => {
                if self.scroll_position > 0 {
                    self.scroll_position = self.scroll_position - 1;
                }
                Message::NoAction
            },
            Key::Down => {
                self.scroll_down();
                Message::NoAction
            },
            Key::Left => {
                if self.horizontal_scroll > 0 {
                    self.horizontal_scroll = self.horizontal_scroll - 1;
                }
                Message::NoAction
            },
            Key::Right => {
                self.horizontal_scroll = self.horizontal_scroll.saturating_add(1);
                Message::NoAction
            },
            Key::Char(c) => {
                if c == 'k' {
                    if self.scroll_position > 0 {
                        self.scroll_position = self.scroll_position - 1;
                    }
                } else if c == 'j' {
                    self.scroll_down();
                } else if c == 'h' {
                    if self.horizontal_scroll > 0 {
                        self.horizontal_scroll = self.horizontal_scroll - 1;
                    }
                } else if c == 'l' {
                    self.horizontal_scroll = self.horizontal_scroll.saturating_add(1);
                } else if c == 'n' {
                    self.toggle_line_numbers(repo);
                } else if c == 'b' {
                    self.toggle_blame_mode(repo);
                }
                // The key that hands the file to an external viewer is left
                // to the embedding around the library.
                Message::NoAction
            },
            _ => Message::NoAction,
        }
    }

    /// One step down, stopped where the last page of content would leave
    /// the viewport.
    fn scroll_down(&mut self)
        ensures
            final(self).scroll_position == (if old(self).scroll_position < scroll_limit(
                old(self).context_size,
                old(self).height,
            ) {
                old(self).scroll_position + 1
            } else {
                old(self).scroll_position as int
            }),
            *final(self) == (ContentViewer {
                scroll_position: final(self).scroll_position,
                ..*old(self)
            }),
    {
        let room = self.context_size.saturating_sub(self.height.saturating_add(1));
        let bound = room.saturating_add(4);
        if self.scroll_position < bound {
            self.scroll_position = self.scroll_position + 1;
        }
    }
}

} // verus!
