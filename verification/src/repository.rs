//! The repository access layer: a repository handle together with the
//! current-commit cursor, commit navigation, filtered file enumeration and
//! blame-annotated content retrieval.
//!
//! Everything the layer decides — which commit the cursor moves to, which
//! identifiers match a prefix, which blobs count as text files, how lines
//! and their authors are zipped — is verified here; only the raw calls into
//! the git library stand behind trusted wrappers.

use vstd::prelude::*;

use crate::strutil::{
    ascii_seq, ascii_to_string, bytes_are_ascii, first_line, first_line_spec, is_ascii_bytes,
    is_hex_digit_ci, is_oid, is_oid_string, split_lines, starts_with_seq, starts_with_str,
    str_eq,
};

verus! {

#[verifier::external_type_specification]
#[verifier::external_body]
pub struct ExRepository(git2::Repository);

/// One line of a file, annotated with where it came from.
#[derive(Debug, PartialEq)]
pub struct CommitRow {
    pub _author: String,
    pub commit: String,
    pub number: usize,
    pub line: String,
}

impl CommitRow {
    pub fn new(author: String, commit: String, number: usize, line: String) -> (r: CommitRow)
        ensures
            r._author == author,
            r.commit == commit,
            r.number == number,
            r.line == line,
    {
        CommitRow { _author: author, commit, number, line }
    }
}

/// A blob found in a commit's tree: its path and its raw content.
pub struct BlobEntry {
    pub path: String,
    pub bytes: Vec<u8>,
}

/// What the blame computation reports for one physical line: the commit
/// that last changed it and, if recorded, its author's name.
pub struct LineOrigin {
    pub commit_id: String,
    pub author: Option<String>,
}

/// The ways a repository operation can fail.
#[derive(Clone, Copy, Debug, PartialEq, Eq, Structural)]
pub enum RepositoryError {
    RepositoryUnavailable,
    CursorCorrupted,
    AmbiguousCommit,
    CommitNotFound,
    PathNotFound,
    BlameUnavailable,
    HistoryUnavailable,
}

/// The order a history walk hands commits out in.
#[derive(Clone, Copy, Debug, PartialEq, Eq, Structural)]
pub enum WalkOrder {
    /// Oldest first.
    Chronological,
    /// By commit time, newest first.
    TimeSorted,
    /// The library's default order.
    Unsorted,
}

/// Blobs at most this large can count as text files.
pub const MAX_FILE_SIZE: usize = 16 * 1024;

/// Relies on git2::Repository::discover: opens the repository found at or
/// above the given path, if any.
#[verifier::external_body]
fn discover_at(path: &String) -> (r: Option<git2::Repository>) {
    git2::Repository::discover(path.as_str()).ok()
}

/// Relies on git2::Repository::head, git2::Reference::target and the hex
/// form of git2::Oid, which is forty lowercase hexadecimal digits.
#[verifier::external_body]
fn head_id(repo: &git2::Repository) -> (r: Option<String>)
    ensures
        r matches Some(id) ==> is_oid(id@),
{
    let head = repo.head().ok()?;
    Some(head.target()?.to_string())
}

/// Relies on git2::Oid::from_str, git2::Repository::find_commit and
/// git2::Commit::message. The outer layer is present when the text parses
/// as an identifier of an existing commit; the inner layer is the message,
/// absent when it is not valid text.
#[verifier::external_body]
fn find_commit_message(repo: &git2::Repository, id: &String) -> (r: Option<Option<String>>) {
    let oid = git2::Oid::from_str(id).ok()?;
    let commit = repo.find_commit(oid).ok()?;
    Some(commit.message().ok().map(|m| m.to_string()))
}

/// Relies on git2::Oid::from_str, git2::Repository::find_commit,
/// git2::Commit::parent_count and git2::Commit::parent_id: the first
/// parent's identifier, or nothing when the commit is missing or has none.
#[verifier::external_body]
fn first_parent_id(repo: &git2::Repository, id: &String) -> (r: Option<String>)
    ensures
        r matches Some(p) ==> is_oid(p@),
{
    let oid = git2::Oid::from_str(id).ok()?;
    let commit = repo.find_commit(oid).ok()?;
    if commit.parent_count() > 0 {
        Some(commit.parent_id(0).ok()?.to_string())
    } else {
        None
    }
}

/// Relies on git2::Oid::from_str and git2::Repository::find_commit: the
/// identifier in its canonical lowercase hex form, present exactly when the
/// text parses as an identifier and the commit exists. Parsing only
/// succeeds on at most forty hexadecimal digits of either case, and
/// parsing a full-length lowercase identifier and printing it again is the
/// identity, so canonical input comes back unchanged.
#[verifier::external_body]
fn commit_lookup_normalized(repo: &git2::Repository, text: &String) -> (r: Option<String>)
    ensures
        r matches Some(id) ==> is_oid(id@),
        r is Some ==> text@.len() <= 40 && forall|i: int|
            0 <= i < text@.len() ==> is_hex_digit_ci(#[trigger] text@[i]),
        is_oid(text@) ==> (r matches Some(id) ==> id@ == text@),
{
    let oid = git2::Oid::from_str(text).ok()?;
    let commit = repo.find_commit(oid).ok()?;
    Some(commit.id().to_string())
}

/// Relies on git2::Repository::revwalk, git2::Revwalk::push_head and
/// git2::Revwalk::set_sorting: the identifiers of the commits reachable
/// from head, in the asked-for order.
#[verifier::external_body]
fn revwalk_ids(repo: &git2::Repository, order: WalkOrder) -> (r: Option<Vec<String>>)
    ensures
        r matches Some(ids) ==> forall|i: int| 0 <= i < ids@.len() ==> is_oid(#[trigger] ids@[i]@),
{
    let mut walk = repo.revwalk().ok()?;
    walk.push_head().ok()?;
    match order {
        WalkOrder::Chronological => walk.set_sorting(git2::Sort::REVERSE).ok()?,
        WalkOrder::TimeSorted => walk.set_sorting(git2::Sort::TIME).ok()?,
        WalkOrder::Unsorted => {},
    }
    let mut ids: Vec<String> = Vec::new();
    for oid in walk {
        ids.push(oid.ok()?.to_string());
    }
    Some(ids)
}

/// Relies on git2::Repository::find_commit, git2::Commit::tree,
/// git2::Tree::walk in pre-order, git2::TreeEntry::name,
/// git2::TreeEntry::to_object, git2::Object::peel_to_blob and
/// git2::Blob::content: every blob under the commit's tree, in traversal
/// order, with its path and raw content.
#[verifier::external_body]
fn tree_blob_entries(repo: &git2::Repository, id: &String) -> (r: Option<Vec<BlobEntry>>) {
    let oid = git2::Oid::from_str(id).ok()?;
    let tree = repo.find_commit(oid).ok()?.tree().ok()?;
    let mut out: Vec<BlobEntry> = Vec::new();
    let _ = tree.walk(git2::TreeWalkMode::PreOrder, |root, entry| {
        if let (Ok(name), Ok(obj)) = (entry.name(), entry.to_object(repo)) {
            if let Ok(blob) = obj.peel_to_blob() {
                out.push(BlobEntry { path: format!("{}{}", root, name), bytes: blob.content().to_vec() });
            }
        }
        git2::TreeWalkResult::Ok
    });
    Some(out)
}

/// Relies on git2::Repository::find_commit, git2::Commit::tree,
/// git2::Tree::get_path, git2::TreeEntry::to_object,
/// git2::Object::peel_to_blob and git2::Blob::content: the raw content of
/// the blob at the given path in the commit's tree.
#[verifier::external_body]
fn blob_bytes(repo: &git2::Repository, id: &String, path: &String) -> (r: Option<Vec<u8>>) {
    let oid = git2::Oid::from_str(id).ok()?;
    let tree = repo.find_commit(oid).ok()?.tree().ok()?;
    let entry = tree.get_path(std::path::Path::new(path.as_str())).ok()?;
    let blob = entry.to_object(repo).ok()?.peel_to_blob().ok()?;
    Some(blob.content().to_vec())
}

/// Relies on git2::Repository::blame_file with
/// git2::BlameOptions::newest_commit, git2::Blame::get_line,
/// git2::BlameHunk::final_commit_id, git2::BlameHunk::orig_signature and
/// git2::Signature::name: for each one-based line number up to
/// `line_count`, the hunk's commit and author name, where the blame has
/// them.
#[verifier::external_body]
fn blame_origins(repo: &git2::Repository, id: &String, path: &String, line_count: usize) -> (r:
    Option<Vec<Option<LineOrigin>>>)
    ensures
        r matches Some(v) ==> v@.len() == line_count,
        r matches Some(v) ==> forall|i: int|
            0 <= i < v@.len() ==> (#[trigger] v@[i] matches Some(o) ==> is_oid(o.commit_id@)),
{
    let oid = git2::Oid::from_str(id).ok()?;
    let mut opts = git2::BlameOptions::new();
    opts.newest_commit(oid);
    let blame = repo.blame_file(std::path::Path::new(path.as_str()), Some(&mut opts)).ok()?;
    let mut out: Vec<Option<LineOrigin>> = Vec::new();
    for lineno in 1..=line_count {
        out.push(blame.get_line(lineno).map(|hunk| LineOrigin {
            commit_id: hunk.final_commit_id().to_string(),
            author: hunk.orig_signature().and_then(|sig| sig.name().ok().map(|n| n.to_string())),
        }));
    }
    Some(out)
}

/// Where the cursor stands after a move to the first parent: on the parent
/// the repository names, or unmoved when there is none.
pub fn resolve_parent(current: String, parent: Option<String>) -> (r: String)
    requires
        is_oid(current@),
        parent matches Some(p) ==> is_oid(p@),
    ensures
        is_oid(r@),
        parent is None ==> r@ == current@,
        parent matches Some(p) ==> r@ == p@,
{
    match parent {
        Some(p) => p,
        None => current,
    }
}

/// The identifier after the first occurrence of `cur` in `ids`, if any.
pub open spec fn successor_in(ids: Seq<Seq<char>>, cur: Seq<char>) -> Option<Seq<char>>
    decreases ids.len(),
{
    if ids.len() == 0 {
        Option::None
    } else if ids[0] == cur {
        if ids.len() >= 2 {
            Option::Some(ids[1])
        } else {
            Option::None
        }
    } else {
        successor_in(ids.drop_first(), cur)
    }
}

/// Scans `ids` for `current` and hands back the identifier right after its
/// first occurrence. In a history listed oldest first this is the
/// chronological successor; for the most recent commit, which stands last,
/// there is none and the cursor will stand still.
pub fn find_successor(ids: &Vec<String>, current: &String) -> (r: Option<String>)
    ensures
        r is None <==> successor_in(ids.deep_view(), current@) is None,
        r matches Some(s) ==> successor_in(ids.deep_view(), current@) == Option::Some(s@)
            && ids.deep_view().contains(s@),
{
    let n = ids.len();
    let mut i: usize = 0;
    proof {
        assert(ids.deep_view().skip(0) =~~= ids.deep_view());
    }
    while i < n
        invariant
            n == ids@.len(),
            i <= n,
            successor_in(ids.deep_view(), current@) == successor_in(
                ids.deep_view().skip(i as int),
                current@,
            ),
            forall|j: int| 0 <= j < i ==> ids.deep_view()[j] != current@,
        decreases n - i,
    {
        let ghost dv = ids.deep_view();
        if ids[i].eq(current) {
            proof {
                assert(dv.skip(i as int)[0] == dv[i as int]);
                assert(dv[i as int] == current@);
            }
            if i + 1 < n {
                proof {
                    assert(dv.skip(i as int).len() >= 2);
                    assert(dv.skip(i as int)[1] == dv[i as int + 1]);
                    assert(successor_in(dv, current@) == Option::Some(dv[i as int + 1]));
                }
                return Some(ids[i + 1].clone());
            } else {
                proof {
                    assert(dv.skip(i as int).len() == 1);
                    assert(successor_in(dv, current@) is None);
                }
                return None;
            }
        }
        proof {
            assert(dv.skip(i as int)[0] == dv[i as int]);
            assert(dv[i as int] != current@);
            assert(dv.skip(i as int).drop_first() =~~= dv.skip(i as int + 1));
        }
        i = i + 1;
    }
    proof {
        assert(ids.deep_view().skip(n as int).len() == 0);
    }
    None
}

/// With identifiers that appear only once — as commit identifiers do — the
/// most recent commit, which stands last in a history listed oldest first,
/// has no successor: the cursor stands still on it.
pub proof fn lemma_last_has_no_successor(ids: Seq<Seq<char>>, cur: Seq<char>)
    requires
        ids.len() > 0,
        ids.last() == cur,
        forall|i: int| 0 <= i < ids.len() - 1 ==> ids[i] != cur,
    ensures
        successor_in(ids, cur) is None,
    decreases ids.len(),
{
    if ids.len() > 1 {
        assert(ids[0] != cur);
        let rest = ids.drop_first();
        assert(rest.last() == cur);
        assert forall|i: int| 0 <= i < rest.len() - 1 implies rest[i] != cur by {
            assert(ids[i + 1] != cur);
        }
        lemma_last_has_no_successor(rest, cur);
    }
}

/// How many identifiers start with the given prefix.
pub open spec fn prefix_match_count(ids: Seq<Seq<char>>, p: Seq<char>) -> nat
    decreases ids.len(),
{
    if ids.len() == 0 {
        0
    } else {
        prefix_match_count(ids.drop_last(), p) + if starts_with_seq(ids.last(), p) {
            1nat
        } else {
            0nat
        }
    }
}

proof fn lemma_prefix_count_step(ids: Seq<Seq<char>>, p: Seq<char>, i: int)
    requires
        0 <= i < ids.len(),
    ensures
        prefix_match_count(ids.take(i + 1), p) == prefix_match_count(ids.take(i), p)
            + if starts_with_seq(ids[i], p) {
            1nat
        } else {
            0nat
        },
{
    assert(ids.take(i + 1).drop_last() =~~= ids.take(i));
    assert(ids.take(i + 1).last() == ids[i]);
}

/// Resolves a prefix against the identifiers of all reachable commits:
/// exactly one identifier may start with it; none is unknown, two or more
/// are ambiguous.
pub fn resolve_prefix(ids: &Vec<String>, prefix: &String) -> (r: Result<String, RepositoryError>)
    ensures
        prefix_match_count(ids.deep_view(), prefix@) == 0 ==> r == Err::<
            String,
            RepositoryError,
        >(RepositoryError::CommitNotFound),
        prefix_match_count(ids.deep_view(), prefix@) == 1 ==> (r matches Ok(s)
            && ids.deep_view().contains(s@) && starts_with_seq(s@, prefix@)),
        prefix_match_count(ids.deep_view(), prefix@) >= 2 ==> r == Err::<
            String,
            RepositoryError,
        >(RepositoryError::AmbiguousCommit),
{
    let n = ids.len();
    let mut found: Option<String> = None;
    let mut count: usize = 0;
    let mut i: usize = 0;
    proof {
        assert(ids.deep_view().take(0) =~~= Seq::<Seq<char>>::empty());
    }
    while i < n
        invariant
            n == ids@.len(),
            i <= n,
            count == prefix_match_count(ids.deep_view().take(i as int), prefix@),
            count <= i,
            count >= 1 ==> (found matches Some(s) && ids.deep_view().contains(s@)
                && starts_with_seq(s@, prefix@)),
            count == 0 ==> found is None,
        decreases n - i,
    {
        let ghost dv = ids.deep_view();
        if starts_with_str(&ids[i], prefix) {
            proof {
                assert(dv[i as int] == ids@[i as int]@);
            }
            found = Some(ids[i].clone());
            count = count + 1;
            proof {
                assert(dv.contains(dv[i as int]));
            }
        }
        proof {
            lemma_prefix_count_step(dv, prefix@, i as int);
        }
        i = i + 1;
    }
    proof {
        assert(ids.deep_view().take(n as int) =~~= ids.deep_view());
    }
    if count == 0 {
        Err(RepositoryError::CommitNotFound)
    } else if count == 1 {
        match found {
            Some(s) => Ok(s),
            None => Err(RepositoryError::CommitNotFound),
        }
    } else {
        Err(RepositoryError::AmbiguousCommit)
    }
}

/// A blob counts as a text file when it is under the size ceiling and its
/// content is pure ASCII.
pub open spec fn is_text_entry(e: BlobEntry) -> bool {
    e.bytes@.len() < MAX_FILE_SIZE && is_ascii_bytes(e.bytes@)
}

/// The paths of the text files among the entries, in traversal order.
pub open spec fn text_paths(entries: Seq<BlobEntry>) -> Seq<Seq<char>>
    decreases entries.len(),
{
    if entries.len() == 0 {
        Seq::empty()
    } else if is_text_entry(entries.last()) {
        text_paths(entries.drop_last()).push(entries.last().path@)
    } else {
        text_paths(entries.drop_last())
    }
}

/// Keeps the paths of the blobs that count as text files: small enough and
/// pure ASCII.
pub fn text_file_paths(entries: &Vec<BlobEntry>) -> (r: Vec<String>)
    ensures
        r.deep_view() == text_paths(entries@),
{
    let n = entries.len();
    let mut r: Vec<String> = Vec::new();
    let mut i: usize = 0;
    proof {
        assert(entries@.take(0) =~~= Seq::<BlobEntry>::empty());
        assert(r.deep_view() =~~= text_paths(entries@.take(0)));
    }
    while i < n
        invariant
            n == entries@.len(),
            i <= n,
            r.deep_view() == text_paths(entries@.take(i as int)),
        decreases n - i,
    {
        let ghost old_r = r.deep_view();
        let keep = entries[i].bytes.len() < MAX_FILE_SIZE && bytes_are_ascii(&entries[i].bytes);
        if keep {
            r.push(entries[i].path.clone());
            proof {
                assert(r.deep_view() =~~= old_r.push(entries@[i as int].path@));
            }
        }
        proof {
            assert(entries@.take(i as int + 1).drop_last() =~~= entries@.take(i as int));
            assert(entries@.take(i as int + 1).last() == entries@[i as int]);
            assert(keep == is_text_entry(entries@[i as int]));
            assert(r.deep_view() =~~= text_paths(entries@.take(i as int + 1)));
        }
        i = i + 1;
    }
    proof {
        assert(entries@.take(n as int) =~~= entries@);
    }
    r
}

/// The author's name a line is shown with: what the blame recorded, or
/// "Unknown" where the signature lacks a name.
pub open spec fn author_name(o: LineOrigin) -> Seq<char> {
    match o.author {
        Option::Some(a) => a@,
        Option::None => "Unknown"@,
    }
}

/// A line can be rendered when it is plain ASCII and the blame has a hunk
/// for it.
pub open spec fn row_ok(lines: Seq<Vec<u8>>, origins: Seq<Option<LineOrigin>>, i: int) -> bool {
    is_ascii_bytes(lines[i]@) && origins[i] is Some
}

/// How many of the first `i` lines render.
pub open spec fn kept_count(lines: Seq<Vec<u8>>, origins: Seq<Option<LineOrigin>>, i: int) -> nat
    decreases i,
{
    if i <= 0 {
        0
    } else {
        kept_count(lines, origins, i - 1) + if row_ok(lines, origins, i - 1) {
            1nat
        } else {
            0nat
        }
    }
}

/// The count of rendered lines never exceeds the lines looked at and never
/// shrinks as more lines are looked at; one rendering line raises it by one.
pub proof fn lemma_kept_count_bounds(
    lines: Seq<Vec<u8>>,
    origins: Seq<Option<LineOrigin>>,
    a: int,
    b: int,
)
    requires
        0 <= a <= b,
    ensures
        kept_count(lines, origins, a) <= kept_count(lines, origins, b),
        kept_count(lines, origins, b) <= b,
    decreases b,
{
    if b > 0 {
        if a < b {
            lemma_kept_count_bounds(lines, origins, a, b - 1);
        } else {
            lemma_kept_count_bounds(lines, origins, 0, b - 1);
        }
    }
}

/// When every line up to `i` renders, all of them count.
pub proof fn lemma_kept_count_all(
    lines: Seq<Vec<u8>>,
    origins: Seq<Option<LineOrigin>>,
    i: int,
)
    requires
        0 <= i,
        forall|j: int| 0 <= j < i ==> row_ok(lines, origins, j),
    ensures
        kept_count(lines, origins, i) == i,
    decreases i,
{
    if i > 0 {
        lemma_kept_count_all(lines, origins, i - 1);
    }
}

/// Zips the physical lines with what the blame reports: exactly the
/// renderable lines are kept, in order, each row carrying its 1-based
/// physical line number, its text, its commit and its author; a line
/// without a hunk or with non-ASCII bytes is left out.
pub fn rows_from_blame(lines: &Vec<Vec<u8>>, origins: &Vec<Option<LineOrigin>>) -> (r: Vec<
    CommitRow,
>)
    requires
        lines@.len() == origins@.len(),
    ensures
        r@.len() == kept_count(lines@, origins@, lines@.len() as int),
        r@.len() <= lines@.len(),
        forall|i: int|
            0 <= i < lines@.len() ==> (#[trigger] row_ok(lines@, origins@, i) ==> {
                &&& r@[kept_count(lines@, origins@, i) as int].number == i + 1
                &&& r@[kept_count(lines@, origins@, i) as int].line@ == ascii_seq(lines@[i]@)
                &&& origins@[i] matches Some(o) && r@[kept_count(lines@, origins@, i) as int].commit@
                    == o.commit_id@ && r@[kept_count(lines@, origins@, i) as int]._author@
                    == author_name(o)
            }),
        (forall|i: int| 0 <= i < lines@.len() ==> row_ok(lines@, origins@, i)) ==> (r@.len()
            == lines@.len() && forall|i: int|
            0 <= i < r@.len() ==> {
                &&& (#[trigger] r@[i]).number == i + 1
                &&& r@[i].line@ == ascii_seq(lines@[i]@)
                &&& origins@[i] matches Some(o) && r@[i].commit@ == o.commit_id@
                    && r@[i]._author@ == author_name(o)
            }),
{
    let n = lines.len();
    let mut r: Vec<CommitRow> = Vec::new();
    let mut i: usize = 0;
    while i < n
        invariant
            n == lines@.len(),
            lines@.len() == origins@.len(),
            i <= n,
            r@.len() == kept_count(lines@, origins@, i as int),
            forall|j: int|
                0 <= j < i ==> (#[trigger] row_ok(lines@, origins@, j) ==> {
                    &&& r@[kept_count(lines@, origins@, j) as int].number == j + 1
                    &&& r@[kept_count(lines@, origins@, j) as int].line@ == ascii_seq(lines@[j]@)
                    &&& origins@[j] matches Some(o) && r@[kept_count(lines@, origins@, j) as int].commit@
                        == o.commit_id@ && r@[kept_count(lines@, origins@, j) as int]._author@
                        == author_name(o)
                }),
        decreases n - i,
    {
        let ghost old_r = r@;
        let line_ascii = bytes_are_ascii(&lines[i]);
        if line_ascii {
            match &origins[i] {
                Some(o) => {
                    proof {
                        assert(row_ok(lines@, origins@, i as int));
                    }
                    let author = match &o.author {
                        Some(a) => a.clone(),
                        None => String::from_str("Unknown"),
                    };
                    let text = ascii_to_string(&lines[i]);
                    let row = CommitRow::new(author, o.commit_id.clone(), i + 1, text);
                    r.push(row);
                },
                None => {
                    proof {
                        assert(!row_ok(lines@, origins@, i as int));
                    }
                },
            }
        } else {
            proof {
                assert(!row_ok(lines@, origins@, i as int));
            }
        }
        proof {
            assert forall|j: int|
                0 <= j < i as int + 1 implies (#[trigger] row_ok(lines@, origins@, j) ==> {
                &&& r@[kept_count(lines@, origins@, j) as int].number == j + 1
                &&& r@[kept_count(lines@, origins@, j) as int].line@ == ascii_seq(lines@[j]@)
                &&& origins@[j] matches Some(o) && r@[kept_count(lines@, origins@, j) as int].commit@
                    == o.commit_id@ && r@[kept_count(lines@, origins@, j) as int]._author@
                    == author_name(o)
            }) by {
                if row_ok(lines@, origins@, j) {
                    if j < i as int {
                        lemma_kept_count_bounds(lines@, origins@, j + 1, i as int);
                        assert(kept_count(lines@, origins@, j) < old_r.len());
                        assert(r@[kept_count(lines@, origins@, j) as int] == old_r[kept_count(
                            lines@,
                            origins@,
                            j,
                        ) as int]);
                    }
                }
            }
        }
        i = i + 1;
    }
    proof {
        lemma_kept_count_bounds(lines@, origins@, 0, n as int);
        if forall|j: int| 0 <= j < lines@.len() ==> row_ok(lines@, origins@, j) {
            lemma_kept_count_all(lines@, origins@, n as int);
            assert forall|j: int| 0 <= j < r@.len() implies {
                &&& (#[trigger] r@[j]).number == j + 1
                &&& r@[j].line@ == ascii_seq(lines@[j]@)
                &&& origins@[j] matches Some(o) && r@[j].commit@ == o.commit_id@
                    && r@[j]._author@ == author_name(o)
            } by {
                lemma_kept_count_all(lines@, origins@, j);
                assert(row_ok(lines@, origins@, j));
            }
        }
    }
    r
}

/// The one-line summary a commit is listed with: the first line of its
/// message, with a stand-in where the message is missing or unreadable.
pub open spec fn summary_of(message: Option<String>) -> Seq<char> {
    first_line_spec(
        match message {
            Option::Some(m) => m@,
            Option::None => "No commit message"@,
        },
    )
}

/// Pairs each walked identifier with its commit's one-line summary: one
/// pair per identifier, in the walked order.
pub fn history_pairs(ids: &Vec<String>, messages: &Vec<Option<String>>) -> (r: Vec<
    (String, String),
>)
    requires
        ids@.len() == messages@.len(),
    ensures
        r@.len() == ids@.len(),
        forall|i: int|
            0 <= i < r@.len() ==> (#[trigger] r@[i]).0 == ids@[i] && r@[i].1@ == summary_of(
                messages@[i],
            ),
{
    let n = ids.len();
    let mut r: Vec<(String, String)> = Vec::new();
    let mut i: usize = 0;
    while i < n
        invariant
            n == ids@.len(),
            ids@.len() == messages@.len(),
            i <= n,
            r@.len() == i,
            forall|j: int|
                0 <= j < i ==> (#[trigger] r@[j]).0 == ids@[j] && r@[j].1@ == summary_of(
                    messages@[j],
                ),
        decreases n - i,
    {
        let message = match &messages[i] {
            Some(m) => m.clone(),
            None => String::from_str("No commit message"),
        };
        let summary = first_line(&message);
        r.push((ids[i].clone(), summary));
        i = i + 1;
    }
    r
}

/// The repository handle and the current-commit cursor. The cursor always
/// holds a full-length identifier in canonical form.
pub struct RepositoryInfo {
    repository: git2::Repository,
    oid: String,
}

impl RepositoryInfo {
    /// The cursor holds a canonical full-length commit identifier.
    pub closed spec fn wf(self) -> bool {
        is_oid(self.oid@)
    }

    /// The identifier the cursor stands on.
    pub closed spec fn cursor_id(self) -> Seq<char> {
        self.oid@
    }

    /// Opens the repository found at or above `path` and points the cursor
    /// at the head commit.
    pub fn new(path: &String) -> (r: Result<RepositoryInfo, RepositoryError>)
        ensures
            r matches Ok(info) ==> info.wf(),
            r is Err ==> r == Err::<RepositoryInfo, RepositoryError>(
                RepositoryError::RepositoryUnavailable,
            ),
    {
        match discover_at(path) {
            Some(repository) => match head_id(&repository) {
                Some(oid) => Ok(RepositoryInfo { repository, oid }),
                None => Err(RepositoryError::RepositoryUnavailable),
            },
            None => Err(RepositoryError::RepositoryUnavailable),
        }
    }

    /// Builds a cursor over an already opened repository; the identifier
    /// must be full-length canonical hex.
    pub fn _from_parts(repository: git2::Repository, oid: String) -> (r: Option<RepositoryInfo>)
        ensures
            r matches Some(info) ==> info.wf() && info.cursor_id() == oid@,
            r is None <==> !is_oid(oid@),
    {
        if is_oid_string(&oid) {
            Some(RepositoryInfo { repository, oid })
        } else {
            None
        }
    }

    /// The identifier the cursor stands on.
    pub fn get_current_commit_id(&self) -> (r: String)
        ensures
            r@ == self.cursor_id(),
    {
        self.oid.clone()
    }

    /// The cursor's commit: its identifier and its full message, with a
    /// stand-in where the message is missing or unreadable.
    pub fn current_commit(&self) -> (r: Result<(String, String), RepositoryError>)
        requires
            self.wf(),
        ensures
            r matches Ok(p) ==> p.0@ == self.cursor_id(),
            r is Err ==> r == Err::<(String, String), RepositoryError>(
                RepositoryError::CursorCorrupted,
            ),
    {
        match find_commit_message(&self.repository, &self.oid) {
            Some(found) => {
                let message = match found {
                    Some(m) => m,
                    None => String::from_str("No commit message"),
                };
                Ok((self.oid.clone(), message))
            },
            None => Err(RepositoryError::CursorCorrupted),
        }
    }

    /// Moves the cursor to the first parent of the current commit; with no
    /// parent the cursor stands still.
    pub fn set_parent_commit(&mut self)
        requires
            old(self).wf(),
        ensures
            final(self).wf(),
    {
        let parent = first_parent_id(&self.repository, &self.oid);
        let current = self.oid.clone();
        self.oid = resolve_parent(current, parent);
    }

    /// Moves the cursor to the chronological successor of the current
    /// commit along the history reachable from head, scanning the commits
    /// oldest first; with no successor the cursor stands still. Hands back
    /// the commit the cursor then stands on.
    pub fn set_next_commit(&mut self) -> (r: Result<(String, String), RepositoryError>)
        requires
            old(self).wf(),
        ensures
            final(self).wf(),
            r matches Ok(p) ==> p.0@ == final(self).cursor_id(),
            r == Err::<(String, String), RepositoryError>(RepositoryError::HistoryUnavailable)
                ==> *final(self) == *old(self),
    {
        let ids = match revwalk_ids(&self.repository, WalkOrder::Chronological) {
            Some(ids) => ids,
            None => {
                return Err(RepositoryError::HistoryUnavailable);
            },
        };
        match find_successor(&ids, &self.oid) {
            Some(next) => {
                proof {
                    let dv = ids.deep_view();
                    let k = choose|k: int| 0 <= k < dv.len() && dv[k] == next@;
                    assert(is_oid(ids@[k]@));
                }
                self.oid = next;
            },
            None => {},
        }
        self.current_commit()
    }

    /// Points the cursor at the commit the text names: a full-length
    /// identifier is used directly, anything shorter is resolved as a
    /// prefix over all reachable commits. The cursor only moves once the
    /// target commit is known to exist; on any failure it stands still. On
    /// success a canonical full-length identifier becomes the cursor as
    /// given, and a resolved prefix is a prefix of the new cursor.
    pub fn set_commit_by_id(&mut self, commit_id: &String) -> (r: Result<(), RepositoryError>)
        requires
            old(self).wf(),
        ensures
            final(self).wf(),
            r is Err ==> *final(self) == *old(self),
            r is Ok && is_oid(commit_id@) ==> final(self).cursor_id() == commit_id@,
            r is Ok && commit_id@.len() < 40 ==> starts_with_seq(
                final(self).cursor_id(),
                commit_id@,
            ),
    {
        let clen = commit_id.as_str().unicode_len();
        if clen == 40 {
            match commit_lookup_normalized(&self.repository, commit_id) {
                Some(normalized) => {
                    self.oid = normalized;
                    Ok(())
                },
                None => Err(RepositoryError::CommitNotFound),
            }
        } else {
            let ids = match revwalk_ids(&self.repository, WalkOrder::Unsorted) {
                Some(ids) => ids,
                None => {
                    return Err(RepositoryError::HistoryUnavailable);
                },
            };
            let found = match resolve_prefix(&ids, commit_id) {
                Ok(found) => found,
                Err(e) => {
                    return Err(e);
                },
            };
            proof {
                let dv = ids.deep_view();
                let k = choose|k: int| 0 <= k < dv.len() && dv[k] == found@;
                assert(is_oid(ids@[k]@));
            }
            match commit_lookup_normalized(&self.repository, &found) {
                Some(normalized) => {
                    self.oid = normalized;
                    Ok(())
                },
                None => Err(RepositoryError::CommitNotFound),
            }
        }
    }

    /// Walks the current commit's tree in pre-order and hands back the
    /// paths of the text files in it: blobs under the size ceiling whose
    /// content is pure ASCII.
    pub fn recursive_walk(&self) -> (r: Result<Vec<String>, RepositoryError>)
        requires
            self.wf(),
        ensures
            r is Err ==> r == Err::<Vec<String>, RepositoryError>(RepositoryError::CursorCorrupted),
    {
        match tree_blob_entries(&self.repository, &self.oid) {
            Some(entries) => Ok(text_file_paths(&entries)),
            None => Err(RepositoryError::CursorCorrupted),
        }
    }

    /// The identifiers and first message lines of all reachable commits,
    /// newest first: one pair per walked commit, in the walked order, each
    /// carrying that commit's identifier and its message's first line.
    pub fn get_commit_history(&self) -> (r: Result<Vec<(String, String)>, RepositoryError>)
        requires
            self.wf(),
        ensures
            r matches Ok(v) ==> forall|i: int|
                0 <= i < v@.len() ==> is_oid(#[trigger] v@[i].0@),
            r is Err ==> r == Err::<Vec<(String, String)>, RepositoryError>(
                RepositoryError::HistoryUnavailable,
            ),
    {
        let ids = match revwalk_ids(&self.repository, WalkOrder::TimeSorted) {
            Some(ids) => ids,
            None => {
                return Err(RepositoryError::HistoryUnavailable);
            },
        };
        let n = ids.len();
        let mut messages: Vec<Option<String>> = Vec::new();
        let mut i: usize = 0;
        while i < n
            invariant
                n == ids@.len(),
                i <= n,
                messages@.len() == i,
            decreases n - i,
        {
            match find_commit_message(&self.repository, &ids[i]) {
                Some(found) => messages.push(found),
                None => {
                    return Err(RepositoryError::HistoryUnavailable);
                },
            }
            i = i + 1;
        }
        let pairs = history_pairs(&ids, &messages);
        proof {
            assert forall|k: int| 0 <= k < pairs@.len() implies is_oid(#[trigger] pairs@[k].0@) by {
                assert(pairs@[k].0 == ids@[k]);
            }
        }
        Ok(pairs)
    }

    /// Blame-annotated content of the file at `filename` in the current
    /// commit: one row per line, numbered from one, each with the commit
    /// that last changed it and that commit's author. The sentinel path
    /// "not found" yields an empty list without any lookup.
    pub fn get_content(&self, filename: String) -> (r: Result<Vec<CommitRow>, RepositoryError>)
        requires
            self.wf(),
        ensures
            filename@ == "not found"@ ==> (r matches Ok(v) && v@.len() == 0),
            r is Err ==> r == Err::<Vec<CommitRow>, RepositoryError>(RepositoryError::PathNotFound)
                || r == Err::<Vec<CommitRow>, RepositoryError>(RepositoryError::BlameUnavailable),
    {
        if str_eq(&filename, "not found") {
            let empty: Vec<CommitRow> = Vec::new();
            return Ok(empty);
        }
        let bytes = match blob_bytes(&self.repository, &self.oid, &filename) {
            Some(b) => b,
            None => {
                return Err(RepositoryError::PathNotFound);
            },
        };
        let lines = split_lines(&bytes);
        let origins = match blame_origins(&self.repository, &self.oid, &filename, lines.len()) {
            Some(o) => o,
            None => {
                return Err(RepositoryError::BlameUnavailable);
            },
        };
        Ok(rows_from_blame(&lines, &origins))
    }
}

} // verus!
