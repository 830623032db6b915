use gview::content_viewer::{ContentViewer, ShowMode};
use gview::messages::{Key, Message, OnceOperation};
use gview::repository::{CommitRow, RepositoryInfo};

fn fresh_dir(tag: &str) -> String {
    let nanos = std::time::SystemTime::now()
        .duration_since(std::time::UNIX_EPOCH)
        .unwrap()
        .as_nanos();
    format!("/tmp/{}-{}", tag, nanos)
}

fn viewer_repo(tag: &str) -> RepositoryInfo {
    let repo = git2::Repository::init(fresh_dir(tag)).unwrap();
    {
    let mut builder = repo.treebuilder(None).unwrap();
    let blob = repo.blob(b"line 1\nline 2\nline 3\n").unwrap();
    builder.insert("test.rs", blob, 0o100644).unwrap();
    let tree_id = builder.write().unwrap();
    let tree = repo.find_tree(tree_id).unwrap();
    let signature = git2::Signature::new(
        "Test User",
        "test@localhost",
        &git2::Time::new(1234567890, 0),
    )
    .unwrap();
    repo.commit(Some("HEAD"), &signature, &signature, "Initial commit", &tree, &[])
        .unwrap();
    }
    let head = repo.head().unwrap().target().unwrap().to_string();
    RepositoryInfo::_from_parts(repo, head).unwrap()
}

#[test]
fn test_key_bindings_navigation() {
    let repo = viewer_repo("gvt-cv-nav");
    let mut content_viewer = ContentViewer::new();
    content_viewer.content = "Line 1\nLine 2\nLine 3\nLine 4\nLine 5".to_string();
    content_viewer.context_size = 10;
    content_viewer.height = 5;

    let message = content_viewer.process_events(Key::Char('j'), &repo);
    assert_eq!(message, Message::NoAction);
    assert_eq!(content_viewer.scroll_position, 1);

    let message = content_viewer.process_events(Key::Char('k'), &repo);
    assert_eq!(message, Message::NoAction);
    assert_eq!(content_viewer.scroll_position, 0);

    let message = content_viewer.process_events(Key::Down, &repo);
    assert_eq!(message, Message::NoAction);
    assert_eq!(content_viewer.scroll_position, 1);

    let message = content_viewer.process_events(Key::Up, &repo);
    assert_eq!(message, Message::NoAction);
    assert_eq!(content_viewer.scroll_position, 0);
}

#[test]
fn test_horizontal_scrolling() {
    let repo = viewer_repo("gvt-cv-hscroll");
    let mut content_viewer = ContentViewer::new();
    content_viewer.content =
        "This is a very long line that should be scrollable horizontally".to_string();

    assert_eq!(content_viewer.horizontal_scroll, 0);

    let message = content_viewer.process_events(Key::Char('l'), &repo);
    assert_eq!(message, Message::NoAction);
    assert_eq!(content_viewer.horizontal_scroll, 1);

    let message = content_viewer.process_events(Key::Char('h'), &repo);
    assert_eq!(message, Message::NoAction);
    assert_eq!(content_viewer.horizontal_scroll, 0);

    let message = content_viewer.process_events(Key::Char('h'), &repo);
    assert_eq!(message, Message::NoAction);
    assert_eq!(content_viewer.horizontal_scroll, 0);

    let message = content_viewer.process_events(Key::Right, &repo);
    assert_eq!(message, Message::NoAction);
    assert_eq!(content_viewer.horizontal_scroll, 1);

    let message = content_viewer.process_events(Key::Left, &repo);
    assert_eq!(message, Message::NoAction);
    assert_eq!(content_viewer.horizontal_scroll, 0);
}

#[test]
fn test_toggle_line_numbers() {
    let repo = viewer_repo("gvt-cv-lines");
    let mut content_viewer = ContentViewer::new();
    content_viewer.title = "test.rs".to_string();

    assert!(matches!(content_viewer.mode, ShowMode::WithLine));

    content_viewer.toggle_line_numbers(&repo);
    assert!(matches!(content_viewer.mode, ShowMode::NoLine));

    content_viewer.toggle_line_numbers(&repo);
    assert!(matches!(content_viewer.mode, ShowMode::WithLine));

    content_viewer.mode = ShowMode::WithBlame;
    content_viewer.toggle_line_numbers(&repo);
    assert!(matches!(content_viewer.mode, ShowMode::WithLine));
}

#[test]
fn test_toggle_blame_mode() {
    let repo = viewer_repo("gvt-cv-blame");
    let mut content_viewer = ContentViewer::new();
    content_viewer.title = "test.rs".to_string();

    assert!(matches!(content_viewer.mode, ShowMode::WithLine));

    content_viewer.toggle_blame_mode(&repo);
    assert!(matches!(content_viewer.mode, ShowMode::WithBlame));

    content_viewer.toggle_blame_mode(&repo);
    assert!(matches!(content_viewer.mode, ShowMode::NoLine));

    content_viewer.toggle_blame_mode(&repo);
    assert!(matches!(content_viewer.mode, ShowMode::WithBlame));
}

#[test]
fn test_key_bindings_mode_toggle() {
    let repo = viewer_repo("gvt-cv-toggle");
    let mut content_viewer = ContentViewer::new();
    content_viewer.title = "test.rs".to_string();

    let message = content_viewer.process_events(Key::Char('n'), &repo);
    assert_eq!(message, Message::NoAction);

    let message = content_viewer.process_events(Key::Char('b'), &repo);
    assert_eq!(message, Message::NoAction);
}

#[test]
fn test_show_mode_concat_functionality() {
    let oid1 = "abc123456789abcd1234567890abcdef12345678".to_string();
    let oid2 = "def456789012cdef1234567890abcdef12345678".to_string();

    let commit_rows = vec![
        CommitRow {
            _author: "Test Author".to_string(),
            number: 1,
            line: "fn main() {".to_string(),
            commit: oid1,
        },
        CommitRow {
            _author: "Test Author".to_string(),
            number: 2,
            line: "    println!(\"Hello\");".to_string(),
            commit: oid2,
        },
    ];
    let cloned: Vec<CommitRow> = commit_rows
        .iter()
        .map(|r| CommitRow {
            _author: r._author.clone(),
            number: r.number,
            line: r.line.clone(),
            commit: r.commit.clone(),
        })
        .collect();
    let cloned2: Vec<CommitRow> = commit_rows
        .iter()
        .map(|r| CommitRow {
            _author: r._author.clone(),
            number: r.number,
            line: r.line.clone(),
            commit: r.commit.clone(),
        })
        .collect();

    let mut mode = ShowMode::NoLine;
    let result = mode.concat(cloned);
    assert_eq!(result, "fn main() {\n    println!(\"Hello\");");

    let mut mode = ShowMode::WithLine;
    let result = mode.concat(cloned2);
    assert!(result.contains("1 | fn main() { "));
    assert!(result.contains("2 |     println!(\"Hello\"); "));
    assert_eq!(result, "1 | fn main() { \n2 |     println!(\"Hello\"); ");

    let mut mode = ShowMode::WithBlame;
    let result = mode.concat(commit_rows);
    assert!(result.contains("abc123456789abcd1234567890abcdef12345678 | fn main() { "));
    assert!(
        result.contains("def456789012cdef1234567890abcdef12345678 |     println!(\"Hello\"); ")
    );
}

#[test]
fn test_concat_pads_line_numbers() {
    let rows: Vec<CommitRow> = (1..=10)
        .map(|i| CommitRow {
            _author: "a".to_string(),
            number: i,
            line: format!("l{}", i),
            commit: "abc123456789abcd1234567890abcdef12345678".to_string(),
        })
        .collect();
    let mut mode = ShowMode::WithLine;
    let result = mode.concat(rows);
    let lines: Vec<&str> = result.split('\n').collect();
    assert_eq!(lines[0], " 1 | l1 ");
    assert_eq!(lines[9], "10 | l10 ");
}

#[test]
fn test_scroll_boundary_conditions() {
    let repo = viewer_repo("gvt-cv-bounds");
    let mut content_viewer = ContentViewer::new();
    content_viewer.content = "Line 1\nLine 2\nLine 3".to_string();
    content_viewer.context_size = 3;
    content_viewer.height = 2;

    content_viewer.scroll_position = 0;
    let _message = content_viewer.process_events(Key::Char('k'), &repo);
    assert_eq!(content_viewer.scroll_position, 0);

    let _message = content_viewer.process_events(Key::Char('j'), &repo);
    assert!(content_viewer.scroll_position > 0);

    content_viewer.horizontal_scroll = 0;
    let _message = content_viewer.process_events(Key::Char('h'), &repo);
    assert_eq!(content_viewer.horizontal_scroll, 0);

    let _message = content_viewer.process_events(Key::Char('l'), &repo);
    assert_eq!(content_viewer.horizontal_scroll, 1);
}

#[test]
fn test_failed_fetch_leaves_view_unchanged() {
    let repo = viewer_repo("gvt-cv-fail");
    let mut content_viewer = ContentViewer::new();
    // Show a real file first.
    let r = content_viewer.handle_message(
        &Message::Once(OnceOperation::ShowFile { file: "test.rs".to_string() }),
        &repo,
    );
    assert_eq!(r, Message::NoAction);
    assert_eq!(content_viewer.title, "test.rs");
    let content_before = content_viewer.content.clone();
    // A file that cannot be fetched reports an error and changes nothing.
    let r = content_viewer.handle_message(
        &Message::Once(OnceOperation::ShowFile { file: "absent.rs".to_string() }),
        &repo,
    );
    assert!(matches!(r, Message::Error { .. }));
    assert_eq!(content_viewer.title, "test.rs");
    assert_eq!(content_viewer.content, content_before);
}
