use gview::commit_modal::CommitModal;
use gview::commit_viewer::{format_commit_line, CommitViewer};
use gview::messages::{Key, Message, MultipleTimesOperation, OnceOperation};
use gview::repository::RepositoryInfo;

fn fresh_dir(tag: &str) -> String {
    let nanos = std::time::SystemTime::now()
        .duration_since(std::time::UNIX_EPOCH)
        .unwrap()
        .as_nanos();
    format!("/tmp/{}-{}", tag, nanos)
}

fn panel_repo(tag: &str) -> RepositoryInfo {
    let repo = git2::Repository::init(fresh_dir(tag)).unwrap();
    {
        let tree_id = repo.treebuilder(None).unwrap().write().unwrap();
        let tree = repo.find_tree(tree_id).unwrap();
        let signature = git2::Signature::new(
            "Test User",
            "test@example.com",
            &git2::Time::new(1234567890, 0),
        )
        .unwrap();
        repo.commit(Some("HEAD"), &signature, &signature, "Initial commit", &tree, &[])
            .unwrap();
    }
    let head = repo.head().unwrap().target().unwrap().to_string();
    RepositoryInfo::_from_parts(repo, head).unwrap()
}

#[test]
fn test_format_commit_line_exact() {
    let line = format_commit_line(&"abcd".to_string(), &"a message".to_string());
    assert_eq!(line, "abcd: a message");
}

#[test]
fn test_commit_viewer_shows_current_commit() {
    let repo = panel_repo("gvt-cvw-show");
    let head = repo.get_current_commit_id();
    let mut viewer = CommitViewer::new();
    let r = viewer.handle_message(
        &Message::MultipleTimes(MultipleTimesOperation::ChangeShowCommit),
        &repo,
    );
    assert_eq!(r, Message::NoAction);
    assert_eq!(viewer.content, format!("{}: Initial commit", head));
}

#[test]
fn test_commit_viewer_modal_key() {
    let repo = panel_repo("gvt-cvw-key");
    let mut repo = repo;
    let mut viewer = CommitViewer::new();
    let r = viewer.process_events(Key::Char('g'), &mut repo);
    assert_eq!(r, Message::Once(OnceOperation::OpenCommitModal));
}

#[test]
fn test_commit_modal_selection_moves_within_list() {
    let mut modal = CommitModal::new();
    modal.is_open = true;
    modal.commits = vec![
        ("aaaa".to_string(), "first".to_string()),
        ("bbbb".to_string(), "second".to_string()),
        ("cccc".to_string(), "third".to_string()),
    ];
    modal.selected = Some(0);

    modal.process_events(Key::Down);
    assert_eq!(modal.selected, Some(1));
    modal.process_events(Key::Down);
    assert_eq!(modal.selected, Some(2));
    modal.process_events(Key::Down);
    assert_eq!(modal.selected, Some(2));
    modal.process_events(Key::Up);
    assert_eq!(modal.selected, Some(1));

    let r = modal.process_events(Key::Enter);
    assert_eq!(
        r,
        Message::Once(OnceOperation::SetCommitById { commit_id: "bbbb".to_string() })
    );

    let r = modal.process_events(Key::Esc);
    assert_eq!(r, Message::Once(OnceOperation::CloseCommitModal));
}

#[test]
fn test_commit_modal_open_selects_current() {
    let repo = panel_repo("gvt-modal-open");
    let head = repo.get_current_commit_id();
    let mut modal = CommitModal::new();
    assert!(!modal.is_open());
    let r = modal._handle_message(&Message::Once(OnceOperation::OpenCommitModal), &repo);
    assert_eq!(r, Message::NoAction);
    assert!(modal.is_open());
    assert_eq!(modal.get_selected_commit_id(), Some(head));
    let r = modal._handle_message(&Message::Once(OnceOperation::CloseCommitModal), &repo);
    assert_eq!(r, Message::NoAction);
    assert!(!modal.is_open());
    assert_eq!(modal.get_selected_commit_id(), None);
}

#[test]
fn test_commit_modal_selection_moves_clamped_from_open() {
    let repo = panel_repo("gvt-modal-clamp");
    let mut modal = CommitModal::new();
    modal._handle_message(&Message::Once(OnceOperation::OpenCommitModal), &repo);
    // One commit: the highlight starts on it and cannot move off it.
    assert_eq!(modal.selected, Some(0));
    modal.process_events(Key::Up);
    assert_eq!(modal.selected, Some(0));
    modal.process_events(Key::Down);
    assert_eq!(modal.selected, Some(0));
}
