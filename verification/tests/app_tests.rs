use gview::app::{App, FocusState};
use gview::messages::{Key, Message, OnceOperation};
use gview::repository::RepositoryInfo;

fn fresh_dir(tag: &str) -> String {
    let nanos = std::time::SystemTime::now()
        .duration_since(std::time::UNIX_EPOCH)
        .unwrap()
        .as_nanos();
    format!("/tmp/{}-{}", tag, nanos)
}

fn app_repo(tag: &str) -> RepositoryInfo {
    let repo = git2::Repository::init(fresh_dir(tag)).unwrap();
    {
    let mut builder = repo.treebuilder(None).unwrap();
    let blob = repo.blob(b"Hello, world!\n").unwrap();
    builder.insert("test.txt", blob, 0o100644).unwrap();
    let tree_id = builder.write().unwrap();
    let tree = repo.find_tree(tree_id).unwrap();
    let signature = git2::Signature::new(
        "Test User",
        "test@localhost",
        &git2::Time::new(1234567890, 0),
    )
    .unwrap();
    repo.commit(Some("HEAD"), &signature, &signature, "Initial commit", &tree, &[])
        .unwrap();
    }
    let head = repo.head().unwrap().target().unwrap().to_string();
    RepositoryInfo::_from_parts(repo, head).unwrap()
}

#[test]
fn test_focus_state_next_transitions() {
    assert_eq!(FocusState::Filter.next(), FocusState::Filer);
    assert_eq!(FocusState::Filer.next(), FocusState::Commit);
    assert_eq!(FocusState::Commit.next(), FocusState::Viewer);
    assert_eq!(FocusState::Viewer.next(), FocusState::Filter);
}

#[test]
fn test_focus_state_cycle_complete() {
    let mut state = FocusState::Filter;

    state = state.next();
    assert_eq!(state, FocusState::Filer);

    state = state.next();
    assert_eq!(state, FocusState::Commit);

    state = state.next();
    assert_eq!(state, FocusState::Viewer);

    state = state.next();
    assert_eq!(state, FocusState::Filter);
}

#[test]
fn test_app_setup_loads_panels() {
    let app = App::new(app_repo("gvt-app-setup"));
    assert_eq!(app.filer.results, vec!["test.txt".to_string()]);
    assert!(app.commit_viewer.content.contains("Initial commit"));
    assert!(app.content_viewer.content.contains("Hello, world!"));
    assert_eq!(app.content_viewer.title, "test.txt");
}

#[test]
fn test_app_advance_focus_four_times_round_trip() {
    let mut app = App::new(app_repo("gvt-app-focus"));
    let start = app.focus_state;
    app.handle_key(Key::Tab);
    app.handle_key(Key::Tab);
    app.handle_key(Key::Tab);
    app.handle_key(Key::Tab);
    assert_eq!(app.focus_state, start);
}

#[test]
fn test_app_quit_key() {
    let mut app = App::new(app_repo("gvt-app-quit"));
    assert!(!app.should_exit());
    app.handle_key(Key::CtrlC);
    assert!(app.should_exit());
}

#[test]
fn test_app_pane_resize_clamped() {
    let mut app = App::new(app_repo("gvt-app-resize"));
    assert_eq!(app.left_main_chunk_percentage, 15);
    app.handle_key(Key::Char('<'));
    assert_eq!(app.left_main_chunk_percentage, 15);
    app.handle_key(Key::Char('>'));
    assert_eq!(app.left_main_chunk_percentage, 20);
    let mut presses = 0;
    while presses < 20 {
        app.handle_key(Key::Char('>'));
        presses += 1;
    }
    assert_eq!(app.left_main_chunk_percentage, 70);
}

#[test]
fn test_app_help_modal_keys() {
    let mut app = App::new(app_repo("gvt-app-help"));
    assert!(!app.help_modal.is_open());
    app.handle_key(Key::Char('?'));
    assert!(app.help_modal.is_open());
    // While the help modal is open it consumes every key.
    app.handle_key(Key::Char('x'));
    assert!(app.help_modal.is_open());
    app.handle_key(Key::Esc);
    assert!(!app.help_modal.is_open());
}

#[test]
fn test_app_error_reaches_status_line() {
    let mut app = App::new(app_repo("gvt-app-status"));
    assert_eq!(app.take_status(), None);
    let title_before = app.content_viewer.title.clone();
    app.handle_message(Message::Once(OnceOperation::ShowFile {
        file: "no-such-file.txt".to_string(),
    }));
    let status = app.take_status();
    assert_eq!(status, Some("failed to get content".to_string()));
    assert_eq!(app.take_status(), None);
    // The failed retrieval left the current view unchanged.
    assert_eq!(app.content_viewer.title, title_before);
}

#[test]
fn test_app_commit_modal_selection_closes_and_updates() {
    let mut app = App::new(app_repo("gvt-app-modal"));
    let head = app.repository.get_current_commit_id();
    // Open the commit-history modal as the commit panel would.
    app.handle_message(Message::Once(OnceOperation::OpenCommitModal));
    assert!(app.commit_modal.is_open());
    // Choosing the listed commit closes the modal and keeps the cursor.
    app.handle_message(Message::Once(OnceOperation::SetCommitById {
        commit_id: head.clone(),
    }));
    assert!(!app.commit_modal.is_open());
    assert_eq!(app.repository.get_current_commit_id(), head);
}

#[test]
fn test_app_unresolvable_commit_keeps_cursor() {
    let mut app = App::new(app_repo("gvt-app-badid"));
    let head = app.repository.get_current_commit_id();
    app.handle_message(Message::Once(OnceOperation::SetCommitById {
        commit_id: "feedfeed".to_string(),
    }));
    assert_eq!(app.repository.get_current_commit_id(), head);
    // The failed modal action is surfaced, not discarded.
    assert_eq!(app.take_status(), Some("commit not found".to_string()));
}

#[test]
fn test_app_full_modal_flow_by_keys() {
    let mut app = App::new(app_repo("gvt-app-flow"));
    let head = app.repository.get_current_commit_id();
    // Move focus to the commit panel: filter, file list, commit summary.
    app.handle_key(Key::Tab);
    app.handle_key(Key::Tab);
    assert_eq!(app.focus_state, FocusState::Commit);
    // Open the history modal and accept the highlighted commit.
    app.handle_key(Key::Char('g'));
    assert!(app.commit_modal.is_open());
    app.handle_key(Key::Enter);
    assert!(!app.commit_modal.is_open());
    assert_eq!(app.repository.get_current_commit_id(), head);
    assert!(app.commit_viewer.content.contains("Initial commit"));
}

#[test]
fn test_app_empty_filter_result_shows_sentinel() {
    let mut app = App::new(app_repo("gvt-app-sentinel"));
    // Type a query that matches no file.
    app.handle_key(Key::Char('z'));
    app.handle_key(Key::Char('z'));
    assert_eq!(app.filer.results, vec!["not found".to_string()]);
    assert_eq!(app.filer.selected, 0);
    // The sentinel is shown as an empty file, not treated as a real path.
    assert_eq!(app.content_viewer.title, "not found");
    assert_eq!(app.content_viewer.content, "");
}
