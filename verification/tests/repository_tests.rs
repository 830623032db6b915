use gview::repository::{CommitRow, RepositoryError, RepositoryInfo};

fn fresh_dir(tag: &str) -> String {
    let nanos = std::time::SystemTime::now()
        .duration_since(std::time::UNIX_EPOCH)
        .unwrap()
        .as_nanos();
    format!("/tmp/{}-{}", tag, nanos)
}

fn commit_tree(
    repo: &git2::Repository,
    entries: &[(&str, &[u8])],
    message: &str,
    parent: Option<git2::Oid>,
) -> git2::Oid {
    let mut builder = repo.treebuilder(None).unwrap();
    for (name, content) in entries {
        let blob = repo.blob(content).unwrap();
        builder.insert(name, blob, 0o100644).unwrap();
    }
    let tree_id = builder.write().unwrap();
    let tree = repo.find_tree(tree_id).unwrap();
    let signature = git2::Signature::new(
        "Test User",
        "test@example.com",
        &git2::Time::new(1234567890, 0),
    )
    .unwrap();
    match parent {
        Some(parent_id) => {
            let parent_commit = repo.find_commit(parent_id).unwrap();
            repo.commit(
                Some("HEAD"),
                &signature,
                &signature,
                message,
                &tree,
                &[&parent_commit],
            )
            .unwrap()
        }
        None => repo
            .commit(Some("HEAD"), &signature, &signature, message, &tree, &[])
            .unwrap(),
    }
}

fn setup_test_repo_with_file(tag: &str) -> (git2::Repository, String) {
    let repo = git2::Repository::init(fresh_dir(tag)).unwrap();
    commit_tree(&repo, &[("test.txt", b"line 1\nline 2\nline 3\n")], "Add test file", None);
    (repo, "test.txt".to_string())
}

fn setup_empty_repo(tag: &str) -> git2::Repository {
    let repo = git2::Repository::init(fresh_dir(tag)).unwrap();
    commit_tree(&repo, &[], "Initial commit", None);
    repo
}

fn info_at_head(repo: git2::Repository) -> RepositoryInfo {
    let head = repo.head().unwrap().target().unwrap().to_string();
    RepositoryInfo::_from_parts(repo, head).unwrap()
}

#[test]
fn test_commit_row_new() {
    let oid = "0123456789abcdef0123456789abcdef01234567".to_string();
    let row = CommitRow::new(
        "test_author".to_string(),
        oid.clone(),
        42,
        "println!(\"Hello, world!\");".to_string(),
    );

    assert_eq!(row._author, "test_author");
    assert_eq!(row.commit, oid);
    assert_eq!(row.number, 42);
    assert_eq!(row.line, "println!(\"Hello, world!\");");
}

#[test]
fn test_repository_info_current_commit() {
    let repo = setup_empty_repo("gvt-current");
    let repo_info = info_at_head(repo);

    let result = repo_info.current_commit().unwrap();
    assert_eq!(result.0.len(), 40);
    assert_eq!(result.1, "Initial commit");
}

#[test]
fn test_set_commit_by_id_full_hash() {
    let (repo, _) = setup_test_repo_with_file("gvt-full-hash");
    let head_commit_str = repo.head().unwrap().target().unwrap().to_string();

    let mut repo_info = info_at_head(repo);

    let result = repo_info.set_commit_by_id(&head_commit_str);
    assert!(result.is_ok());
    assert_eq!(repo_info.get_current_commit_id(), head_commit_str);
}

#[test]
fn test_set_commit_by_id_short_hash() {
    let (repo, _) = setup_test_repo_with_file("gvt-short-hash");
    let head_commit_str = repo.head().unwrap().target().unwrap().to_string();
    let short_commit = head_commit_str[..7].to_string();

    let mut repo_info = info_at_head(repo);

    let result = repo_info.set_commit_by_id(&short_commit);
    assert!(result.is_ok());
    assert_eq!(repo_info.get_current_commit_id(), head_commit_str);
}

#[test]
fn test_set_commit_by_id_invalid() {
    let (repo, _) = setup_test_repo_with_file("gvt-invalid-id");
    let head_commit_str = repo.head().unwrap().target().unwrap().to_string();

    let mut repo_info = info_at_head(repo);

    let result = repo_info.set_commit_by_id(&"invalid123".to_string());
    assert!(result.is_err());
    assert_eq!(repo_info.get_current_commit_id(), head_commit_str);
}

#[test]
fn test_repository_info_set_parent_commit() {
    let (repo, _) = setup_test_repo_with_file("gvt-parent");
    let first = repo.head().unwrap().target().unwrap();
    commit_tree(
        &repo,
        &[("test.txt", b"line 1\nline 2\nline 3\n")],
        "Second commit",
        Some(first),
    );

    let mut repo_info = info_at_head(repo);
    let original = repo_info.get_current_commit_id();
    repo_info.set_parent_commit();

    assert_ne!(original, repo_info.get_current_commit_id());
}

#[test]
fn test_repository_info_set_parent_commit_no_parent() {
    let repo = setup_empty_repo("gvt-no-parent");
    let mut repo_info = info_at_head(repo);

    let original = repo_info.get_current_commit_id();
    repo_info.set_parent_commit();

    assert_eq!(original, repo_info.get_current_commit_id());
}

#[test]
fn test_get_content_not_found_special_case() {
    let repo = setup_empty_repo("gvt-not-found");
    let repo_info = info_at_head(repo);

    let result = repo_info.get_content("not found".to_string()).unwrap();
    assert!(result.is_empty());
}

#[test]
fn test_get_content_with_file() {
    let (repo, filename) = setup_test_repo_with_file("gvt-content");
    let repo_info = info_at_head(repo);

    let result = repo_info.get_content(filename).unwrap();
    assert_eq!(result.len(), 3);
    assert_eq!(result[0].line, "line 1");
    assert_eq!(result[1].line, "line 2");
    assert_eq!(result[2].line, "line 3");
    assert_eq!(result[0].number, 1);
    assert_eq!(result[1].number, 2);
    assert_eq!(result[2].number, 3);
}

#[test]
fn test_recursive_walk_empty_repo() {
    let repo = setup_empty_repo("gvt-walk-empty");
    let repo_info = info_at_head(repo);

    let result = repo_info.recursive_walk().unwrap();
    assert!(result.is_empty());
}

#[test]
fn test_recursive_walk_with_file() {
    let (repo, _) = setup_test_repo_with_file("gvt-walk-file");
    let repo_info = info_at_head(repo);

    let result = repo_info.recursive_walk().unwrap();
    assert_eq!(result.len(), 1);
    assert_eq!(result[0], "test.txt");
}

#[test]
fn test_find_next_commit_no_next() {
    let repo = setup_empty_repo("gvt-no-next");
    let head = repo.head().unwrap().target().unwrap().to_string();

    let result = gview::repository::find_successor(&vec![head.clone()], &head);
    assert!(result.is_none());
}

#[test]
fn test_set_next_commit_no_next() {
    let repo = setup_empty_repo("gvt-set-no-next");
    let mut repo_info = info_at_head(repo);

    let original = repo_info.get_current_commit_id();
    let result = repo_info.set_next_commit().unwrap();

    assert_eq!(original, repo_info.get_current_commit_id());
    assert_eq!(result.1, "Initial commit");
}

#[test]
fn test_set_next_commit_moves_forward() {
    let (repo, _) = setup_test_repo_with_file("gvt-next-fwd");
    let first = repo.head().unwrap().target().unwrap();
    let second = commit_tree(
        &repo,
        &[("test.txt", b"line 1\nline 2\nline 3\nline 4\n")],
        "Second commit",
        Some(first),
    );

    let info = RepositoryInfo::_from_parts(repo, first.to_string()).unwrap();
    let mut repo_info = info;
    let result = repo_info.set_next_commit().unwrap();
    assert_eq!(result.0, second.to_string());
    assert_eq!(repo_info.get_current_commit_id(), second.to_string());
}

#[test]
fn test_resolve_prefix_ambiguous() {
    let ids = vec![
        "aab2222222222222222222222222222222222222".to_string(),
        "aac3333333333333333333333333333333333333".to_string(),
    ];
    let result = gview::repository::resolve_prefix(&ids, &"aa".to_string());
    assert_eq!(result, Err(RepositoryError::AmbiguousCommit));

    let unique = gview::repository::resolve_prefix(&ids, &"aab".to_string());
    assert_eq!(unique, Ok(ids[0].clone()));

    let missing = gview::repository::resolve_prefix(&ids, &"zz".to_string());
    assert_eq!(missing, Err(RepositoryError::CommitNotFound));
}

#[test]
fn test_repository_unavailable() {
    let result = RepositoryInfo::new(&"/nonexistent/surely-no-repository-here".to_string());
    match result {
        Err(RepositoryError::RepositoryUnavailable) => {}
        other => panic!("expected the repository to be unavailable, got {:?}", other.is_ok()),
    }
}

#[test]
fn test_cursor_corrupted_reported() {
    let repo = setup_empty_repo("gvt-bad-cursor");
    let info = RepositoryInfo::_from_parts(
        repo,
        "0123456789abcdef0123456789abcdef01234567".to_string(),
    )
    .unwrap();
    assert_eq!(info.current_commit(), Err(RepositoryError::CursorCorrupted));
    assert_eq!(info.recursive_walk(), Err(RepositoryError::CursorCorrupted));
}

#[test]
fn test_path_not_found_reported() {
    let repo = setup_empty_repo("gvt-no-path");
    let repo_info = info_at_head(repo);
    assert_eq!(
        repo_info.get_content("missing.txt".to_string()),
        Err(RepositoryError::PathNotFound)
    );
}

#[test]
fn test_blame_scenario_single_commit() {
    let (repo, _) = setup_test_repo_with_file("gvt-blame");
    let head = repo.head().unwrap().target().unwrap().to_string();
    let repo_info = info_at_head(repo);

    let files = repo_info.recursive_walk().unwrap();
    assert_eq!(files, vec!["test.txt".to_string()]);

    let rows = repo_info.get_content("test.txt".to_string()).unwrap();
    assert_eq!(rows.len(), 3);
    for (i, row) in rows.iter().enumerate() {
        assert_eq!(row.number, i + 1);
        assert_eq!(row.commit, head);
        assert_eq!(row._author, "Test User");
    }
    assert_eq!(rows[0].line, "line 1");
    assert_eq!(rows[1].line, "line 2");
    assert_eq!(rows[2].line, "line 3");
}

#[test]
fn test_get_commit_history_order_and_summary() {
    let (repo, _) = setup_test_repo_with_file("gvt-history");
    let first = repo.head().unwrap().target().unwrap();
    let second = commit_tree(
        &repo,
        &[("test.txt", b"changed\n")],
        "Second commit\n\nwith a body",
        Some(first),
    );

    let repo_info = info_at_head(repo);
    let history = repo_info.get_commit_history().unwrap();
    assert_eq!(history.len(), 2);
    assert_eq!(history[0].0, second.to_string());
    assert_eq!(history[0].1, "Second commit");
    assert_eq!(history[1].0, first.to_string());
    assert_eq!(history[1].1, "Add test file");
}

#[test]
fn test_walk_skips_large_and_binary_blobs() {
    let repo = git2::Repository::init(fresh_dir("gvt-walk-filter")).unwrap();
    // The ceiling is strict: 16 KiB exactly is already too large.
    let at_ceiling = vec![b'a'; 16 * 1024];
    let under_ceiling = vec![b'a'; 16 * 1024 - 1];
    let binary = [0u8, 159, 146, 150];
    commit_tree(
        &repo,
        &[
            ("at-ceiling.txt", at_ceiling.as_slice()),
            ("binary.bin", &binary),
            ("small.txt", b"ok\n"),
            ("under-ceiling.txt", under_ceiling.as_slice()),
        ],
        "Mixed blobs",
        None,
    );
    let repo_info = info_at_head(repo);
    let files = repo_info.recursive_walk().unwrap();
    assert_eq!(
        files,
        vec!["small.txt".to_string(), "under-ceiling.txt".to_string()]
    );
}

#[test]
fn test_history_pairs_exact() {
    let ids = vec![
        "aaaaaaaaaaaaaaaaaaaaaaaaaaaaaaaaaaaaaaaa".to_string(),
        "bbbbbbbbbbbbbbbbbbbbbbbbbbbbbbbbbbbbbbbb".to_string(),
        "cccccccccccccccccccccccccccccccccccccccc".to_string(),
    ];
    let messages = vec![
        Some("Second commit\n\nwith a body".to_string()),
        None,
        Some("One liner".to_string()),
    ];
    let pairs = gview::repository::history_pairs(&ids, &messages);
    assert_eq!(pairs.len(), 3);
    assert_eq!(pairs[0], (ids[0].clone(), "Second commit".to_string()));
    assert_eq!(pairs[1], (ids[1].clone(), "No commit message".to_string()));
    assert_eq!(pairs[2], (ids[2].clone(), "One liner".to_string()));
}
