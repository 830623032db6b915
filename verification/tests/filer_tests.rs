use gview::filer::Filer;
use gview::messages::{Focus, Key, Message, OnceOperation};

#[test]
fn test_filer_navigation_up_down() {
    let mut filer = Filer::new();
    filer.results = vec![
        "file1.txt".to_string(),
        "file2.txt".to_string(),
        "file3.txt".to_string(),
    ];
    filer.selected = 0;

    let message = filer.process_events(Key::Down);
    assert_eq!(filer.selected, 1);
    match message {
        Message::Once(OnceOperation::ShowFile { file }) => assert_eq!(file, "file2.txt"),
        _ => panic!("Expected ShowFile message"),
    }

    let message = filer.process_events(Key::Down);
    assert_eq!(filer.selected, 2);
    match message {
        Message::Once(OnceOperation::ShowFile { file }) => assert_eq!(file, "file3.txt"),
        _ => panic!("Expected ShowFile message"),
    }

    let message = filer.process_events(Key::Up);
    assert_eq!(filer.selected, 1);
    match message {
        Message::Once(OnceOperation::ShowFile { file }) => assert_eq!(file, "file2.txt"),
        _ => panic!("Expected ShowFile message"),
    }
}

#[test]
fn test_filer_navigation_down_at_boundary() {
    let mut filer = Filer::new();
    filer.results = vec!["file1.txt".to_string(), "file2.txt".to_string()];
    filer.selected = 1;

    let message = filer.process_events(Key::Down);
    assert_eq!(filer.selected, 1);
    assert_eq!(message, Message::NoAction);
}

#[test]
fn test_filer_horizontal_scrolling() {
    let mut filer = Filer::new();
    filer.max_scroll = 10;
    filer.start_position = 0;

    let message = filer.process_events(Key::Right);
    assert_eq!(filer.start_position, 1);
    assert_eq!(message, Message::NoAction);

    let message = filer.process_events(Key::Left);
    assert_eq!(filer.start_position, 0);
    assert_eq!(message, Message::NoAction);

    let message = filer.process_events(Key::Left);
    assert_eq!(filer.start_position, 0);
    assert_eq!(message, Message::NoAction);

    filer.start_position = 10;
    let message = filer.process_events(Key::Right);
    assert_eq!(filer.start_position, 10);
    assert_eq!(message, Message::NoAction);
}

#[test]
fn test_filer_enter_key() {
    let mut filer = Filer::new();
    let message = filer.process_events(Key::Enter);
    assert_eq!(message, Message::Once(OnceOperation::JumpToContentView));
}

#[test]
fn test_filer_focus_toggle() {
    let mut filer = Filer::new();
    assert_eq!(filer.focus, Focus::Off);

    filer.process_focus();
    assert_eq!(filer.focus, Focus::ON);

    filer.process_focus();
    assert_eq!(filer.focus, Focus::Off);
}

#[test]
fn test_filer_viewport_scroll_range() {
    let mut filer = Filer::new();
    filer.results = vec!["a-rather-long-file-name.txt".to_string(), "short".to_string()];
    filer.set_viewport(10);
    // 27 characters, 7 columns of room after the selection marker.
    assert_eq!(filer.max_scroll, 20);
    filer.set_viewport(100);
    assert_eq!(filer.max_scroll, 0);
}
