use turmy::file_watcher::{
    FileReader, FileWatcher, FileWatcherError, FileWatcherHandle, FileWatcherMessage,
    FileWatcherUpdate, ReadOutcome,
};
use turmy::path::same_path;

fn file(path: &str) -> Option<String> {
    Some(path.to_string())
}

fn append(bytes: &[u8]) -> FileWatcherUpdate {
    FileWatcherUpdate::Append(bytes.to_vec())
}

fn error(reason: &str) -> FileWatcherUpdate {
    FileWatcherUpdate::Error(FileWatcherError::File(reason.to_string()))
}

#[test]
fn a_reader_goes_on_behind_what_it_read() {
    let mut reader = FileReader::new("log".to_string());
    assert_eq!(reader.pos, 0);
    let update = reader.update(ReadOutcome::Read { position: 0, bytes: b"abc".to_vec() });
    assert!(matches!(update, FileWatcherUpdate::Append(bytes) if bytes == b"abc"));
    assert_eq!(reader.pos, 3);
    let update = reader.update(ReadOutcome::Read { position: 3, bytes: Vec::new() });
    assert!(matches!(update, FileWatcherUpdate::Append(bytes) if bytes.is_empty()));
    assert_eq!(reader.pos, 3);
    assert_eq!(reader.file_path, "log");
}

#[test]
fn a_reader_reports_why_it_failed() {
    let mut reader = FileReader::new("log".to_string());
    reader.update(ReadOutcome::Read { position: 0, bytes: b"abc".to_vec() });
    match reader.update(ReadOutcome::NotOpened { reason: "gone".to_string() }) {
        FileWatcherUpdate::Error(error) => assert_eq!(error.message(), "Read error: gone"),
        _ => panic!("an error was expected"),
    }
    assert_eq!(reader.pos, 3);
    reader.update(ReadOutcome::NotRead { position: 2, reason: "io".to_string() });
    assert_eq!(reader.pos, 2);
}

#[test]
fn empty_reads_are_passed_on_after_an_error_only() {
    let mut watcher = FileWatcher::new();
    watcher.select_file(FileWatcherMessage::FilePath(file("a")));
    assert!(!watcher.should_forward(1, &append(b"")));
    assert!(watcher.should_forward(1, &append(b"x")));
    assert!(watcher.should_forward(1, &error("gone")));
    assert!(watcher.should_forward(1, &error("gone")));
    assert!(watcher.should_forward(1, &append(b"")));
    assert!(!watcher.should_forward(1, &append(b"")));
    assert!(watcher.should_forward(1, &FileWatcherUpdate::Reset));
}

#[test]
fn choosing_another_file_ends_the_notifications_for_the_old_one() {
    let mut watcher = FileWatcher::new();
    let selection = watcher.select_file(FileWatcherMessage::FilePath(file("a")));
    assert_eq!(selection.unwatch, None);
    assert_eq!(selection.start, file("a"));
    assert_eq!(selection.reader, 1);
    assert!(matches!(selection.report, FileWatcherUpdate::Reset));
    watcher.watch_attempted(true);
    assert_eq!(watcher.retry_watch(1, &append(b"")), None);

    watcher.should_forward(1, &error("gone"));
    let selection = watcher.select_file(FileWatcherMessage::FilePath(None));
    assert_eq!(selection.unwatch, file("a"));
    assert_eq!(selection.start, None);
    assert_eq!(selection.reader, 2);
    assert_eq!(watcher.retry_watch(1, &append(b"late")), None);
    assert!(!watcher.watching);
    assert!(!watcher.reader_had_error);
}

#[test]
fn notifications_are_asked_for_again_once_a_file_is_readable() {
    let mut watcher = FileWatcher::new();
    watcher.select_file(FileWatcherMessage::FilePath(file("a")));
    watcher.watch_attempted(false);
    assert_eq!(watcher.retry_watch(1, &error("gone")), None);
    assert_eq!(watcher.retry_watch(1, &append(b"")), file("a"));
    watcher.watch_attempted(true);
    assert_eq!(watcher.retry_watch(1, &append(b"")), None);
}

#[test]
fn a_follower_is_told_of_a_file_once() {
    let mut handle = FileWatcherHandle::new();
    assert!(handle.message_for(&None).is_none());
    assert!(handle.message_for(&file("/a/b")).is_some());
    handle.set_file_path(file("/a/b"), false);
    assert!(handle.message_for(&file("/a/b")).is_some());
    handle.set_file_path(file("/a/b"), true);
    assert!(handle.message_for(&file("/a/b")).is_none());
    assert!(handle.message_for(&file("/a//b/.")).is_none());
    assert!(handle.message_for(&file("/a/c")).is_some());
    assert!(handle.message_for(&None).is_some());
}

#[test]
fn paths_are_compared_by_components() {
    let paths = ["a", "a/", "./a", "a/.", "/a", "//a", "a//b", "a/b", "a/./b", "a/../b", "", ".", "/"];
    for a in paths {
        for b in paths {
            assert_eq!(same_path(a, b), std::path::Path::new(a) == std::path::Path::new(b));
        }
    }
}

/// Passes on what a follower does at each event: a file that is chosen, or what
/// the reader of a number reports.
fn pass_on(events: Vec<Result<&str, (u64, FileWatcherUpdate)>>) -> Vec<String> {
    let mut watcher = FileWatcher::new();
    let mut passed = Vec::new();
    for event in events {
        let update = match event {
            Ok(path) => watcher.select_file(FileWatcherMessage::FilePath(file(path))).report,
            Err((reader, update)) => {
                if !watcher.should_forward(reader, &update) {
                    continue;
                }
                update
            }
        };
        passed.push(match update {
            FileWatcherUpdate::Reset => "reset".to_string(),
            FileWatcherUpdate::Append(bytes) => String::from_utf8(bytes).unwrap(),
            FileWatcherUpdate::Error(error) => error.message(),
        });
    }
    passed
}

#[test]
fn a_follower_passes_on_what_concerns_the_file_chosen_last() {
    let passed = pass_on(vec![
        Ok("a"),
        Err((1, append(b""))),
        Err((1, append(b"one"))),
        Err((1, error("gone"))),
        Err((1, error("gone"))),
        Err((1, append(b""))),
        Err((1, append(b""))),
        Err((1, error("gone"))),
        Ok("b"),
        Err((1, append(b"late"))),
        Err((1, error("late"))),
        Err((2, append(b""))),
        Err((2, append(b"two"))),
        Ok("b"),
        Ok("a"),
        Err((3, error("late"))),
        Err((4, append(b""))),
        Err((4, append(b"three"))),
    ]);
    let expected = [
        "reset", "one", "Read error: gone", "Read error: gone", "", "Read error: gone", "reset",
        "two", "reset", "reset", "three",
    ];
    assert_eq!(passed, expected);
}

#[test]
fn reads_of_a_growing_file_join_to_the_file() {
    let mut content = Vec::new();
    let mut reader = FileReader::new("log".to_string());
    let mut watcher = FileWatcher::new();
    watcher.select_file(FileWatcherMessage::FilePath(file("log")));
    let mut passed = Vec::new();
    for attempt in 0..40 {
        if attempt % 3 != 1 {
            content.extend(format!("line {attempt}\n").into_bytes());
        }
        let before = reader.pos as usize;
        let outcome = match attempt % 5 {
            2 => ReadOutcome::NotOpened { reason: "gone".to_string() },
            4 => ReadOutcome::NotRead { position: reader.pos, reason: "io".to_string() },
            _ => ReadOutcome::Read { position: reader.pos, bytes: content[before..].to_vec() },
        };
        let update = reader.update(outcome);
        let failed = matches!(update, FileWatcherUpdate::Error(_));
        if watcher.should_forward(1, &update) {
            if let FileWatcherUpdate::Append(bytes) = update {
                passed.extend(bytes);
            }
        }
        assert_eq!(reader.pos as usize, passed.len());
        assert!(content.starts_with(&passed));
        assert_eq!(failed, attempt % 5 == 2 || attempt % 5 == 4);
        if !failed {
            assert_eq!(passed, content);
        }
    }
}
