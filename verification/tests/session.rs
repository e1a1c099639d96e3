use logtail::session::TailAction;
use logtail::session::TailEvent;
use logtail::session::TailSession;
use logtail::session::BACKOFF_MAX_MS;
use logtail::session::BACKOFF_MIN_MS;

fn read(bytes: &[u8]) -> TailEvent {
    TailEvent::ReadData { bytes: bytes.to_vec() }
}

#[test]
fn scenario_hello_then_world() {
    // The path does not exist when the session begins; the file then appears
    // already holding "hello\nworld" with no trailing terminator.
    let mut s = TailSession::new();
    assert_eq!(s.current_action(), TailAction::Open);
    let (lines, a) = s.step(TailEvent::OpenMissing);
    assert!(lines.is_empty());
    assert_eq!(a, TailAction::Wait { millis: BACKOFF_MIN_MS });
    let (_, a) = s.step(TailEvent::Waited);
    assert_eq!(a, TailAction::Open);
    let (_, a) = s.step(TailEvent::Opened { identity: 1, size: 11 });
    assert_eq!(a, TailAction::Read);
    assert_eq!(s.cursor(), 0);
    let (lines, a) = s.step(read(b"hello\nworld"));
    assert_eq!(lines, vec![b"hello".to_vec()]);
    assert_eq!(a, TailAction::Read);
    // "world" is unfinished: caught up, nothing new, nothing emitted.
    let (lines, a) = s.step(read(b""));
    assert!(lines.is_empty());
    assert_eq!(a, TailAction::Probe);
    let (lines, a) = s.step(TailEvent::Observed { identity: 1, size: 11 });
    assert!(lines.is_empty());
    assert!(matches!(a, TailAction::Wait { .. }));
    let (_, a) = s.step(TailEvent::Waited);
    assert_eq!(a, TailAction::Read);
    // Appending "!\n" completes the buffered line.
    let (lines, _) = s.step(read(b"!\n"));
    assert_eq!(lines, vec![b"world!".to_vec()]);
    assert_eq!(s.cursor(), 13);
}

#[test]
fn first_open_skips_historical_content() {
    // The file already exists when the session begins: its content is not
    // replayed, and the session starts reading at its current end.
    let mut s = TailSession::new();
    let (lines, a) = s.step(TailEvent::Opened { identity: 4, size: 42 });
    assert!(lines.is_empty());
    assert_eq!(a, TailAction::Read);
    assert_eq!(s.cursor(), 42);
}

#[test]
fn ordering_regardless_of_chunking() {
    let mut s = TailSession::new();
    s.step(TailEvent::Opened { identity: 1, size: 0 });
    let mut all: Vec<Vec<u8>> = Vec::new();
    for chunk in [&b"ab\nc"[..], b"", b"d\n", b"e", b"f\ng\n"] {
        if chunk.is_empty() {
            s.step(read(b""));
            s.step(TailEvent::Observed { identity: 1, size: s.cursor() });
            s.step(TailEvent::Waited);
        } else {
            let (lines, _) = s.step(read(chunk));
            all.extend(lines);
        }
    }
    assert_eq!(
        all,
        vec![b"ab".to_vec(), b"cd".to_vec(), b"ef".to_vec(), b"g".to_vec()]
    );
}

#[test]
fn no_duplication_after_catching_up() {
    let mut s = TailSession::new();
    s.step(TailEvent::Opened { identity: 1, size: 0 });
    let (lines, _) = s.step(read(b"one\n"));
    assert_eq!(lines, vec![b"one".to_vec()]);
    let cursor = s.cursor();
    // Polling again without new writes: no line may come out.
    for _ in 0..3 {
        let (lines, a) = s.step(read(b""));
        assert!(lines.is_empty());
        assert_eq!(a, TailAction::Probe);
        let (lines, a) = s.step(TailEvent::Observed { identity: 1, size: cursor });
        assert!(lines.is_empty());
        assert!(matches!(a, TailAction::Wait { .. }));
        let (lines, a) = s.step(TailEvent::Waited);
        assert!(lines.is_empty());
        assert_eq!(a, TailAction::Read);
        assert_eq!(s.cursor(), cursor);
    }
    // Only new bytes produce a new line.
    let (lines, _) = s.step(read(b"two\n"));
    assert_eq!(lines, vec![b"two".to_vec()]);
}

#[test]
fn rotation_emits_old_then_new() {
    let mut s = TailSession::new();
    s.step(TailEvent::Opened { identity: 1, size: 0 });
    let (lines, _) = s.step(read(b"before\n"));
    assert_eq!(lines, vec![b"before".to_vec()]);
    s.step(read(b""));
    // The path now names a different physical file.
    let (lines, a) = s.step(TailEvent::Observed { identity: 2, size: 9 });
    assert!(lines.is_empty());
    assert_eq!(a, TailAction::Open);
    let (lines, a) = s.step(TailEvent::Opened { identity: 2, size: 9 });
    assert!(lines.is_empty());
    assert_eq!(a, TailAction::Read);
    // The new file is read from its start: nothing replayed, nothing lost.
    assert_eq!(s.cursor(), 0);
    let (lines, _) = s.step(read(b"after\n"));
    assert_eq!(lines, vec![b"after".to_vec()]);
}

#[test]
fn rotation_drops_unfinished_fragment() {
    let mut s = TailSession::new();
    s.step(TailEvent::Opened { identity: 1, size: 0 });
    let (lines, _) = s.step(read(b"dangling"));
    assert!(lines.is_empty());
    assert_eq!(s.pending_len(), 8);
    s.step(read(b""));
    s.step(TailEvent::Observed { identity: 2, size: 0 });
    s.step(TailEvent::Opened { identity: 2, size: 0 });
    assert_eq!(s.pending_len(), 0);
    // The first line of the new file is exactly what was written to it.
    let (lines, _) = s.step(read(b"fresh\n"));
    assert_eq!(lines, vec![b"fresh".to_vec()]);
}

#[test]
fn truncation_yields_only_the_new_line() {
    let mut s = TailSession::new();
    s.step(TailEvent::Opened { identity: 1, size: 0 });
    let (lines, _) = s.step(read(b"old content\npartial"));
    assert_eq!(lines, vec![b"old content".to_vec()]);
    s.step(read(b""));
    // Same file, now shorter than what was read: truncated to empty.
    let (lines, a) = s.step(TailEvent::Observed { identity: 1, size: 0 });
    assert!(lines.is_empty());
    assert_eq!(a, TailAction::Read);
    assert_eq!(s.cursor(), 0);
    assert_eq!(s.pending_len(), 0);
    let (lines, _) = s.step(read(b"new\n"));
    assert_eq!(lines, vec![b"new".to_vec()]);
}

#[test]
fn unchanged_size_is_not_truncation() {
    let mut s = TailSession::new();
    s.step(TailEvent::Opened { identity: 1, size: 0 });
    s.step(read(b"abc\n"));
    s.step(read(b""));
    let (_, a) = s.step(TailEvent::Observed { identity: 1, size: 4 });
    assert!(matches!(a, TailAction::Wait { .. }));
    assert_eq!(s.cursor(), 4);
}

#[test]
fn absence_is_tolerated_until_the_file_appears() {
    let mut s = TailSession::new();
    for _ in 0..5 {
        let (lines, a) = s.step(TailEvent::OpenMissing);
        assert!(lines.is_empty());
        assert!(matches!(a, TailAction::Wait { .. }));
        assert!(!s.is_failed());
        let (_, a) = s.step(TailEvent::Waited);
        assert_eq!(a, TailAction::Open);
    }
    s.step(TailEvent::Opened { identity: 3, size: 0 });
    let (lines, _) = s.step(read(b"finally\n"));
    assert_eq!(lines, vec![b"finally".to_vec()]);
}

#[test]
fn file_vanishing_while_open_reopens() {
    let mut s = TailSession::new();
    s.step(TailEvent::Opened { identity: 1, size: 0 });
    s.step(read(b""));
    let (lines, a) = s.step(TailEvent::ObserveMissing);
    assert!(lines.is_empty());
    assert_eq!(a, TailAction::Open);
    assert!(!s.is_open());
    let (_, a) = s.step(TailEvent::OpenMissing);
    assert!(matches!(a, TailAction::Wait { .. }));
    s.step(TailEvent::Waited);
    s.step(TailEvent::Opened { identity: 5, size: 0 });
    let (lines, _) = s.step(read(b"again\n"));
    assert_eq!(lines, vec![b"again".to_vec()]);
}

#[test]
fn backoff_doubles_to_cap_and_resets_on_read() {
    let mut s = TailSession::new();
    let mut expected = BACKOFF_MIN_MS;
    for _ in 0..10 {
        let (_, a) = s.step(TailEvent::OpenMissing);
        assert_eq!(a, TailAction::Wait { millis: expected });
        s.step(TailEvent::Waited);
        expected = (expected * 2).min(BACKOFF_MAX_MS);
    }
    assert_eq!(expected, BACKOFF_MAX_MS);
    s.step(TailEvent::Opened { identity: 1, size: 0 });
    s.step(read(b"data\n"));
    // A successful read resets the wait to its minimum.
    s.step(read(b""));
    let (_, a) = s.step(TailEvent::Observed { identity: 1, size: 5 });
    assert_eq!(a, TailAction::Wait { millis: BACKOFF_MIN_MS });
}

#[test]
fn fatal_read_error_ends_the_session() {
    let mut s = TailSession::new();
    s.step(TailEvent::Opened { identity: 1, size: 0 });
    let (lines, a) = s.step(TailEvent::ReadFailed);
    assert!(lines.is_empty());
    assert_eq!(a, TailAction::Fail);
    assert!(s.is_failed());
    assert_eq!(s.current_action(), TailAction::Fail);
}
