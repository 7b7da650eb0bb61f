//! End-to-end behavior of the generation coordinator, the stream decoder,
//! and the extraction worker manager.
use dailycraft::coordinator::{GenerationCoordinator, JobStatus, StartError};
use dailycraft::sse::StreamDecoder;
use dailycraft::worker::{ExtractAction, WorkerError, WorkerManager, WorkerPhase};
use dailycraft::client::{chat_reply_content, ChatError};

#[test]
fn start_is_single_flight() {
    let mut c = GenerationCoordinator::new();
    let first = c.start(b"sk-test", b"qwen-plus", b"[]", b"Summarize");
    assert!(first.is_ok());
    assert!(c.is_diary_generating());
    let before = c.get_diary_state();
    let second = c.start(b"sk-test", b"qwen-plus", b"[]", b"Summarize");
    assert!(matches!(second, Err(StartError::AlreadyRunning)));
    let after = c.get_diary_state();
    assert!(after.is_generating);
    assert_eq!(before.content, after.content);
    assert_eq!(before.error, after.error);
    assert_eq!(before.date, after.date);
    // A third attempt is rejected the same way.
    let third = c.start(b"other", b"qwen-plus", b"[]", b"Summarize");
    assert!(matches!(third, Err(StartError::AlreadyRunning)));
}

#[test]
fn two_chunk_stream_succeeds() {
    let mut c = GenerationCoordinator::new();
    c.start(b"sk-test", b"qwen-plus", b"activities_json=[]", b"Summarize").unwrap();
    let d1 = c.on_chunk(b"data: {\"choices\":[{\"delta\":{\"content\":\"Hello \"}}]}\n");
    assert_eq!(d1, vec![b"Hello ".to_vec()]);
    let d2 = c.on_chunk(b"data: {\"choices\":[{\"delta\":{\"content\":\"world\"}}]}\n");
    assert_eq!(d2, vec![b"world".to_vec()]);
    let d3 = c.on_chunk(b"data: [DONE]\n");
    assert!(d3.is_empty());
    let content = c.on_stream_complete();
    assert_eq!(content, b"Hello world".to_vec());
    assert!(!c.is_diary_generating());
    assert!(matches!(c.job.status, JobStatus::Succeeded));
    let snap = c.get_diary_state();
    assert_eq!(snap.content, "Hello world");
    assert!(!snap.is_generating);
    // The job was keyed by a full date.
    assert!(snap.date.len() >= 10);
}

#[test]
fn empty_credentials_fail_without_network() {
    let mut c = GenerationCoordinator::new();
    let r = c.start(b"", b"qwen-plus", b"[]", b"Summarize");
    assert!(matches!(r, Err(StartError::MissingApiKey)));
    assert!(!c.is_diary_generating());
    assert!(matches!(c.job.status, JobStatus::Failed));
    let snap = c.get_diary_state();
    assert!(snap.error.contains("configured"));
    assert_eq!(snap.content, "");
}

#[test]
fn stream_error_fails_job() {
    let mut c = GenerationCoordinator::new();
    c.start(b"sk", b"m", b"[]", b"p").unwrap();
    c.on_chunk(b"data: {\"choices\":[{\"delta\":{\"content\":\"part\"}}]}\n");
    c.on_stream_error(b"connection reset");
    assert!(matches!(c.job.status, JobStatus::Failed));
    assert!(!c.is_diary_generating());
    let snap = c.get_diary_state();
    assert_eq!(snap.error, "connection reset");
    // Partial content survives for inspection.
    assert_eq!(snap.content, "part");
}

#[test]
fn split_frame_emits_one_delta() {
    let mut d = StreamDecoder::new();
    let first = d.feed(b"data: {\"choices\":[{\"delta\":{\"content\":\"ab");
    assert!(first.is_empty());
    let second = d.feed(b"c\"}}]}\n");
    assert_eq!(second, vec![b"abc".to_vec()]);
    assert_eq!(d.content(), b"abc".to_vec());
}

#[test]
fn malformed_line_is_skipped() {
    let mut d = StreamDecoder::new();
    let out = d.feed(
        b"data: {oops\ndata: {\"choices\":[{\"delta\":{\"content\":\"ok\"}}]}\ndata: [DONE]\n",
    );
    assert_eq!(out, vec![b"ok".to_vec()]);
    assert_eq!(d.content(), b"ok".to_vec());
}

#[test]
fn content_is_ordered_concatenation() {
    let mut d = StreamDecoder::new();
    let mut emitted: Vec<Vec<u8>> = Vec::new();
    for chunk in [
        &b"data: {\"choices\":[{\"delta\":{\"content\":\"a\"}}]}\nda"[..],
        &b"ta: {\"choices\":[{\"delta\":{\"content\":\"b\"}}]}\n"[..],
        &b"\r\ndata: {\"choices\":[{\"delta\":{\"content\":\"c\"}}]}\ndata: [DONE]\n"[..],
    ] {
        emitted.extend(d.feed(chunk));
    }
    assert_eq!(emitted, vec![b"a".to_vec(), b"b".to_vec(), b"c".to_vec()]);
    assert_eq!(d.content(), b"abc".to_vec());
}

#[test]
fn done_sentinel_and_blank_lines_emit_nothing() {
    let mut d = StreamDecoder::new();
    let out = d.feed(b"\n   \ndata: [DONE]\n: comment\nevent: x\n");
    assert!(out.is_empty());
    assert_eq!(d.content(), Vec::<u8>::new());
}

#[test]
fn dead_worker_restarts_on_next_call() {
    let mut m = WorkerManager::new();
    // First call: nothing is running yet, so the shell must spawn.
    let plan = m.begin_extract(b"/tmp/shot.png", true).unwrap();
    assert!(matches!(plan, ExtractAction::Spawn));
    // Handshake succeeds (the line arrives newline-terminated); the
    // worker is ready.
    m.on_handshake_line(b"{}\n").unwrap();
    assert!(matches!(m.phase, WorkerPhase::Ready));
    // Next call probes; the probe finds the process dead.
    let plan = m.begin_extract(b"/tmp/shot.png", true).unwrap();
    assert!(matches!(plan, ExtractAction::ProbeThenUse));
    let next = m.on_probe(false);
    assert!(matches!(next, ExtractAction::Spawn));
    assert!(matches!(m.phase, WorkerPhase::Down));
    // The respawned worker serves the request.
    m.on_handshake_line(b"{\"status\":\"ready\"}\n").unwrap();
    let text = m.on_reply_line(b"{\"text\":\"extracted words\"}\n").unwrap();
    assert_eq!(text, b"extracted words".to_vec());
}

#[test]
fn missing_image_never_touches_worker() {
    let mut m = WorkerManager::new();
    let r = m.begin_extract(b"missing.png", false);
    match r {
        Err(WorkerError::MissingImage(p)) => assert_eq!(p, b"missing.png".to_vec()),
        _ => panic!("expected the missing-image error"),
    }
    assert!(matches!(m.phase, WorkerPhase::Down));
    // Same when a worker is held: the phase is untouched.
    let mut m2 = WorkerManager { phase: WorkerPhase::Ready };
    let r2 = m2.begin_extract(b"missing.png", false);
    assert!(matches!(r2, Err(WorkerError::MissingImage(_))));
    assert!(matches!(m2.phase, WorkerPhase::Ready));
}

#[test]
fn handshake_error_is_reported_and_retryable() {
    let mut m = WorkerManager::new();
    m.begin_extract(b"/a.png", true).unwrap();
    let r = m.on_handshake_line(b"{\"error\":\"model files missing\"}");
    match r {
        Err(WorkerError::HandshakeReported(msg)) => {
            assert_eq!(msg, b"model files missing".to_vec())
        },
        _ => panic!("expected the reported handshake failure"),
    }
    assert!(matches!(m.phase, WorkerPhase::Down));
    // The next call plans a fresh spawn.
    let plan = m.begin_extract(b"/a.png", true).unwrap();
    assert!(matches!(plan, ExtractAction::Spawn));
}

#[test]
fn spawn_and_handshake_failures_leave_manager_down() {
    let mut m = WorkerManager::new();
    let e = m.on_spawn_failed(b"python not found");
    assert!(matches!(e, WorkerError::SpawnFailed(_)));
    assert!(matches!(m.phase, WorkerPhase::Down));
    let r = m.on_handshake_line(b"not json at all");
    assert!(matches!(r, Err(WorkerError::HandshakeProtocol)));
    assert!(matches!(m.phase, WorkerPhase::Down));
}

#[test]
fn worker_reply_outcomes() {
    let m = WorkerManager::new();
    assert!(matches!(m.on_reply_line(b"not json"), Err(WorkerError::ReplyProtocol)));
    assert!(matches!(m.on_reply_line(b"{\"error\":\"bad image\"}"),
        Err(WorkerError::WorkerReported(_))));
    assert!(matches!(m.on_reply_line(b"{}"), Err(WorkerError::MissingText)));
    // A non-string text field counts as missing.
    assert!(matches!(m.on_reply_line(b"{\"text\":5}"), Err(WorkerError::MissingText)));
    // A later text member replaces an earlier one.
    let t = m.on_reply_line(b"{\"text\":\"a\",\"text\":\"b\"}").unwrap();
    assert_eq!(t, b"b".to_vec());
    // A well-formed non-object decodes to neither field.
    assert!(matches!(m.on_reply_line(b"[1,2,3]"), Err(WorkerError::MissingText)));
}

#[test]
fn worker_request_line_is_escaped_json() {
    let m = WorkerManager::new();
    let line = m.request_line(b"C:\\shots\\a \"b\".png");
    assert_eq!(
        line,
        b"{\"image_path\":\"C:\\\\shots\\\\a \\\"b\\\".png\"}\n".to_vec()
    );
}

#[test]
fn blocking_reply_outcomes() {
    let ok = chat_reply_content(
        true,
        b"{\"choices\":[{\"message\":{\"role\":\"assistant\",\"content\":\"hi\"},\"finish_reason\":\"stop\"}]}",
    );
    assert_eq!(ok.unwrap(), b"hi".to_vec());
    let empty = chat_reply_content(true, b"{\"choices\":[]}");
    assert!(matches!(empty, Err(ChatError::NoContent)));
    let bad = chat_reply_content(true, b"{\"choices\":");
    assert!(matches!(bad, Err(ChatError::Protocol)));
    let status = chat_reply_content(false, b"quota exceeded");
    match status {
        Err(ChatError::ApiStatus(body)) => assert_eq!(body, b"quota exceeded".to_vec()),
        _ => panic!("expected the status error carrying the body"),
    }
}
