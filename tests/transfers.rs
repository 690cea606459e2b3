use lanshare::provider::{decode_provider_chunk, encode_provider_chunk};
use lanshare::receive::{FrameAction, ReceiveOutcome, ReceiveSession};
use lanshare::send::{after_final_close, after_send_failure, Batch, BatchStep, SendSession, SendStep, TransferError};
use lanshare::transfer::{choose_download_dir, FileMeta, CHUNK_SIZE, CLOSE_CANCELLED_BY_RECEIVER};

fn session_for(size: u64) -> ReceiveSession {
    let mut s = ReceiveSession::new();
    let meta = FileMeta::for_batch("f.bin".to_string(), size, 0, 1, None);
    s.on_metadata(&meta, true);
    s
}

#[test]
fn exact_bytes_complete() {
    let mut s = session_for(1000);
    assert!(matches!(s.on_frame(600, false), FrameAction::Write { .. }));
    assert!(matches!(s.on_frame(400, false), FrameAction::Write { progress: true }));
    let c = s.finish(false);
    assert!(matches!(c.outcome, ReceiveOutcome::Completed));
    assert_eq!(c.close_code, None);
    assert!(!c.remove_destination);
    assert_eq!(c.bytes_received, 1000);
}

#[test]
fn short_stream_is_incomplete_and_deleted() {
    let mut s = session_for(1000);
    s.on_frame(999, false);
    s.on_close();
    let c = s.finish(false);
    assert!(matches!(c.outcome, ReceiveOutcome::Incomplete));
    assert_eq!(c.close_code, Some(4001));
    assert!(c.remove_destination);
}

#[test]
fn cancel_before_last_frame_is_cancelled() {
    let mut s = session_for(1000);
    s.on_frame(500, false);
    match s.on_frame(500, true) {
        FrameAction::CancelAndStop { close_code } => assert_eq!(close_code, 4001),
        _ => panic!("expected the cancel close"),
    }
    assert!(matches!(s.on_frame(10, false), FrameAction::Ignore));
    let c = s.finish(false);
    assert!(matches!(c.outcome, ReceiveOutcome::Cancelled));
    assert_eq!(c.close_code, None);
    assert!(c.remove_destination);
}

#[test]
fn cancel_after_all_bytes_is_cancelled() {
    let mut s = session_for(100);
    s.on_frame(100, false);
    let c = s.finish(true);
    assert!(matches!(c.outcome, ReceiveOutcome::Cancelled));
    assert_eq!(c.close_code, Some(CLOSE_CANCELLED_BY_RECEIVER));
}

#[test]
fn metadata_without_size_is_complete() {
    let mut s = session_for(0);
    s.on_frame(5, false);
    let c = s.finish(false);
    assert!(matches!(c.outcome, ReceiveOutcome::Completed));
}

#[test]
fn frames_without_destination_are_dropped() {
    let mut s = ReceiveSession::new();
    let meta = FileMeta::for_batch("x".to_string(), 10, 0, 1, Some("d/x".to_string()));
    s.on_metadata(&meta, false);
    assert_eq!(s.file_name, Some("d/x".to_string()));
    assert!(matches!(s.on_frame(10, false), FrameAction::Drop));
    let c = s.finish(false);
    assert!(matches!(c.outcome, ReceiveOutcome::Incomplete));
    assert!(!c.remove_destination);
}

#[test]
fn sender_reads_4001_as_receiver_cancel() {
    assert!(matches!(after_send_failure(Some(4001), "broken".to_string()), TransferError::CancelledByReceiver));
    match after_send_failure(Some(1000), "broken".to_string()) {
        TransferError::Failed { reason } => assert_eq!(reason, "broken"),
        _ => panic!("expected a failure"),
    }
    assert!(matches!(after_send_failure(None, "x".to_string()), TransferError::Failed { .. }));
    assert!(matches!(after_final_close(Some(4001)), Err(TransferError::CancelledByReceiver)));
    assert!(after_final_close(Some(1000)).is_ok());
    assert!(after_final_close(None).is_ok());
    assert_eq!(TransferError::CancelledByReceiver.message(), "Cancelled by receiver");
    assert_eq!(TransferError::CancelledByUser.message(), "Cancelled by user");
}

#[test]
fn receiver_cancel_reaches_sender() {
    let mut s = session_for(10);
    let code = match s.on_frame(10, true) {
        FrameAction::CancelAndStop { close_code } => close_code,
        _ => panic!("expected the cancel close"),
    };
    assert!(matches!(after_send_failure(Some(code), String::new()), TransferError::CancelledByReceiver));
}

#[test]
fn six_hundred_kib_in_three_chunks() {
    let size: u64 = 600 * 1024;
    let mut sender = SendSession::new(size, true);
    let mut receiver = session_for(size);
    let mut chunks = Vec::new();
    let mut progress = 0;
    loop {
        match sender.step(false) {
            SendStep::Read { offset, max_len } => {
                let n = std::cmp::min(max_len, size - offset);
                if !sender.on_read(n) {
                    continue;
                }
                chunks.push(n);
                if let FrameAction::Write { progress: true } = receiver.on_frame(n, false) {
                    progress += 1;
                }
                sender.on_sent(n);
            }
            SendStep::Finish => break,
            SendStep::Abort => panic!("not cancelled"),
        }
    }
    assert_eq!(chunks, vec![262144, 262144, 90112]);
    assert_eq!(receiver.bytes_received, 614400);
    assert!(progress >= 3);
    let c = receiver.finish(false);
    assert!(matches!(c.outcome, ReceiveOutcome::Completed));
    assert_eq!(c.bytes_received, 614400);
    assert!(after_final_close(c.close_code).is_ok());
    assert_eq!(CHUNK_SIZE, 262144);
}

#[test]
fn progress_is_throttled() {
    let mut s = session_for(1_000_000);
    assert!(matches!(s.on_frame(50 * 1024, false), FrameAction::Write { progress: false }));
    assert!(matches!(s.on_frame(50 * 1024, false), FrameAction::Write { progress: true }));
    assert!(matches!(s.on_frame(1024, false), FrameAction::Write { progress: false }));
    assert_eq!(s.last_progress, 100 * 1024);
}

#[test]
fn sender_cancel_aborts() {
    let mut s = SendSession::new(10, false);
    assert!(matches!(s.step(true), SendStep::Abort));
    assert!(!s.on_read(0));
    assert!(matches!(s.step(true), SendStep::Finish));
}

#[test]
fn batch_steps_and_cancel() {
    assert!(matches!(Batch::new(0, true), Err(TransferError::EmptyFolder)));
    let mut b = Batch::new(2, false).ok().unwrap();
    assert!(matches!(b.step(false), BatchStep::Send { index: 0 }));
    assert!(matches!(b.step(true), BatchStep::Abort));
    assert!(matches!(b.step(false), BatchStep::Send { index: 1 }));
    assert!(matches!(b.step(false), BatchStep::Done));
    let empty = Batch::new(0, false).ok().unwrap();
    assert_eq!(empty.count, 0);
}

#[test]
fn batch_metadata() {
    let m = FileMeta::for_batch("a".to_string(), 7, 2, 5, Some("d/a".to_string()));
    assert_eq!((m.index, m.total, m.size), (2, 5, 7));
}

#[test]
fn provider_chunk_decoding() {
    assert_eq!(decode_provider_chunk("aGVsbG8=", 5).ok().unwrap(), Some(b"hello".to_vec()));
    assert_eq!(decode_provider_chunk("", 0).ok().unwrap(), None);
    match decode_provider_chunk("@@@", 3) {
        Err(TransferError::Failed { reason }) => assert!(reason.starts_with("Failed to decode base64: ")),
        _ => panic!("expected a decode failure"),
    }
}

#[test]
fn provider_chunk_encoding() {
    assert_eq!(encode_provider_chunk(b"hello"), "aGVsbG8=");
    assert_eq!(encode_provider_chunk(b""), "");
    assert_eq!(encode_provider_chunk(b"hell").len(), 8);
}

#[test]
fn download_dir_choice() {
    assert_eq!(choose_download_dir(Some("/d".to_string()), Some("/h".to_string())), Ok("/d".to_string()));
    assert_eq!(choose_download_dir(None, Some("/h".to_string())), Ok("/h".to_string()));
    assert!(choose_download_dir(None, None).is_err());
}

#[test]
fn counters_saturate_at_the_largest_size() {
    let mut s = SendSession::new(u64::MAX, true);
    s.on_sent(u64::MAX - 1);
    assert!(matches!(s.step(false), SendStep::Read { .. }));
    s.on_sent(10);
    assert_eq!(s.sent, u64::MAX);
    assert!(matches!(s.step(false), SendStep::Finish));
    let mut r = session_for(u64::MAX);
    r.on_frame(u64::MAX, false);
    r.on_frame(1, false);
    assert_eq!(r.bytes_received, u64::MAX);
    assert!(matches!(r.finish(false).outcome, ReceiveOutcome::Completed));
}

#[test]
fn failed_file_ends_the_batch() {
    let mut b = Batch::new(3, false).ok().unwrap();
    assert!(matches!(b.step(false), BatchStep::Send { index: 0 }));
    assert!(b.after_file(Ok(())).is_ok());
    assert!(matches!(b.step(false), BatchStep::Send { index: 1 }));
    let failed = b.after_file(Err(TransferError::Failed { reason: "Failed to send chunk: x".to_string() }));
    match failed {
        Err(e) => assert_eq!(e.message(), "Failed to send chunk: x"),
        Ok(()) => panic!("failure swallowed"),
    }
    assert!(!matches!(b.step(false), BatchStep::Send { .. }));
}
