use armbian_imager::flash::{blocks_match, classify_write_failure, FlashEvent, FlashFailure, FlashPhase, FlashSession};
use armbian_imager::state::FlashState;

#[test]
fn flash_without_verify_never_verifies() {
    let mut s = FlashSession::idle();
    s.handle(FlashEvent::Start { image_size: 100, verify: false });
    assert_eq!(s.phase, FlashPhase::Unmounting);
    s.handle(FlashEvent::Unmounted);
    assert_eq!(s.phase, FlashPhase::Writing);
    s.handle(FlashEvent::Wrote { len: 100 });
    s.handle(FlashEvent::Written);
    assert_eq!(s.phase, FlashPhase::Syncing);
    s.handle(FlashEvent::Synced);
    assert_eq!(s.phase, FlashPhase::Done);
    assert_eq!(s.written_bytes, 100);
}

#[test]
fn flash_verify_mismatch_fails() {
    let mut s = FlashSession::idle();
    for e in [FlashEvent::Start { image_size: 8, verify: true }, FlashEvent::Unmounted, FlashEvent::Written, FlashEvent::Synced] {
        s.handle(e);
    }
    assert_eq!(s.phase, FlashPhase::Verifying);
    let mut st = FlashState::new();
    st.observe(&s);
    assert!(st.is_verifying);
    assert!(!blocks_match(&[1, 2, 3], &[1, 2, 4]));
    s.handle(FlashEvent::VerifyMismatch);
    assert_eq!(s.phase, FlashPhase::Failed);
    assert_eq!(s.failure, Some(FlashFailure::Mismatch));
    s.handle(FlashEvent::Verified);
    assert_eq!(s.phase, FlashPhase::Failed);
}

#[test]
fn flash_failures_and_cancel() {
    let mut s = FlashSession::idle();
    s.handle(FlashEvent::Start { image_size: 8, verify: true });
    s.handle(FlashEvent::UnmountFailed);
    assert_eq!(s.failure, Some(FlashFailure::Unmount));
    let mut s = FlashSession::idle();
    s.handle(FlashEvent::Start { image_size: 8, verify: false });
    s.handle(FlashEvent::Unmounted);
    s.handle(FlashEvent::WriteFailed { denied: true });
    assert_eq!(s.failure, Some(FlashFailure::Denied));
    let mut s = FlashSession::idle();
    s.handle(FlashEvent::Start { image_size: 8, verify: true });
    s.handle(FlashEvent::Unmounted);
    s.handle(FlashEvent::Cancel);
    assert_eq!(s.phase, FlashPhase::Cancelled);
    assert_eq!(s.failure, None);
}

#[test]
fn write_failure_messages() {
    let (denied, m) = classify_write_failure("Error executing command as another user: Request dismissed");
    assert!(denied);
    assert_eq!(m, "Operation cancelled by user");
    let (denied, m) = classify_write_failure("Not authorized");
    assert!(denied);
    assert_eq!(m, "Operation cancelled by user");
    let (denied, m) = classify_write_failure("dd: error writing: No space left");
    assert!(!denied);
    assert_eq!(m, "Flash failed: dd: error writing: No space left");
    assert!(blocks_match(&[7, 8], &[7, 8]));
    assert!(!blocks_match(&[7, 8], &[7]));
}

#[test]
fn flash_state_reset() {
    let mut st = FlashState::new();
    st.written_bytes = 5;
    st.is_cancelled = true;
    st.reset();
    assert_eq!(st.written_bytes, 0);
    assert!(!st.is_cancelled);
}
