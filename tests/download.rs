use armbian_imager::digest::Sha256Stream;
use armbian_imager::download::{
    check_sha_token, compare_digests, extract_filename, is_github_url, parse_sha_file,
    plan_download, verify_method, DownloadEvent, DownloadPhase, DownloadSession, DownloadStep,
    VerifyMethod,
};
use armbian_imager::state::DownloadState;

const ABC_SHA: &str = "ba7816bf8f01cfea414140de5dae2223b00361a396177a9cb410ff61f20015ad";

#[test]
fn extract_filename_takes_last_segment_before_query() {
    assert_eq!(extract_filename("https://dl.example.org/a/b/Image.img.xz?x=1/2").unwrap(), "Image.img.xz");
    assert_eq!(extract_filename("file.img").unwrap(), "file.img");
    assert_eq!(extract_filename("https://dl.example.org/a/").unwrap_err(), "Invalid URL: no filename");
    assert!(extract_filename("").is_err());
    assert!(extract_filename("https://h/a/?q").is_err());
}

#[test]
fn release_host_and_verify_method() {
    assert!(is_github_url("https://github.com/armbian/os/releases/download/x.img.xz"));
    assert!(!is_github_url("https://dl.armbian.com/x.img.xz"));
    assert_eq!(verify_method("https://github.com/a", false), VerifyMethod::ReleaseMetadata);
    assert_eq!(verify_method("https://github.com/a", true), VerifyMethod::ReleaseMetadata);
    assert_eq!(verify_method("https://dl.x/a", true), VerifyMethod::Sidecar);
    assert_eq!(verify_method("https://dl.x/a", false), VerifyMethod::Unverified);
}

#[test]
fn sidecar_digest_parsing() {
    let upper = ABC_SHA.to_uppercase();
    let body = format!("  {} *Image.img.xz\n", upper);
    assert_eq!(parse_sha_file(&body).unwrap(), ABC_SHA);
    assert_eq!(parse_sha_file(" \n\t").unwrap_err(), "Invalid SHA file format");
    assert_eq!(parse_sha_file("abc123 file").unwrap_err(), "Invalid SHA256 hash format: abc123");
    let bad = format!("{}g", &ABC_SHA[..63]);
    assert!(check_sha_token(&bad).is_err());
    assert_eq!(check_sha_token(ABC_SHA).unwrap(), ABC_SHA);
}

#[test]
fn digest_of_known_content_verifies() {
    let mut h = Sha256Stream::new();
    h.update(b"a");
    h.update(b"bc");
    let actual = h.finish_hex();
    assert_eq!(actual, ABC_SHA);
    assert_eq!(compare_digests(ABC_SHA, &actual), Ok(()));
}

#[test]
fn digest_detects_single_bit_corruption() {
    let data = b"an image payload of some length".to_vec();
    let mut h = Sha256Stream::new();
    h.update(&data);
    let expected = h.finish_hex();
    for bit in 0..8 {
        let mut bad = data.clone();
        bad[5] ^= 1 << bit;
        let mut h2 = Sha256Stream::new();
        h2.update(&bad);
        let actual = h2.finish_hex();
        let err = compare_digests(&expected, &actual).unwrap_err();
        assert_eq!(err, format!("SHA256 mismatch: expected {}, got {}", expected, actual));
    }
}

#[test]
fn plan_download_names() {
    let p = plan_download("https://dl.x/Board.img.xz", true, false).unwrap();
    assert_eq!(p.filename, "Board.img.xz");
    assert_eq!(p.output_name, "Board.img");
    assert_eq!(p.temp_name, "Board.img.xz.downloading");
    assert!(p.decompress);
    assert_eq!(p.verify, VerifyMethod::Sidecar);
    let raw = plan_download("https://dl.x/Board.img.xz", false, true).unwrap();
    assert_eq!(raw.output_name, "Board.img.xz");
    assert!(!raw.decompress);
    assert_eq!(raw.verify, VerifyMethod::Unverified);
    let plain = plan_download("https://github.com/o/r/Board.img", false, false).unwrap();
    assert!(!plain.decompress);
    assert_eq!(plain.output_name, "Board.img");
    assert!(plan_download("https://dl.x/", false, false).is_err());
}

fn session(verify: bool, decompress: bool) -> DownloadSession {
    let url = if verify { "https://dl.x/B.img.xz" } else { "https://dl.x/B.img" };
    let plan = plan_download(url, verify, !decompress).unwrap();
    DownloadSession::start(&plan)
}

#[test]
fn cached_download_sends_no_request() {
    let mut s = session(true, true);
    assert_eq!(s.handle(DownloadEvent::CacheHit), DownloadStep::ReturnCached);
    assert_eq!(s.phase, DownloadPhase::Done);
    assert!(!s.requested);
    assert_eq!(s.handle(DownloadEvent::CacheMiss), DownloadStep::Ignore);
    assert!(!s.requested);
}

#[test]
fn full_download_with_verification_and_decompression() {
    let mut s = session(true, true);
    assert_eq!(s.handle(DownloadEvent::CacheMiss), DownloadStep::SendRequest);
    assert!(s.requested);
    assert_eq!(s.handle(DownloadEvent::ResponseOk { content_length: 10 }), DownloadStep::ReceiveBody);
    assert_eq!(s.handle(DownloadEvent::Chunk { len: 4 }), DownloadStep::Continue);
    assert_eq!(s.handle(DownloadEvent::Chunk { len: 6 }), DownloadStep::Continue);
    assert_eq!(s.received_bytes, 10);
    assert_eq!(s.handle(DownloadEvent::StreamEnded), DownloadStep::VerifyDigest);
    let mut st = DownloadState::new();
    st.observe(&s);
    assert!(st.is_verifying_sha && !st.is_decompressing);
    assert_eq!(st.downloaded_bytes, 10);
    assert_eq!(s.handle(DownloadEvent::Verified), DownloadStep::Decompress);
    st.observe(&s);
    assert!(!st.is_verifying_sha && st.is_decompressing);
    assert_eq!(s.handle(DownloadEvent::Decompressed), DownloadStep::Finish { remove_temp: true });
    assert_eq!(s.phase, DownloadPhase::Done);
}

#[test]
fn unverified_download_moves_temp() {
    let mut s = session(false, false);
    s.handle(DownloadEvent::CacheMiss);
    s.handle(DownloadEvent::ResponseOk { content_length: 0 });
    assert_eq!(s.handle(DownloadEvent::StreamEnded), DownloadStep::MoveTemp);
    assert_eq!(s.handle(DownloadEvent::Moved), DownloadStep::Finish { remove_temp: false });
    assert!(s.output_exists && !s.temp_exists);
}

#[test]
fn cancel_at_every_stage_leaves_no_files() {
    let stages: Vec<Vec<DownloadEvent>> = vec![
        vec![],
        vec![DownloadEvent::CacheMiss],
        vec![DownloadEvent::CacheMiss, DownloadEvent::ResponseOk { content_length: 5 }],
        vec![DownloadEvent::CacheMiss, DownloadEvent::ResponseOk { content_length: 5 }, DownloadEvent::Chunk { len: 5 }, DownloadEvent::StreamEnded],
        vec![DownloadEvent::CacheMiss, DownloadEvent::ResponseOk { content_length: 5 }, DownloadEvent::StreamEnded, DownloadEvent::Verified],
    ];
    for events in stages {
        let mut s = session(true, true);
        for e in events {
            s.handle(e);
        }
        let had_temp = s.temp_exists;
        let had_output = s.output_exists;
        let step = s.handle(DownloadEvent::Cancel);
        assert_eq!(step, DownloadStep::Stop { remove_temp: had_temp, remove_output: had_output });
        assert_eq!(s.phase, DownloadPhase::Cancelled);
        assert!(!s.temp_exists && !s.output_exists);
        assert_eq!(s.handle(DownloadEvent::Cancel), DownloadStep::Ignore);
    }
}

#[test]
fn cancel_during_decompression_removes_temp_and_output() {
    let mut s = session(true, true);
    for e in [DownloadEvent::CacheMiss, DownloadEvent::ResponseOk { content_length: 5 }, DownloadEvent::StreamEnded, DownloadEvent::Verified] {
        s.handle(e);
    }
    assert_eq!(s.handle(DownloadEvent::Cancel), DownloadStep::Stop { remove_temp: true, remove_output: true });
    let mut local = DownloadSession::local_decompress(42);
    assert_eq!(local.total_bytes, 42);
    assert_eq!(local.handle(DownloadEvent::Cancel), DownloadStep::Stop { remove_temp: false, remove_output: true });
}

#[test]
fn failures_keep_or_remove_temp() {
    let mut s = session(true, true);
    s.handle(DownloadEvent::CacheMiss);
    assert_eq!(s.handle(DownloadEvent::ResponseFailed), DownloadStep::Fail { remove_temp: false });
    let mut s = session(true, true);
    s.handle(DownloadEvent::CacheMiss);
    s.handle(DownloadEvent::ResponseOk { content_length: 1 });
    assert_eq!(s.handle(DownloadEvent::StreamFailed), DownloadStep::Fail { remove_temp: false });
    assert!(s.temp_exists);
    let mut s = session(true, true);
    s.handle(DownloadEvent::CacheMiss);
    s.handle(DownloadEvent::ResponseOk { content_length: 1 });
    s.handle(DownloadEvent::StreamEnded);
    assert_eq!(s.handle(DownloadEvent::VerifyFailed), DownloadStep::Fail { remove_temp: true });
    assert!(!s.temp_exists);
}

#[test]
fn download_state_reset_and_cancel_flag() {
    let mut st = DownloadState::new();
    st.total_bytes = 9;
    st.is_cancelled = true;
    st.output_path = Some("x".to_string());
    st.reset();
    assert_eq!(st.total_bytes, 0);
    assert!(!st.is_cancelled);
    assert_eq!(st.output_path.as_deref(), Some("x"));
}
