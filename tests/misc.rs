use armbian_imager::decompress::{
    check_needs_decompression, codec_for_name, custom_codec, custom_output_name, needs_decompression, Codec,
};
use armbian_imager::progress::ProgressTracker;
use armbian_imager::system::{github_release_url, parse_armbian_release, save_dialog_plan};

#[test]
fn decompression_needed_by_extension() {
    assert!(needs_decompression("/a/b/image.img.xz"));
    assert!(needs_decompression("image.IMG.GZ"));
    assert!(needs_decompression("x.Bz2"));
    assert!(needs_decompression("x.zst"));
    assert!(!needs_decompression("image.img"));
    assert!(!needs_decompression(".xz"));
    assert!(!needs_decompression("dir.xz/file"));
    assert!(!needs_decompression("noext"));
    assert_eq!(check_needs_decompression("a.xz"), Ok(true));
}

#[test]
fn codec_dispatch_and_output_names() {
    assert_eq!(codec_for_name("a.img.xz"), Some(Codec::Xz));
    assert_eq!(codec_for_name("a.img.gz"), Some(Codec::Gz));
    assert_eq!(codec_for_name("a.img.bz2"), Some(Codec::Bz2));
    assert_eq!(codec_for_name("a.img.zst"), Some(Codec::Zst));
    assert_eq!(codec_for_name("a.img.XZ"), None);
    assert_eq!(custom_codec("a.img").unwrap_err(), "Unsupported compression format for: a.img");
    assert_eq!(custom_output_name("Image.img.xz", 1700000000123), "Image.img-1700000000123");
    assert_eq!(custom_output_name("a.img.zst.xz.xz", 0), "a.img-0");
    assert_eq!(custom_output_name("plain", 5), "plain-5");
}

#[test]
fn progress_reports_on_interval_crossings() {
    let mut t = ProgressTracker::new("Download", "download", 4 * 1048576, 1, 1000);
    assert!(t.update(524288, 1100).is_none());
    let u = t.update(524288, 1500).unwrap();
    assert_eq!(u.current_bytes, 1048576);
    assert_eq!(u.percent, 25);
    assert_eq!(u.speed_bytes_per_sec, 2097152);
    assert!(t.update(10, 1600).is_none());
    let u = t.update(2 * 1048576, 1500).unwrap();
    assert_eq!(u.speed_bytes_per_sec, 0);
    let sum = t.finish(3000);
    assert_eq!(sum.total_bytes, 3 * 1048576 + 10);
    assert_eq!(sum.elapsed_ms, 2000);
    assert_eq!(sum.avg_bytes_per_sec, (3 * 1048576 + 10) / 2);
    let mut unknown = ProgressTracker::new("Flash", "flash", 0, 1, 0);
    assert_eq!(unknown.update(1048576, 0).unwrap().percent, 0);
    let mut silent = ProgressTracker::new("x", "y", 10, 0, 0);
    assert!(silent.update(100, 5).is_none());
}

#[test]
fn release_file_parsing() {
    let text = "# comment\nBOARD=rock-5b\r\nBOARD_NAME=\"Rock 5B\"\nVERSION=25.2\n  BOARD = 'orangepi5' \n";
    let info = parse_armbian_release(text).unwrap();
    assert_eq!(info.board, "orangepi5");
    assert_eq!(info.board_name, "Rock 5B");
    assert!(parse_armbian_release("BOARD_NAME=x\n").is_none());
    assert!(parse_armbian_release("BOARD=\"\"\n").is_none());
    assert!(parse_armbian_release("").is_none());
}

#[test]
fn release_urls() {
    let base = "https://api.github.com/repos/armbian/imager/releases/tags/";
    assert_eq!(github_release_url(" 1.2.0 ").unwrap(), format!("{}v1.2.0", base));
    assert_eq!(github_release_url("v1.2.0").unwrap(), format!("{}v1.2.0", base));
    assert_eq!(github_release_url("  ").unwrap_err(), "Version cannot be empty");
}

#[test]
fn save_dialog_options() {
    let p = save_dialog_plan("Image.img.xz", true);
    assert_eq!(p.filename, "Image.img");
    assert_eq!(p.extensions, vec!["img", "iso", "raw"]);
    let p = save_dialog_plan("Image.img.xz", false);
    assert_eq!(p.filename, "Image.img.xz");
    assert_eq!(p.extensions, vec!["xz", "img", "iso", "raw"]);
}
