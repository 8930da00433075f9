use armbian_imager::format::{format_size, normalize_lowered, normalize_slug};
use armbian_imager::path::strip_compression_ext;

#[test]
fn test_format_size() {
    assert_eq!(format_size(0), "0 B");
    assert_eq!(format_size(512), "512 B");
    assert_eq!(format_size(1024), "1 KB");
    assert_eq!(format_size(1536), "2 KB");
    assert_eq!(format_size(1048576), "1 MB");
    assert_eq!(format_size(1073741824), "1.0 GB");
    assert_eq!(format_size(1610612736), "1.5 GB");
}

#[test]
fn test_normalize_slug() {
    assert_eq!(normalize_slug("Orange-Pi-5"), "orange-pi-5");
    assert_eq!(normalize_slug("rock__pi__4"), "rock-pi-4");
    assert_eq!(normalize_slug("Banana PI M5"), "banana-pi-m5");
}

#[test]
fn test_strip_compression_ext() {
    assert_eq!(strip_compression_ext("image.img.xz"), "image.img");
    assert_eq!(strip_compression_ext("image.img.gz"), "image.img");
    assert_eq!(strip_compression_ext("image.img.bz2"), "image.img");
    assert_eq!(strip_compression_ext("image.img.zst"), "image.img");
    assert_eq!(strip_compression_ext("image.img"), "image.img");
    assert_eq!(strip_compression_ext("no-extension"), "no-extension");
}

#[test]
fn format_size_rounds_ties_to_even() {
    assert_eq!(format_size(2560), "2 KB");
    assert_eq!(format_size(3584), "4 KB");
    assert_eq!(format_size(1023), "1023 B");
    assert_eq!(format_size(1048575), "1024 KB");
}

#[test]
fn format_size_terabytes_and_largest() {
    assert_eq!(format_size(1099511627776), "1.0 TB");
    assert_eq!(format_size(1649267441664), "1.5 TB");
    assert_eq!(format_size(u64::MAX), "16777216.0 TB");
    assert_eq!(format_size(268435456), "256 MB");
}

#[test]
fn normalize_slug_collapses_any_separator_run() {
    assert_eq!(normalize_slug("--Rock 5B__(Plus)--"), "rock-5b-plus");
    assert_eq!(normalize_slug(""), "");
    assert_eq!(normalize_slug("___"), "");
    assert_eq!(normalize_slug("NanoPi-R6S"), "nanopi-r6s");
    let s = normalize_slug("a..b  c//d");
    assert_eq!(s, "a-b-c-d");
    assert!(!s.contains("--") && !s.starts_with('-') && !s.ends_with('-'));
}

#[test]
fn normalize_lowered_keeps_case_it_is_given() {
    assert_eq!(normalize_lowered("ab__CD"), "ab-CD");
}

#[test]
fn strip_compression_ext_strips_only_one() {
    assert_eq!(strip_compression_ext("a.img.xz.gz"), "a.img.xz");
    assert_eq!(strip_compression_ext(".xz"), "");
    assert_eq!(strip_compression_ext("a.XZ"), "a.XZ");
}
