use armbian_imager::custom::{board_slug_from_filename, custom_image_info, find_board};
use armbian_imager::digest_table::{clear_digest_cache, digest_for_file, digests_from_assets, DigestCache};
use armbian_imager::images::{
    accept_image, filter_images_for_board, get_unique_boards, is_valid_image_extension,
    valid_lowered_extension, ArmbianImage, EMPTY_FILTER, STABLE_REPO,
};

fn s(x: &str) -> Option<String> {
    Some(x.to_string())
}

fn image(slug: &str, name: Option<&str>, version: &str, promoted: bool, kernel: &str) -> ArmbianImage {
    ArmbianImage {
        board_slug: s(slug),
        board_name: name.map(|n| n.to_string()),
        armbian_version: s(version),
        distro_release: s("bookworm"),
        kernel_branch: s(kernel),
        image_variant: s("minimal"),
        preinstalled_application: None,
        promoted: if promoted { s("true") } else { s("false") },
        file_url: s(&format!("https://dl.x/{}-{}.img.xz", slug, version)),
        file_url_sha: None,
        file_extension: s("img.xz"),
        file_size: s("1234"),
        download_repository: s(STABLE_REPO),
        redi_url: None,
    }
}

#[test]
fn image_extensions() {
    assert!(is_valid_image_extension("img.xz"));
    assert!(is_valid_image_extension("IMG.XZ"));
    assert!(!is_valid_image_extension("img.xz.asc"));
    assert!(!is_valid_image_extension("img.xz.torrent"));
    assert!(!is_valid_image_extension("img.xz.sha"));
    assert!(!is_valid_image_extension("qcow2"));
    assert!(!valid_lowered_extension("IMG.xz"));
    let mut img = image("rock-5b", None, "25.2", false, "vendor");
    assert!(accept_image(&img));
    img.kernel_branch = s("cloud");
    assert!(!accept_image(&img));
    img.kernel_branch = None;
    img.file_extension = None;
    assert!(!accept_image(&img));
}

#[test]
fn unique_boards_group_count_and_sort() {
    let images = vec![
        image("Rock-5B", Some("Rock 5B"), "25.2", false, "vendor"),
        image("orange_pi_5", None, "25.2", false, "vendor"),
        image("rock-5b", Some("Other"), "25.5", true, "current"),
        ArmbianImage { board_slug: None, ..image("x", None, "1", true, "current") },
        image("banana-pi", Some("banana Pi"), "24.1", false, "edge"),
    ];
    let boards = get_unique_boards(&images);
    assert_eq!(boards.len(), 3);
    assert_eq!(boards[0].name, "banana Pi");
    assert_eq!(boards[1].name, "orange_pi_5");
    assert_eq!(boards[1].slug, "orange-pi-5");
    assert_eq!(boards[2].slug, "rock-5b");
    assert_eq!(boards[2].name, "Rock 5B");
    assert_eq!(boards[2].image_count, 2);
    assert!(boards[2].has_promoted);
    assert!(!boards[0].has_promoted);
    assert!(get_unique_boards(&[]).is_empty());
}

#[test]
fn board_images_filtered_and_ordered() {
    let mut dev = image("rock-5b", None, "26.0", false, "edge");
    dev.download_repository = s("nightly");
    let mut app = image("rock-5b", None, "25.1", false, "current");
    app.preinstalled_application = s("openhab");
    let images = vec![
        image("rock-5b", None, "25.2", false, "vendor"),
        image("Rock_5B", None, "25.8", false, "current"),
        image("rock-5b", None, "24.5", true, "vendor"),
        image("orangepi5", None, "25.9", true, "vendor"),
        dev,
        app,
    ];
    let all = filter_images_for_board(&images, "ROCK 5b", None, None, None, false);
    let versions: Vec<&str> = all.iter().map(|i| i.armbian_version.as_str()).collect();
    assert_eq!(versions, vec!["24.5", "26.0", "25.8", "25.2", "25.1"]);
    assert!(all[0].promoted);
    assert_eq!(all[0].file_size, 1234);
    let stable = filter_images_for_board(&images, "rock-5b", Some(EMPTY_FILTER), None, None, true);
    let versions: Vec<&str> = stable.iter().map(|i| i.armbian_version.as_str()).collect();
    assert_eq!(versions, vec!["24.5", "25.8", "25.2"]);
    let vendor = filter_images_for_board(&images, "rock-5b", None, Some("vendor"), Some("minimal"), false);
    assert_eq!(vendor.len(), 2);
    let apps = filter_images_for_board(&images, "rock-5b", Some("openhab"), None, None, false);
    assert_eq!(apps.len(), 1);
    assert_eq!(apps[0].preinstalled_application, "openhab");
}

#[test]
fn file_size_parsing_in_listing() {
    let mut a = image("b", None, "1", false, "x");
    a.file_size = s("+42");
    let mut b = image("b", None, "1", false, "x");
    b.file_size = s("18446744073709551616");
    let mut c = image("b", None, "1", false, "x");
    c.file_size = s("-1");
    let list = filter_images_for_board(&[a, b, c], "b", None, None, None, false);
    assert_eq!(list[0].file_size, 42);
    assert_eq!(list[1].file_size, 0);
    assert_eq!(list[2].file_size, 0);
}

#[test]
fn board_from_image_filename() {
    assert_eq!(
        board_slug_from_filename("/home/u/Armbian_25.2.1_Orange-Pi-5_bookworm_vendor_6.1.99_minimal.img.xz").unwrap(),
        Some("orange-pi-5".to_string())
    );
    assert_eq!(board_slug_from_filename("armbian_1_Rock-5B_x.img").unwrap(), Some("rock-5b".to_string()));
    assert_eq!(board_slug_from_filename("Debian_1_rock_x.img").unwrap(), None);
    assert_eq!(board_slug_from_filename("Armbian_1_rock.img").unwrap(), None);
    assert_eq!(board_slug_from_filename("dir/").unwrap_err(), "Invalid filename");
    let boards = get_unique_boards(&[image("orange-pi-5", Some("Orange Pi 5"), "1", false, "x")]);
    let found = find_board(&boards, "orange-pi-5").unwrap();
    assert_eq!(found.name, "Orange Pi 5");
    assert!(find_board(&boards, "rock-5b").is_none());
}

#[test]
fn picked_file_record() {
    let info = custom_image_info("/tmp/images/x.img", 7);
    assert_eq!(info.name, "x.img");
    assert_eq!(info.path, "/tmp/images/x.img");
    assert_eq!(info.size, 7);
    assert_eq!(custom_image_info("/tmp/", 0).name, "unknown");
}

#[test]
fn digest_table_lookup_and_cache() {
    let h1 = "A".repeat(64);
    let h2 = "b".repeat(64);
    let assets = vec![
        (s("one.img.xz"), s(&format!("sha256:{}", h1))),
        (s("two.img.xz"), s(&h2)),
        (s("bad.img.xz"), s("sha256:1234")),
        (None, s(&h2)),
        (s("nodigest.img.xz"), None),
        (s("one.img.xz"), s(&format!("sha256:{}", h2))),
    ];
    let table = digests_from_assets(&assets);
    assert_eq!(table.len(), 3);
    assert_eq!(digest_for_file(&table, "one.img.xz"), Some(h2.clone()));
    assert_eq!(digest_for_file(&table, "two.img.xz"), Some(h2.clone()));
    assert_eq!(digest_for_file(&table, "dir/two.img.xz"), Some(h2.clone()));
    assert_eq!(digest_for_file(&table, "bad.img.xz"), None);
    let mut cache = DigestCache::new();
    assert_eq!(cache.digest_for_file("two.img.xz"), None);
    cache.populate(table);
    assert!(cache.is_populated());
    cache.populate(Vec::new());
    assert_eq!(cache.digest_for_file("two.img.xz"), Some(h2));
    clear_digest_cache(&mut cache);
    assert!(!cache.is_populated());
    let upper = digests_from_assets(&vec![(s("u"), s(&h1))]);
    assert_eq!(upper[0].hash, "a".repeat(64));
}
