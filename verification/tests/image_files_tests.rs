use sync_image::image_files::{
    format_upload_filename, parse_upload_filename, select_latest_image, upload_time_rfc3339,
    DirEntryInfo, UploadTime,
};

fn entry(name: &str, is_file: bool) -> DirEntryInfo {
    DirEntryInfo { file_name: name.to_string(), is_file }
}

#[test]
fn timestamped_filenames_sort_by_time() {
    let early = parse_upload_filename("20260623_010203_004.png").expect("early");
    let late = parse_upload_filename("20260623_010203_104.png").expect("late");

    assert!(early < late);
    assert!("20260623_010203_004.png" < "20260623_010203_104.png");
}

#[test]
fn rejects_non_timestamped_png() {
    assert!(parse_upload_filename("latest.png").is_none());
    assert!(parse_upload_filename("20260623_010203.png").is_none());
    assert!(parse_upload_filename("20260623_010203_004.jpg").is_none());
}

#[test]
fn finds_latest_image_by_filename() {
    let entries = vec![
        entry("20260623_010203_004.png", true),
        entry("not-an-image.png", true),
        entry("20260623_010203_104.png", true),
    ];

    let selected = select_latest_image("/tmp/root/alice", &entries).expect("latest image");

    assert_eq!(selected.file_name, "20260623_010203_104.png");
    assert_eq!(selected.path, "/tmp/root/alice/20260623_010203_104.png");
}

#[test]
fn ignores_directories_and_empty_listing() {
    assert!(select_latest_image("/d", &Vec::new()).is_none());
    let entries = vec![entry("20990101_000000_000.png", false), entry("20260623_010203_004.png", true)];
    let selected = select_latest_image("/d", &entries).expect("file");
    assert_eq!(selected.file_name, "20260623_010203_004.png");
}

#[test]
fn formats_upload_time_as_filename() {
    let t = UploadTime::new(2026, 6, 23, 1, 2, 3, 104_000_000).expect("time");
    assert_eq!(format_upload_filename(t), "20260623_010203_104.png");
    assert_eq!(parse_upload_filename("20260623_010203_104.png"), Some(t));
}

#[test]
fn leap_second_round_trips() {
    let t = UploadTime::new(2016, 12, 31, 23, 59, 59, 1_500_000_000).expect("leap second");
    let name = format_upload_filename(t);
    assert_eq!(name, "20161231_235960_500.png");
    assert_eq!(parse_upload_filename(&name), Some(t));
}

#[test]
fn rejects_impossible_dates() {
    assert!(UploadTime::new(2025, 2, 29, 0, 0, 0, 0).is_none());
    assert!(UploadTime::new(2024, 2, 29, 0, 0, 0, 0).is_some());
    assert!(UploadTime::new(2024, 1, 1, 0, 0, 58, 1_000_000_000).is_none());
    assert!(parse_upload_filename("20250229_000000_000.png").is_none());
    assert!(parse_upload_filename("20250101_240000_000.png").is_none());
}

#[test]
fn years_outside_four_digits_carry_a_sign() {
    let far = UploadTime::new(10000, 1, 2, 3, 4, 5, 6_000_000).unwrap();
    assert_eq!(format_upload_filename(far), "+100000102_030405_006.png");
    assert_eq!(upload_time_rfc3339(far), "+10000-01-02T03:04:05.006+00:00");
    let before = UploadTime::new(-1, 12, 31, 23, 59, 59, 0).unwrap();
    assert_eq!(format_upload_filename(before), "-00011231_235959_000.png");
    assert_eq!(upload_time_rfc3339(before), "-0001-12-31T23:59:59+00:00");
    let early = UploadTime::new(-12345, 1, 1, 0, 0, 0, 0).unwrap();
    assert_eq!(format_upload_filename(early), "-123450101_000000_000.png");
}

#[test]
fn names_that_cannot_be_upload_times() {
    assert!(parse_upload_filename("latest.png").is_none());
    assert!(parse_upload_filename("20260623_010203.png").is_none());
    assert!(parse_upload_filename("x20260623_010203_004.png").is_none());
}
