use exif_sort::datefmt::Timestamp;
use exif_sort::exif::is_hidden;
use exif_sort::exif::matches_file_extensions;
use exif_sort::exif::timestamp_from_exif_line;

#[test]
fn timestamp_read_from_exiftool_line() {
    let t = timestamp_from_exif_line("2023:01:01 10:30:05").unwrap();
    assert_eq!(
        t,
        Timestamp { year: 2023, month: 1, day: 1, hour: 10, minute: 30, second: 5 }
    );
}

#[test]
fn timestamp_line_is_trimmed_before_parsing() {
    let t = timestamp_from_exif_line("  2023:02:02 00:00:00\r\n").unwrap();
    assert_eq!(
        t,
        Timestamp { year: 2023, month: 2, day: 2, hour: 0, minute: 0, second: 0 }
    );
}

#[test]
fn unparsable_lines_yield_no_timestamp() {
    assert!(timestamp_from_exif_line("-").is_none());
    assert!(timestamp_from_exif_line("").is_none());
    assert!(timestamp_from_exif_line("2023:13:01 10:00:00").is_none());
    assert!(timestamp_from_exif_line("2023:01:01").is_none());
    assert!(timestamp_from_exif_line("not a date").is_none());
}

#[test]
fn hidden_names_start_with_a_dot() {
    assert!(is_hidden(".git"));
    assert!(is_hidden("."));
    assert!(!is_hidden("photo.jpg"));
    assert!(!is_hidden(""));
}

#[test]
fn recognized_extensions_match_case_insensitively() {
    assert!(matches_file_extensions("/in/photo.jpg"));
    assert!(matches_file_extensions("photo.JPeG"));
    assert!(matches_file_extensions("clip.mov"));
    assert!(matches_file_extensions("pano.360"));
    assert!(matches_file_extensions("raw.CR2"));
}

#[test]
fn unrecognized_or_missing_extensions_do_not_match() {
    assert!(!matches_file_extensions("notes.txt"));
    assert!(!matches_file_extensions("noextension"));
    assert!(!matches_file_extensions(".hidden"));
    assert!(!matches_file_extensions("photo."));
    assert!(!matches_file_extensions("/dir.d/file"));
}
