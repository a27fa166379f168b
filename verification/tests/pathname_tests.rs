use exif_sort::pathname::basename;
use exif_sort::pathname::contains_string;
use exif_sort::pathname::join;
use exif_sort::pathname::last_sep_index;
use exif_sort::pathname::str_eq;
use exif_sort::pathname::trim;

#[test]
fn str_eq_matches_equal_strings() {
    assert!(str_eq("abc", "abc"));
    assert!(str_eq("", ""));
    assert!(!str_eq("abc", "abd"));
    assert!(!str_eq("abc", "ab"));
}

#[test]
fn contains_string_finds_member() {
    let v = vec!["/out/a.jpg".to_string(), "/out/b.jpg".to_string()];
    assert!(contains_string(&v, "/out/b.jpg"));
    assert!(!contains_string(&v, "/out/c.jpg"));
    let empty: Vec<String> = vec![];
    assert!(!contains_string(&empty, "/out/a.jpg"));
}

#[test]
fn basename_takes_final_component() {
    assert_eq!(basename("/in/photos/c.jpg"), "c.jpg");
    assert_eq!(basename("plain.jpg"), "plain.jpg");
    assert_eq!(basename("/in/dir/"), "");
    assert_eq!(basename(""), "");
}

#[test]
fn join_inserts_single_separator() {
    assert_eq!(join("/out", "x.jpg"), "/out/x.jpg");
    assert_eq!(join("/out/", "x.jpg"), "/out/x.jpg");
    assert_eq!(join("", "x.jpg"), "x.jpg");
    assert_eq!(join("/out", "2023/01/01"), "/out/2023/01/01");
}

#[test]
fn trim_strips_surrounding_whitespace() {
    assert_eq!(trim("  2023:01:01 10:00:00 \r\n"), "2023:01:01 10:00:00");
    assert_eq!(trim("x"), "x");
    assert_eq!(trim("   "), "");
    assert_eq!(trim(""), "");
}

#[test]
fn last_sep_index_points_after_last_separator() {
    assert_eq!(last_sep_index("a/b/c", '/'), 4);
    assert_eq!(last_sep_index("abc", '/'), 0);
    assert_eq!(last_sep_index("a.b.c", '.'), 4);
    assert_eq!(last_sep_index(".x", '.'), 1);
}
