use std::rc::Rc;

use sazparser::files::{get_file_from_list, SazFile};
use sazparser::index::{get_sessions_total, sequence_number_of};

fn file(path: &str) -> SazFile {
    SazFile::new(&path.to_string(), 0, Rc::new(String::new()))
}

fn files(paths: &[&str]) -> Vec<SazFile> {
    paths.iter().map(|path| file(path)).collect()
}

#[test]
fn two_sessions_of_width_three() {
    let list = files(&["raw/001_c.txt", "raw/001_s.txt", "raw/002_c.txt", "raw/002_s.txt"]);
    assert_eq!(get_sessions_total(&list), (2, 3));
}

#[test]
fn no_file_no_session() {
    assert_eq!(get_sessions_total(&[]), (0, 0));
}

#[test]
fn no_matching_path_no_session() {
    let list = files(&["_index.htm", "[Content_Types].xml", "readme.txt", "a_b/12"]);
    assert_eq!(get_sessions_total(&list), (0, 0));
}

#[test]
fn paths_without_a_number_are_passed_over() {
    let list = files(&[
        "_index.htm",
        "raw/01_c.txt",
        "raw/sub/09_c.txt",
        "raw/notes_c.txt",
        "raw/+7_c.txt",
        "raw/_c.txt",
        "raw/01_s.txt",
        "[Content_Types].xml",
    ]);
    assert_eq!(get_sessions_total(&list), (1, 2));
}

#[test]
fn greatest_number_counts_whatever_the_order() {
    let list = files(&["raw/12_c.txt", "raw/03_c.txt", "raw/07_s.txt", "raw/01_c.txt"]);
    assert_eq!(get_sessions_total(&list), (12, 2));
}

#[test]
fn width_is_that_of_the_greatest_number() {
    let list = files(&["raw/0010_c.txt", "raw/3_c.txt", "raw/004_s.txt"]);
    assert_eq!(get_sessions_total(&list), (10, 4));
}

#[test]
fn last_path_with_the_greatest_number_gives_the_width() {
    let list = files(&["raw/5_c.txt", "raw/005_s.txt", "raw/04_c.txt"]);
    assert_eq!(get_sessions_total(&list), (5, 3));
    let list = files(&["raw/005_c.txt", "raw/5_s.txt", "raw/0004_c.txt"]);
    assert_eq!(get_sessions_total(&list), (5, 1));
}

#[test]
fn number_zero_gives_a_width_and_no_session() {
    let list = files(&["raw/000_c.txt"]);
    assert_eq!(get_sessions_total(&list), (0, 3));
}

#[test]
fn number_too_great_is_passed_over() {
    let list = files(&["raw/4294967296_c.txt", "raw/2_c.txt", "raw/4294967295_s.txt"]);
    assert_eq!(get_sessions_total(&list), (u32::MAX, 10));
    let list = files(&["raw/99999999999_c.txt"]);
    assert_eq!(get_sessions_total(&list), (0, 0));
}

#[test]
fn sequence_number_of_a_path() {
    assert_eq!(sequence_number_of("raw/001_c.txt"), Some((1, 3)));
    assert_eq!(sequence_number_of("raw/42_s.txt"), Some((42, 2)));
    assert_eq!(sequence_number_of("other/0012_m.xml"), Some((12, 4)));
    assert_eq!(sequence_number_of("/3_c.txt"), Some((3, 1)));
}

#[test]
fn sequence_number_absent() {
    assert_eq!(sequence_number_of(""), None);
    assert_eq!(sequence_number_of("001_c.txt"), None);
    assert_eq!(sequence_number_of("raw/"), None);
    assert_eq!(sequence_number_of("raw"), None);
    assert_eq!(sequence_number_of("raw_1/2_c.txt"), None);
    assert_eq!(sequence_number_of("raw/x1_c.txt"), None);
    assert_eq!(sequence_number_of("raw/sub/001_c.txt"), None);
    assert_eq!(sequence_number_of("raw/1 _c.txt"), None);
}

#[test]
fn number_without_underscore_is_passed_over() {
    assert_eq!(sequence_number_of("raw/7"), None);
    assert_eq!(sequence_number_of("raw/12"), None);
    assert_eq!(sequence_number_of("raw/12.txt"), None);
    assert_eq!(sequence_number_of("/12"), None);
    assert_eq!(get_sessions_total(&files(&["raw/12"])), (0, 0));
    assert_eq!(get_sessions_total(&files(&["raw/12", "raw/3_c.txt", "raw/3_s.txt"])), (3, 1));
}

#[test]
fn number_that_a_slash_ends_is_passed_over() {
    assert_eq!(sequence_number_of("raw/7/x_c.txt"), None);
    assert_eq!(sequence_number_of("raw/7/8_c.txt"), None);
    assert_eq!(sequence_number_of("raw/7/"), None);
    assert_eq!(get_sessions_total(&files(&["raw/7/x_c.txt"])), (0, 0));
    assert_eq!(get_sessions_total(&files(&["raw/7/x_c.txt", "raw/02_c.txt"])), (2, 2));
}

#[test]
fn total_is_written_in_one_of_the_paths() {
    let paths = ["_index.htm", "raw/12", "raw/007_c.txt", "raw/9/x_c.txt", "raw/007_s.txt", "raw/03_c.txt"];
    let (total, width) = get_sessions_total(&files(&paths));
    assert_eq!((total, width), (7, 3));
    let written = format!("/{:0fill$}_", total, fill = width);
    assert!(paths.iter().any(|path| path.contains(&written)));
}

#[test]
fn file_found_by_exact_path() {
    let list = vec![
        SazFile::new(&"raw/1_c.txt".to_string(), 3, Rc::new("one".to_string())),
        SazFile::new(&"raw/1_s.txt".to_string(), 3, Rc::new("two".to_string())),
    ];
    let found = get_file_from_list(&list, "raw/1_s.txt").unwrap();
    assert_eq!(found.path, "raw/1_s.txt");
    assert_eq!(found.size, 3);
    assert_eq!(*found.contents, "two");
}

#[test]
fn file_not_found() {
    let list = files(&["raw/1_c.txt", "raw/1_s.txt"]);
    assert!(get_file_from_list(&list, "raw/2_c.txt").is_none());
    assert!(get_file_from_list(&list, "raw/1_c.tx").is_none());
    assert!(get_file_from_list(&list, "RAW/1_c.txt").is_none());
    assert!(get_file_from_list(&[], "raw/1_c.txt").is_none());
}

#[test]
fn first_of_two_files_with_one_path() {
    let list = vec![
        SazFile::new(&"raw/1_c.txt".to_string(), 1, Rc::new("first".to_string())),
        SazFile::new(&"raw/1_c.txt".to_string(), 2, Rc::new("second".to_string())),
    ];
    let found = get_file_from_list(&list, "raw/1_c.txt").unwrap();
    assert_eq!(found.size, 1);
    assert_eq!(*found.contents, "first");
}

#[test]
fn new_file_keeps_its_fields() {
    let contents = Rc::new("text".to_string());
    let made = SazFile::new(&"raw/9_c.txt".to_string(), 77, contents.clone());
    assert_eq!(made.path, "raw/9_c.txt");
    assert_eq!(made.size, 77);
    assert!(Rc::ptr_eq(&made.contents, &contents));
}

#[test]
fn session_paths_hold_their_number() {
    for n in [1u32, 9, 10, 42, 999, 1000, u32::MAX] {
        for width in 0usize..12 {
            let digits = n.to_string().len();
            let expected = Some((n, if width > digits { width } else { digits }));
            assert_eq!(sequence_number_of(&format!("raw/{:0fill$}_c.txt", n, fill = width)), expected);
            assert_eq!(sequence_number_of(&format!("raw/{:0fill$}_s.txt", n, fill = width)), expected);
        }
    }
}
