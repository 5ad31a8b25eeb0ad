use acsync::sync::answer_is_yes;
use acsync::text::{
    contains_str, eq_str, extension_of, join_path, parent_dir, split_extension_list, split_lines,
    strip_root,
};

#[test]
fn join_appends_separator_and_name() {
    assert_eq!(join_path("/srv/data", "notes.txt"), "/srv/data/notes.txt");
}

#[test]
fn strip_root_handles_equal_child_and_foreign_paths() {
    assert_eq!(strip_root("/srv/data", "/srv/data"), Some(""));
    assert_eq!(strip_root("/srv/data/a/b", "/srv/data"), Some("a/b"));
    assert_eq!(strip_root("/srv/database", "/srv/data"), None);
    assert_eq!(strip_root("/other", "/srv/data"), None);
}

#[test]
fn parent_walks_one_level_up() {
    assert_eq!(parent_dir("/srv/data/a"), Some("/srv/data"));
    assert_eq!(parent_dir("/srv"), None);
    assert_eq!(parent_dir("plain"), None);
}

#[test]
fn extension_follows_file_name_rules() {
    assert_eq!(extension_of("a/b/archive.tar.gz"), Some("gz"));
    assert_eq!(extension_of("a/b/notes.txt"), Some("txt"));
    assert_eq!(extension_of("a/b/.hidden"), None);
    assert_eq!(extension_of("a/b/plain"), None);
    assert_eq!(extension_of("a/b/trailing."), Some(""));
    assert_eq!(extension_of("a.dir/plain"), None);
}

#[test]
fn contains_and_equality() {
    assert!(contains_str("/srv/data/tmp/x", "tmp"));
    assert!(!contains_str("/srv/data/x", "tmp"));
    assert!(contains_str("anything", ""));
    assert!(eq_str("abc", "abc"));
    assert!(!eq_str("abc", "abd"));
}

#[test]
fn extension_lists_split_on_all_separators() {
    assert_eq!(split_extension_list("rs,txt;md|c h"), vec![
        "rs".to_string(),
        "txt".to_string(),
        "md".to_string(),
        "c".to_string(),
        "h".to_string(),
    ]);
    assert_eq!(split_extension_list(""), vec!["".to_string()]);
    assert_eq!(split_extension_list("rs,"), vec!["rs".to_string(), "".to_string()]);
}

#[test]
fn lines_split_like_a_pattern_file() {
    assert_eq!(split_lines("a\nb\n"), vec!["a".to_string(), "b".to_string()]);
    assert_eq!(split_lines("a\nb"), vec!["a".to_string(), "b".to_string()]);
    assert_eq!(split_lines(""), Vec::<String>::new());
    assert_eq!(split_lines("\n"), vec!["".to_string()]);
}

#[test]
fn override_answers() {
    assert!(answer_is_yes("y\n"));
    assert!(answer_is_yes("Yes"));
    assert!(!answer_is_yes("no"));
    assert!(!answer_is_yes(""));
}
