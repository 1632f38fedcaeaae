use appdata_backup::path::{
    has_parent_reference, is_absolute_path, is_clean, is_entry_path, is_plain, is_within,
    join_child, join_path, names_directory, sanitize_path, PathRejection,
};
use std::path::{Component, Path};

#[test]
fn plain_relative_name_is_joined_onto_the_root() {
    assert_eq!(sanitize_path("/dest", "a.txt"), Ok("/dest/a.txt".to_string()));
    assert_eq!(sanitize_path("/dest", "sub/b.txt"), Ok("/dest/sub/b.txt".to_string()));
    assert_eq!(sanitize_path("/dest", "sub/empty/"), Ok("/dest/sub/empty/".to_string()));
}

#[test]
fn root_with_trailing_separator_gets_no_second_one() {
    assert_eq!(sanitize_path("/dest/", "a.txt"), Ok("/dest/a.txt".to_string()));
    assert_eq!(sanitize_path("/", "a.txt"), Ok("/a.txt".to_string()));
}

#[test]
fn parent_reference_is_rejected_whatever_the_root() {
    for root in ["/dest", "/", "", "relative/root", "/dest/", "C:\\dest"] {
        for name in [
            "..", "../x", "a/../b", "a/..", "../../etc/passwd", "/abs/../x", "a//../b", "..\\x",
            "a\\..\\b", "..\\..\\escape.txt", "a/..\\b", "\\..",
        ] {
            assert_eq!(
                sanitize_path(root, name),
                Err(PathRejection::ParentReference),
                "root {root:?}, name {name:?}"
            );
        }
    }
}

#[test]
fn dots_inside_a_segment_are_not_a_parent_reference() {
    assert!(!has_parent_reference("a..b/c"));
    assert!(!has_parent_reference("..."));
    assert!(!has_parent_reference("..a"));
    assert!(!has_parent_reference("a.."));
    assert!(has_parent_reference("..\\x"));
    assert!(has_parent_reference("a\\..\\b"));
    assert!(has_parent_reference("a/..\\b"));
    assert!(!has_parent_reference("a\\..b"));
    assert!(has_parent_reference("x/../y"));
    assert!(has_parent_reference(".."));
    assert_eq!(sanitize_path("/dest", "a..b/...c"), Ok("/dest/a..b/...c".to_string()));
}

#[test]
fn absolute_name_is_rejected_as_escape() {
    for root in ["/dest", "/dest/", "/", "", "relative"] {
        for name in [
            "/etc/passwd", "/dest-evil/x", "/", "//", "/dest/x", "/dest", "/relative/x",
            "\\windows\\system32", "\\", "\\\\server\\share",
        ] {
            assert_eq!(
                sanitize_path(root, name),
                Err(PathRejection::EscapesDestination),
                "root {root:?}, name {name:?}"
            );
        }
    }
    assert!(is_absolute_path("/"));
    assert!(is_absolute_path("/a"));
    assert!(!is_absolute_path(""));
    assert!(!is_absolute_path("a/"));
    assert!(is_absolute_path("\\a"));
    assert!(!is_absolute_path("a\\"));
}

#[test]
fn empty_name_resolves_to_the_root() {
    assert_eq!(sanitize_path("/dest", ""), Ok("/dest/".to_string()));
    assert_eq!(sanitize_path("/dest/", ""), Ok("/dest/".to_string()));
    assert_eq!(sanitize_path("", ""), Ok("".to_string()));
    assert!(is_within("/dest/", "/dest"));
    assert!(is_within("/dest", "/dest/"));
}

#[test]
fn prefix_is_compared_by_segment_not_by_character() {
    assert!(is_within("/dest/a/b", "/dest"));
    assert!(is_within("/dest", "/dest"));
    assert!(is_within("/dest//a/./b", "/dest/a"));
    assert!(!is_within("/dest-evil/a", "/dest"));
    assert!(!is_within("/des", "/dest"));
    assert!(!is_within("/", "/dest"));
    assert!(!is_within("dest/a", "/dest"));
    assert!(!is_within("/dest/a", "dest"));
    assert!(is_within("a/b", ""));
    assert!(is_within("./a/b", "a"));
}

#[test]
fn approved_path_is_always_within_the_root() {
    let roots = ["/dest", "/dest/", "/", "", "rel", "/a/b/c", "/a//b/."];
    let names = [
        "", "a", "a/b", "a/", "/dest/x", "/a/b/c/d", "/", "//", ".", "./a", "a/./b", "a//b",
        "/a/b", "\\", "a\\..\\b", "/dest", "/rel",
    ];
    for root in roots {
        for name in names {
            if let Ok(path) = sanitize_path(root, name) {
                assert!(is_within(&path, root), "root {root:?}, name {name:?}, path {path:?}");
                assert!(Path::new(&path).starts_with(root));
                assert_eq!(path, join_path(root, name));
            }
        }
    }
}

#[test]
fn relative_name_without_parent_reference_is_always_approved() {
    for root in ["/dest", "/dest/", "/", "", "rel", "./rel"] {
        for name in ["", "a", "a/b", "a/", ".", "./a", "a/./b", "a//b", "a\\b", "...", "a/"] {
            assert!(sanitize_path(root, name).is_ok(), "root {root:?}, name {name:?}");
        }
    }
}

#[test]
fn join_path_puts_at_most_one_separator_of_its_own() {
    assert_eq!(join_path("/dest", "a"), "/dest/a");
    assert_eq!(join_path("/dest/", "a"), "/dest/a");
    assert_eq!(join_path("", "a"), "a");
    assert_eq!(join_path("/dest", "/a"), "/dest//a");
    assert_eq!(join_path("/dest", ""), "/dest/");
    assert_eq!(join_path("", ""), "");
}

#[test]
fn join_child_puts_one_separator_between() {
    assert_eq!(join_child("", "a.txt"), "a.txt");
    assert_eq!(join_child("sub", "b.txt"), "sub/b.txt");
    assert_eq!(join_child("sub/deeper", "c"), "sub/deeper/c");
}

#[test]
fn plain_names_are_single_segments() {
    assert!(is_plain("a.txt"));
    assert!(is_plain("..."));
    assert!(!is_plain("a\\b"));
    assert!(!is_plain("\\"));
    assert!(is_plain("书籍.db"));
    assert!(!is_plain(""));
    assert!(!is_plain("."));
    assert!(!is_plain(".."));
    assert!(!is_plain("a/b"));
    assert!(!is_plain("/"));
}

#[test]
fn clean_paths_have_only_naming_segments() {
    assert!(is_clean("a"));
    assert!(is_clean("a/b/c.txt"));
    assert!(!is_clean(""));
    assert!(!is_clean("/a"));
    assert!(!is_clean("a/"));
    assert!(!is_clean("a//b"));
    assert!(!is_clean("a/./b"));
    assert!(!is_clean("a/../b"));
    assert!(!is_clean(".."));
}

#[test]
fn entry_names_may_end_in_one_separator() {
    assert!(is_entry_path("a"));
    assert!(is_entry_path("a/"));
    assert!(is_entry_path("sub/empty/"));
    assert!(!is_entry_path(""));
    assert!(!is_entry_path("/"));
    assert!(!is_entry_path("a//"));
    assert!(!is_entry_path("../a/"));
    assert!(names_directory("a/"));
    assert!(names_directory(""));
    assert!(!names_directory("a"));
}

#[test]
fn non_ascii_names_are_handled_by_character() {
    assert_eq!(sanitize_path("/目标", "书/章.txt"), Ok("/目标/书/章.txt".to_string()));
    assert_eq!(sanitize_path("/目标", "书/../章"), Err(PathRejection::ParentReference));
}

/// The sanitizer written with the standard library's paths, as a Unix
/// system reads them. It lets an absolute name pass that lies below the
/// root; the library does not.
fn sanitize_with_std(dest_dir: &str, name: &str) -> Result<String, PathRejection> {
    let dest_path = Path::new(dest_dir);
    let file_path = Path::new(name);
    if file_path.components().any(|c| matches!(c, Component::ParentDir)) {
        return Err(PathRejection::ParentReference);
    }
    let combined = dest_path.join(file_path);
    match combined.strip_prefix(dest_path) {
        Ok(_) => Ok(combined.to_string_lossy().to_string()),
        Err(_) => Err(PathRejection::EscapesDestination),
    }
}

#[test]
fn sanitizer_agrees_with_the_standard_library_under_a_root() {
    if std::path::MAIN_SEPARATOR != '/' {
        return;
    }
    let roots = [
        "/dest", "/dest/", "/", "//", "/a/b", "/a//b/", "/a/./b", "/a/../b", "rel", "rel/", "./rel",
        "rel/./x", ".", "./", "..", "/目标",
    ];
    let names = [
        "", "a", "a/b", "a/", "a//b", "./a", "a/.", "a/./b", ".", "./", "..", "../a", "a/..",
        "a/../b", "...", "..a", "a..", "/", "//", "/a", "/dest", "/dest/", "/dest/x", "/dest-evil",
        "/a/b", "/a/b/c", "/a//b/./c", "/a/c", "/rel", "rel", "rel/x", "\\", "..\\a", "书/章",
        "/目标/书", "/./dest/x", "/a/../b/c", "/..",
    ];
    for root in roots {
        for name in names {
            // A name is read both as it stands and with every `\` for a `/`,
            // as a system with that separator would read it.
            let other_reading = name.replace('\\', "/");
            let expected = match sanitize_with_std(root, name) {
                Ok(_) if sanitize_with_std(root, &other_reading)
                    == Err(PathRejection::ParentReference) =>
                {
                    Err(PathRejection::ParentReference)
                }
                Ok(_) if other_reading.starts_with('/') => Err(PathRejection::EscapesDestination),
                other => other,
            };
            assert_eq!(sanitize_path(root, name), expected, "root {root:?}, name {name:?}");
        }
    }
}

#[test]
fn empty_root_refuses_absolute_names() {
    assert_eq!(sanitize_path("", "/etc/passwd"), Err(PathRejection::EscapesDestination));
    assert_eq!(sanitize_path("", "etc/passwd"), Ok("etc/passwd".to_string()));
}
