use mono::paths::{dir_slug, join, path_file_name, path_parent, resolve};

#[test]
fn file_name_is_what_follows_the_last_separator() {
    assert_eq!(path_file_name("foo/.github/workflows/test.yml"), "test.yml");
    assert_eq!(path_file_name("foo/MONO"), "MONO");
    assert_eq!(path_file_name("MONO"), "MONO");
    assert_eq!(path_file_name("/MONO"), "MONO");
    assert_eq!(path_file_name("foo/"), "");
    assert_eq!(path_file_name(""), "");
    assert_eq!(path_file_name("dé/ñandú.txt"), "ñandú.txt");
}

#[test]
fn parent_is_what_stands_before_the_last_separator() {
    assert_eq!(path_parent("foo/.github/workflows/test.yml"), "foo/.github/workflows");
    assert_eq!(path_parent("foo/MONO"), "foo");
    assert_eq!(path_parent("a/b/MONO"), "a/b");
    assert_eq!(path_parent("MONO"), "");
    assert_eq!(path_parent("/MONO"), "");
    assert_eq!(path_parent("foo/"), "foo");
    assert_eq!(path_parent(""), "");
    assert_eq!(path_parent("dé/ñandú.txt"), "dé");
}

#[test]
fn parent_and_file_name_make_up_the_path() {
    for path in ["foo/MONO", "a/b/c", "/x", "x/", "a//b", "dé/ñ"] {
        assert_eq!(
            format!("{}/{}", path_parent(path), path_file_name(path)),
            path
        );
    }
}

#[test]
fn slug_has_a_hyphen_for_every_separator() {
    assert_eq!(dir_slug("foo"), "foo");
    assert_eq!(dir_slug("foo/bar"), "foo-bar");
    assert_eq!(dir_slug("foo/bar/baz"), "foo-bar-baz");
    assert_eq!(dir_slug(""), "");
    assert_eq!(dir_slug("/"), "-");
    assert_eq!(dir_slug("/a//b/"), "-a--b-");
    assert_eq!(dir_slug("a-b/c"), "a-b-c");
    assert_eq!(dir_slug("dé/ñandú"), "dé-ñandú");
}

#[test]
fn join_puts_one_separator_between_directory_and_pattern() {
    assert_eq!(join("foo", ".github/workflows/*"), "foo/.github/workflows/*");
    assert_eq!(join("a/b", "*.txt"), "a/b/*.txt");
    assert_eq!(join("foo", ""), "foo/");
}

#[test]
fn join_adds_no_separator_after_an_empty_directory() {
    assert_eq!(join("", "*.txt"), "*.txt");
    assert_eq!(join("", ""), "");
}

#[test]
fn join_adds_no_separator_after_a_separator() {
    assert_eq!(join("foo/", "*.txt"), "foo/*.txt");
    assert_eq!(join("/", "x"), "/x");
}

#[test]
fn join_leaves_a_rooted_pattern_alone() {
    assert_eq!(join("foo", "/etc/*"), "/etc/*");
    assert_eq!(join("", "/etc/*"), "/etc/*");
}

#[test]
fn join_agrees_with_the_standard_library() {
    let dirs = ["", "foo", "foo/", "a/b", "/", "/a"];
    let rels = ["", "x", "x/y", "*.txt", "/x", "/", ".github/workflows/*"];
    for dir in dirs {
        for rel in rels {
            let expected = std::path::Path::new(dir).join(rel).display().to_string();
            assert_eq!(join(dir, rel), expected, "{dir:?} {rel:?}");
        }
    }
}

#[test]
fn a_rooted_destination_is_taken_from_the_root() {
    assert_eq!(
        resolve(".", "foo", "/.github/workflows/foo-test.yml"),
        "./.github/workflows/foo-test.yml"
    );
    assert_eq!(resolve("/repo", "a/b", "/x"), "/repo/x");
}

#[test]
fn a_root_that_needs_no_separator_gets_none() {
    assert_eq!(resolve("", "a", "/x"), "x");
    assert_eq!(resolve("/", "a", "/x"), "/x");
    assert_eq!(resolve("repo/", "a", "//x"), "repo/x");
}

#[test]
fn a_rooted_destination_loses_every_leading_separator() {
    assert_eq!(resolve(".", "foo", "//x"), "./x");
    assert_eq!(resolve(".", "foo", "///x/y/"), "./x/y/");
    assert_eq!(resolve(".", "foo", "/"), "./");
    assert_eq!(resolve(".", "foo", "//"), "./");
}

#[test]
fn any_other_destination_is_taken_from_the_directory_as_it_stands() {
    assert_eq!(resolve(".", "foo", "build/test.yml"), "foo/build/test.yml");
    assert_eq!(resolve(".", "a/b", "x"), "a/b/x");
    assert_eq!(resolve(".", "foo", "x//y/"), "foo/x//y/");
    assert_eq!(resolve(".", "foo", ""), "foo/");
    assert_eq!(resolve(".", "foo", "./x"), "foo/./x");
}

#[test]
fn a_destination_in_the_root_directory_stays_relative() {
    assert_eq!(resolve(".", "", "x"), "x");
    assert_eq!(resolve(".", "", "build/x"), "build/x");
    assert_eq!(resolve(".", "", ""), "");
}

#[test]
fn destinations_agree_with_stripping_and_formatting() {
    for to in ["/a", "//a", "a", "", "/", "a/b", "/a/b", "é/ü", "/é"] {
        let expected = if to.starts_with("/") {
            format!("{}/{}", "root", to.trim_start_matches("/"))
        } else {
            format!("{}/{}", "dir", to)
        };
        assert_eq!(resolve("root", "dir", to), expected, "{to:?}");
    }
}
