use elmio_cli::text::{
    contains_sub, ends_with, find_sub, join, lines, non_empty_parts, path_join, replace,
    space_tokens, split_char, starts_with, str_eq, strip_prefix, trim,
};

#[test]
fn prefix_stripping() {
    assert_eq!(strip_prefix("/proj/a.rs", "/proj"), Some(String::from("a.rs")));
    assert_eq!(strip_prefix("/proj", "/proj"), Some(String::from("")));
    assert_eq!(strip_prefix("/projects/a.rs", "/proj"), None);
    assert_eq!(strip_prefix("/elsewhere/a.rs", "/proj"), None);
    // A base that itself ends in the separator already separates — the
    // filesystem root included.
    assert_eq!(strip_prefix("/a/b.rs", "/"), Some(String::from("a/b.rs")));
    assert_eq!(strip_prefix("/proj/a.rs", "/proj/"), Some(String::from("a.rs")));
}

#[test]
fn replace_all_occurrences() {
    assert_eq!(replace("hello world", "l", "L"), "heLLo worLd");
    assert_eq!(replace("aaa", "aa", "b"), "ba");
    assert_eq!(replace("abc", "x", "y"), "abc");
    assert_eq!(replace("abc", "", "y"), "abc");
    assert_eq!(replace("require(`util`);", "require(`util`);", ""), "");
}

#[test]
fn substring_search() {
    assert_eq!(find_sub("abcabc", "ca"), Some(2));
    assert_eq!(find_sub("abc", "d"), None);
    assert_eq!(find_sub("abc", ""), Some(0));
    assert!(contains_sub("pub mod x;\n", "pub mod x;"));
    assert!(!contains_sub("pub mod x;\n", "pub mod y;"));
}

#[test]
fn prefix_and_suffix() {
    assert!(starts_with("/proj/a", "/proj"));
    assert!(!starts_with("/pr", "/proj"));
    assert!(ends_with("app_core", "_core"));
    assert!(!ends_with("core", "_core"));
    assert!(str_eq("abc", "abc"));
    assert!(!str_eq("abc", "abd"));
    assert!(!str_eq("abc", "ab"));
}

#[test]
fn split_and_join() {
    let parts = split_char("a/b//c", '/');
    assert_eq!(parts, vec!["a", "b", "", "c"]);
    assert_eq!(split_char("", '/'), vec![""]);
    assert_eq!(non_empty_parts(&parts), vec!["a", "b", "c"]);
    assert_eq!(join(&parts, "/"), "a/b//c");
    assert_eq!(join(&vec![], "/"), "");
}

#[test]
fn line_splitting() {
    assert_eq!(lines("a\r\nb\nc"), vec!["a", "b", "c"]);
    assert_eq!(lines("a\nb\n"), vec!["a", "b"]);
    assert_eq!(lines(""), Vec::<String>::new());
    assert_eq!(lines("one"), vec!["one"]);
}

#[test]
fn trimming() {
    assert_eq!(trim("  spaced \t"), "spaced");
    assert_eq!(trim("none"), "none");
    assert_eq!(trim(" \r\n "), "");
}

#[test]
fn whitespace_tokens() {
    assert_eq!(space_tokens("npm run  build"), vec!["npm", "run", "build"]);
    assert_eq!(space_tokens("  lone  "), vec!["lone"]);
    assert_eq!(space_tokens("   "), Vec::<String>::new());
    assert_eq!(space_tokens(""), Vec::<String>::new());
}

#[test]
fn joining_paths() {
    assert_eq!(path_join("/proj", "dist"), "/proj/dist");
    assert_eq!(path_join("a", "b"), "a/b");
}
