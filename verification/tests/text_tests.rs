use nifty::paths::{
    components_exec, extension_exec, file_name_exec, join_path_exec, parent_exec, path_has_prefix_exec,
    same_path_exec, strip_prefix_exec, with_extension_exec,
};
use nifty::pathorder::{path_less_exec, sort_paths};
use nifty::text::{
    contains_exec, ends_with, eq_ascii_nocase_exec, find_from, is_blank, last_piece_exec, lines_chars,
    parse_u32, replace, starts_with, to_chars, trim_char, trim_chars, trim_end_char, u64_decimal,
};

fn s(v: &[char]) -> String {
    v.iter().collect()
}

fn c(t: &str) -> Vec<char> {
    to_chars(t)
}

#[test]
fn replace_left_to_right_without_overlap() {
    assert_eq!(replace("aaa", "aa", "b"), "ba");
}

#[test]
fn replace_every_occurrence() {
    assert_eq!(replace("a-b-c", "-", "+"), "a+b+c");
    assert_eq!(replace("abc", "", "x"), "xaxbxcx");
}

#[test]
fn text_search_helpers() {
    assert!(starts_with(&c("export X=1"), &c("export ")));
    assert!(ends_with(&c("home.js"), &c(".js")));
    assert!(contains_exec(&c("/bin/zsh"), &c("zsh")));
    assert_eq!(find_from(&c("abcabc"), &c("bc"), 2), Some(4));
    assert_eq!(find_from(&c("abc"), &c("x"), 0), None);
    assert_eq!(s(&last_piece_exec(&c("/home/u/.zshrc"), &c("/"))), ".zshrc");
    assert_eq!(s(&last_piece_exec(&c("plain"), &c("/"))), "plain");
}

#[test]
fn lines_like_str_lines() {
    let ls: Vec<String> = lines_chars(&c("a\r\nb\n\nc\n")).iter().map(|l| s(l)).collect();
    assert_eq!(ls, vec!["a", "b", "", "c"]);
    assert!(lines_chars(&c("")).is_empty());
}

#[test]
fn trimming() {
    assert_eq!(s(&trim_chars(&c("  x y \n"))), "x y");
    assert!(is_blank(&c(" \t\n")));
    assert!(!is_blank(&c(" a ")));
    assert_eq!(s(&trim_end_char(&c("/a/b//"), '/')), "/a/b");
    assert_eq!(s(&trim_char(&c("\"/x/\""), '"')), "/x/");
}

#[test]
fn numbers() {
    assert_eq!(parse_u32(&c("42")), Some(42));
    assert_eq!(parse_u32(&c("+7")), Some(7));
    assert_eq!(parse_u32(&c("4294967295")), Some(4294967295));
    assert_eq!(parse_u32(&c("4294967296")), None);
    assert_eq!(parse_u32(&c("")), None);
    assert_eq!(parse_u32(&c("-1")), None);
    assert_eq!(parse_u32(&c("1a")), None);
    assert_eq!(s(&u64_decimal(0)), "0");
    assert_eq!(s(&u64_decimal(18446744073709551615)), "18446744073709551615");
}

#[test]
fn ascii_case_insensitive_equality() {
    assert!(eq_ascii_nocase_exec(&c("CsS"), &c("css")));
    assert!(!eq_ascii_nocase_exec(&c("cs"), &c("css")));
}

#[test]
fn path_components_and_prefixes() {
    let comps: Vec<String> = components_exec(&c("/a//b/./c/")).iter().map(|x| s(x)).collect();
    assert_eq!(comps, vec!["/", "a", "b", "c"]);
    let rel: Vec<String> = components_exec(&c("./x/../y")).iter().map(|x| s(x)).collect();
    assert_eq!(rel, vec![".", "x", "..", "y"]);
    assert!(path_has_prefix_exec(&c("/c/lazy/a.ts"), &c("/c/")));
    assert!(!path_has_prefix_exec(&c("/cc/a.ts"), &c("/c")));
    assert!(same_path_exec(&c("/a//b/"), &c("/a/b")));
    assert_eq!(strip_prefix_exec(&c("/c/lazy/a.ts"), &c("/c/")).map(|r| s(&r)), Some("lazy/a.ts".to_string()));
    assert_eq!(strip_prefix_exec(&c("/d/a.ts"), &c("/c/")), None);
}

#[test]
fn path_joining_and_names() {
    assert_eq!(s(&join_path_exec(&c("/a/"), &c("b"))), "/a/b");
    assert_eq!(s(&join_path_exec(&c("/a"), &c("b"))), "/a/b");
    assert_eq!(s(&join_path_exec(&c("/a"), &c("/b"))), "/b");
    assert_eq!(file_name_exec(&c("/a/b.tar.gz")).map(|r| s(&r)), Some("b.tar.gz".to_string()));
    assert_eq!(file_name_exec(&c("/a/..")), None);
    assert_eq!(extension_exec(&c("/a/b.tar.gz")).map(|r| s(&r)), Some("gz".to_string()));
    assert_eq!(extension_exec(&c("/a/.profile")), None);
    assert_eq!(s(&with_extension_exec(&c("lazy/v/home.ts"), &c("js"))), "lazy/v/home.js");
    assert_eq!(parent_exec(&c("/c/")).map(|r| s(&r)), Some("/".to_string()));
    assert_eq!(parent_exec(&c("/")), None);
}

#[test]
fn path_order_compares_component_by_component() {
    assert!(path_less_exec("/c/a/z.ts", "/c/a-b.ts"));
    assert!(!path_less_exec("/c/a-b.ts", "/c/a/z.ts"));
    assert!(path_less_exec("/c/a", "/c/a/b"));
    assert!(!path_less_exec("/c/a//b", "/c/a/b"));
    assert!(!path_less_exec("/c/a/b", "/c/a//b"));
    assert!(path_less_exec("/z", "a"));
}

#[test]
fn sorting_paths_is_stable_for_equal_paths() {
    let files = vec!["/c/b".to_string(), "/c/a//x".to_string(), "/c/a".to_string(), "/c/a/x".to_string()];
    let sorted = sort_paths(&files);
    assert_eq!(sorted, vec!["/c/a", "/c/a//x", "/c/a/x", "/c/b"]);
}

#[test]
fn sorting_does_not_depend_on_the_order_found() {
    let a: Vec<String> = ["/c/b.ts", "/c/a/z.ts", "/c/a.ts", "/c/a-b.ts"].iter().map(|s| s.to_string()).collect();
    let mut b = a.clone();
    b.reverse();
    assert_eq!(sort_paths(&a), sort_paths(&b));
    assert_eq!(sort_paths(&a), vec!["/c/a/z.ts", "/c/a-b.ts", "/c/a.ts", "/c/b.ts"]);
}
