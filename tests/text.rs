use synthia_agent::text::{chars_of, decimal_text, find, has_prefix, has_suffix, segment_before, strip_prefixes, trim, trim_end_char};
use synthia_agent::tools::search_lines;

#[test]
fn trimming() {
    assert_eq!(trim("  a b \t\n"), "a b");
    assert_eq!(trim("\u{3000}x\u{a0}"), "x");
    assert_eq!(trim("   "), "");
    assert_eq!(trim_end_char("code```", '`'), "code");
}

#[test]
fn searching() {
    assert_eq!(find("abcabc", "ca"), Some(2));
    assert_eq!(find("héllo", "llo"), Some(2));
    assert_eq!(find("abc", "abcd"), None);
    assert_eq!(find("abc", ""), Some(0));
    assert!(has_prefix("**/x", "**"));
    assert!(has_suffix("main.rs", ".rs"));
    assert_eq!(strip_prefixes("**/**/a", "**/"), "a");
    assert_eq!(segment_before("src/*.rs", "/"), "src");
    assert_eq!(chars_of("añ"), vec!['a', 'ñ']);
}

#[test]
fn decimals() {
    assert_eq!(decimal_text(0), "0");
    assert_eq!(decimal_text(907), "907");
    assert_eq!(decimal_text(usize::MAX), usize::MAX.to_string());
}

#[test]
fn matching_lines_are_numbered_and_trimmed() {
    let content = "fn main() {\r\n    let x = 1;\n}\n  x again  ";
    assert_eq!(
        search_lines(content, "x"),
        vec![(2, "let x = 1;".to_string()), (4, "x again".to_string())]
    );
    assert!(search_lines("", "x").is_empty());
    assert_eq!(search_lines("a\n\nb\n", ""), vec![(1, "a".to_string()), (2, String::new()), (3, "b".to_string())]);
}
