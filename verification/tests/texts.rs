use axon::order::{is_before, sort_rows};
use axon::pairs::{copy_without, set_pair};
use axon::paths::join;
use axon::table::Table;
use axon::text;

#[test]
fn trimming() {
    assert_eq!(text::trim("\u{a0} a b \u{3000}\n"), "a b");
    assert_eq!(text::trim_start("  a "), "a ");
    assert_eq!(text::trim_end(" a  "), " a");
    assert_eq!(text::trim_char("--a-b--", '-'), "a-b");
    assert_eq!(text::trim_start_char("//a/", '/'), "a/");
    assert_eq!(text::trim_end_char("/a//", '/'), "/a");
    assert_eq!(text::trim_start_str("abababc", "ab"), "c");
    assert!(text::is_blank(" \t\n") && !text::is_blank("x"));
}

#[test]
fn finding_and_splitting() {
    assert_eq!(text::find("äbcbc", "bc"), Some(1));
    assert_eq!(text::find("abc", "x"), None);
    assert_eq!(text::find("abc", ""), Some(0));
    assert_eq!(text::find_char("äb", 'b'), Some(1));
    assert_eq!(text::rfind_char("a.b.c", '.'), Some(3));
    assert_eq!(text::split_once("a:b:c", ':'), Some(("a", "b:c")));
    assert_eq!(text::split("a,,b", ','), vec!["a", "", "b"]);
    assert_eq!(text::splitn("a/b/c/d", '/', 3), vec!["a", "b", "c/d"]);
    assert_eq!(text::split_nonempty(",a,,b", ','), vec!["a", "b"]);
    assert_eq!(text::split_commas(" a , ,b"), vec!["a", "b"]);
    assert_eq!(text::split_whitespace("  a\tb \n"), vec!["a", "b"]);
    assert_eq!(text::lines("a\r\nb\n\nc\r"), vec!["a", "b", "", "c\r"]);
    assert!(text::lines("").is_empty());
    assert_eq!(text::cut_at("a#b", '#'), "a");
    assert_eq!(text::cut_after("a.b.c", '.'), "c");
    assert_eq!(text::strip_prefix("abc", "ab"), Some("c"));
    assert_eq!(text::strip_suffix("abc", "bc"), Some("a"));
}

#[test]
fn replacing_and_joining() {
    assert_eq!(text::replace("aaa", "aa", "b"), "ba");
    assert_eq!(text::join(&vec!["a".to_string(), "b".to_string()], ", "), "a, b");
    assert_eq!(text::join(&Vec::new(), ","), "");
    assert_eq!(text::to_lower("AbÄ"), "abÄ");
}

#[test]
fn numbers() {
    assert_eq!(text::to_decimal(0), "0");
    assert_eq!(text::to_decimal(u64::MAX), "18446744073709551615");
    assert_eq!(text::parse_u64("18446744073709551615"), Some(u64::MAX));
    assert_eq!(text::parse_u64("18446744073709551616"), None);
    assert_eq!(text::parse_u64("+7"), Some(7));
    assert_eq!(text::parse_u64("+"), None);
    assert_eq!(text::parse_u64("-7"), None);
    assert_eq!(text::parse_u64(""), None);
    assert_eq!(text::parse_usize("0012"), Some(12));
    assert_eq!(text::to_signed_decimal(-12), "-12");
    assert_eq!(text::to_signed_decimal(i32::MIN), "-2147483648");
}

#[test]
fn bytes() {
    assert_eq!(text::byte_size("aä"), 3);
    assert_eq!(text::take_bytes("aäb", 3), "aä");
}

#[test]
fn answers() {
    for line in ["y", " Y\n", "yes", "YeS "] {
        assert!(text::is_yes(line));
    }
    for line in ["", "n", "yess", "ye s"] {
        assert!(!text::is_yes(line));
    }
}

#[test]
fn ordering() {
    assert!(is_before("a", "b") && is_before("a", "ab") && is_before("", "a"));
    assert!(!is_before("b", "a") && !is_before("a", "a"));
    let k1 = vec!["b".to_string(), "a".to_string(), "b".to_string(), "b".to_string()];
    let k2 = vec!["z".to_string(), "y".to_string(), "x".to_string(), "z".to_string()];
    assert_eq!(sort_rows(&k1, &k2), vec![1, 2, 0, 3]);
}

#[test]
fn pairs_and_paths() {
    let mut p: Vec<(String, String)> = Vec::new();
    set_pair(&mut p, "a".to_string(), "1".to_string());
    set_pair(&mut p, "b".to_string(), "2".to_string());
    set_pair(&mut p, "a".to_string(), "3".to_string());
    assert_eq!(p, vec![("a".to_string(), "3".to_string()), ("b".to_string(), "2".to_string())]);
    assert_eq!(copy_without(&p, "a").len(), 1);
    assert_eq!((join("a", "b"), join("a/", "b"), join("", "b"), join("a", "/b")),
        ("a/b".to_string(), "a/b".to_string(), "b".to_string(), "/b".to_string()));
}

#[test]
fn tables() {

    let mut t: Table<String> = Table::new();
    t.insert("k".to_string(), "1".to_string());
    t.insert("k".to_string(), "2".to_string());
    t.insert("l".to_string(), "3".to_string());
    assert_eq!(t.len(), 2);
    assert_eq!(t.get("k").map(|s| s.as_str()), Some("2"));
    assert_eq!(t.remove("k"), Some("2".to_string()));
    assert_eq!(t.remove("k"), None);
    assert!(t.contains("l") && !t.contains("k"));
    assert_eq!(t.position("l"), Some(0));
}
