use cpac::order::stable_order_of;
use cpac::text::{join_strings, split_lines, split_words, text_less, to_chars, trimmed};

fn chars(s: &str) -> Vec<char> {
    s.chars().collect()
}

fn text(v: &[char]) -> String {
    v.iter().collect()
}

#[test]
fn lines_follow_str_lines() {
    let got: Vec<String> = split_lines(&chars("a\r\nb\n\nc\n")).iter().map(|l| text(l)).collect();
    let want: Vec<String> = "a\r\nb\n\nc\n".lines().map(|l| l.to_string()).collect();
    assert_eq!(got, want);
    let got: Vec<String> = split_lines(&chars("x\ny")).iter().map(|l| text(l)).collect();
    assert_eq!(got, vec!["x".to_string(), "y".to_string()]);
    assert!(split_lines(&chars("")).is_empty());
}

#[test]
fn words_follow_split_whitespace() {
    let s = "  one\ttwo  three\u{a0}four ";
    let got: Vec<String> = split_words(&chars(s)).iter().map(|w| text(w)).collect();
    let want: Vec<String> = s.split_whitespace().map(|w| w.to_string()).collect();
    assert_eq!(got, want);
    assert_eq!(text(&trimmed(&chars("\u{2003} x y \n"))), "x y");
}

#[test]
fn joins_and_order() {
    assert_eq!(join_strings(&vec!["a".to_string(), "b".to_string()], " | "), "a | b");
    assert_eq!(join_strings(&vec![], ", "), "");
    assert!(text_less(&chars("abc"), &chars("abd")));
    assert!(text_less(&chars("ab"), &chars("abc")));
    assert!(!text_less(&chars("b"), &chars("abc")));
    assert_eq!(to_chars("hé"), vec!['h', 'é']);
}

#[test]
fn stable_order_is_stable() {
    let keys = vec![
        (2i64, chars("b"), vec![]),
        (1i64, chars("z"), vec![]),
        (2i64, chars("a"), vec![]),
        (1i64, chars("z"), vec![]),
    ];
    assert_eq!(stable_order_of(&keys), vec![1, 3, 2, 0]);
}
