use edgar_statements::text::{
    append, chars_of, contains, ends_with, join_with, matches_at, remove_char, replace_all,
    split_on, trim,
};

fn chars(s: &str) -> Vec<char> {
    s.chars().collect()
}

fn text(v: &[char]) -> String {
    v.iter().collect()
}

#[test]
fn chars_of_keeps_every_character() {
    assert_eq!(chars_of("a/b-ç"), vec!['a', '/', 'b', '-', 'ç']);
    assert_eq!(chars_of(""), Vec::<char>::new());
}

#[test]
fn append_adds_at_the_end() {
    let mut out = chars("ab");
    append(&mut out, &chars("cd"));
    assert_eq!(text(&out), "abcd");
    append(&mut out, &chars(""));
    assert_eq!(text(&out), "abcd");
}

#[test]
fn matches_at_checks_one_position() {
    let hay = chars("index.htm");
    assert!(matches_at(&hay, &chars("index"), 0));
    assert!(matches_at(&hay, &chars("htm"), 6));
    assert!(!matches_at(&hay, &chars("htm"), 5));
    assert!(!matches_at(&hay, &chars("htm"), 7));
    assert!(!matches_at(&hay, &chars("htm"), 100));
    assert!(matches_at(&hay, &chars(""), 9));
    assert!(!matches_at(&hay, &chars(""), 10));
}

#[test]
fn contains_finds_a_part_anywhere() {
    let hay = chars("consolidated balance sheets (unaudited)");
    assert!(contains(&hay, &chars("balance sheets")));
    assert!(contains(&hay, &chars("consolidated")));
    assert!(contains(&hay, &chars("(unaudited)")));
    assert!(contains(&hay, &chars("")));
    assert!(!contains(&hay, &chars("balance sheet ")));
    assert!(!contains(&chars("ab"), &chars("abc")));
    assert!(contains(&chars(""), &chars("")));
}

#[test]
fn ends_with_looks_at_the_end_only() {
    assert!(ends_with(&chars("a/FilingSummary.xml"), &chars("FilingSummary.xml")));
    assert!(!ends_with(&chars("a/FilingSummary.xml/b"), &chars("FilingSummary.xml")));
    assert!(!ends_with(&chars("xml"), &chars("FilingSummary.xml")));
    assert!(ends_with(&chars("xml"), &chars("")));
}

#[test]
fn replace_all_replaces_every_occurrence() {
    let out = replace_all(&chars("a-b-c"), &chars("-"), &chars("+"));
    assert_eq!(text(&out), "a+b+c");
    let out = replace_all(&chars("x-index.htm"), &chars("-index.htm"), &chars("/index.json"));
    assert_eq!(text(&out), "x/index.json");
    let out = replace_all(&chars("aaa"), &chars("aa"), &chars("b"));
    assert_eq!(text(&out), "ba");
    let out = replace_all(&chars("abab"), &chars("ab"), &chars(""));
    assert_eq!(text(&out), "");
    let out = replace_all(&chars("abc"), &chars("x"), &chars("y"));
    assert_eq!(text(&out), "abc");
}

#[test]
fn replace_all_does_not_look_at_what_it_wrote() {
    let out = replace_all(&chars("ab"), &chars("b"), &chars("bb"));
    assert_eq!(text(&out), "abb");
}

#[test]
fn replace_all_with_empty_pattern_changes_nothing() {
    let out = replace_all(&chars("abc"), &chars(""), &chars("-"));
    assert_eq!(text(&out), "abc");
}

#[test]
fn remove_char_takes_every_one_out() {
    assert_eq!(text(&remove_char(&chars("0001-23-45"), '-')), "00012345");
    assert_eq!(text(&remove_char(&chars("---"), '-')), "");
    assert_eq!(text(&remove_char(&chars("abc"), '-')), "abc");
}

#[test]
fn split_on_gives_the_pieces_between_separators() {
    let parts = split_on(&chars("https://host/a"), '/');
    let parts: Vec<String> = parts.iter().map(|p| text(p)).collect();
    assert_eq!(parts, vec!["https:", "", "host", "a"]);
}

#[test]
fn split_on_keeps_empty_pieces_at_the_ends() {
    let parts = split_on(&chars("/a/"), '/');
    let parts: Vec<String> = parts.iter().map(|p| text(p)).collect();
    assert_eq!(parts, vec!["", "a", ""]);
    let parts = split_on(&chars(""), '/');
    assert_eq!(parts, vec![Vec::<char>::new()]);
}

#[test]
fn join_with_puts_the_separator_between_pieces() {
    let parts = vec![chars("a"), chars(""), chars("b")];
    assert_eq!(text(&join_with(&parts, '/')), "a//b");
    assert_eq!(text(&join_with(&vec![chars("only")], ' ')), "only");
    assert_eq!(text(&join_with(&Vec::new(), ' ')), "");
}

#[test]
fn join_undoes_split() {
    for s in ["", "/", "a/b/c", "//x//", "no separator"] {
        let parts = split_on(&chars(s), '/');
        assert_eq!(text(&join_with(&parts, '/')), s);
    }
}

#[test]
fn trim_cuts_white_space_at_both_ends() {
    assert_eq!(text(&trim(&chars("  Cash and equivalents \n"))), "Cash and equivalents");
    assert_eq!(text(&trim(&chars("\u{a0}1,000\t"))), "1,000");
    assert_eq!(text(&trim(&chars(" \t\r\n"))), "");
    assert_eq!(text(&trim(&chars(""))), "");
    assert_eq!(text(&trim(&chars("a  b"))), "a  b");
}
