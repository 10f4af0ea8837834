use spuri_io::text::{chars_of, contains, contains_char, last_piece, parse_index, split, string_of};

#[test]
fn a_text_is_split_at_every_separator() {
    assert_eq!(split("a,34", ','), vec!["a", "34"]);
    assert_eq!(split("", ','), vec![""]);
    assert_eq!(split(",", ','), vec!["", ""]);
    assert_eq!(split("a,,b,", ','), vec!["a", "", "b", ""]);
    assert_eq!(split("abc", ','), vec!["abc"]);
    assert_eq!(split("é,ü", ','), vec!["é", "ü"]);
}

#[test]
fn the_last_piece_follows_the_last_separator() {
    assert_eq!(last_piece("pL.wx", '.'), "wx");
    assert_eq!(last_piece("wx", '.'), "wx");
    assert_eq!(last_piece("a.b.c", '.'), "c");
    assert_eq!(last_piece("a.", '.'), "");
    assert_eq!(last_piece("", '.'), "");
}

#[test]
fn an_index_is_read_in_decimal() {
    assert_eq!(parse_index("34"), Some(34));
    assert_eq!(parse_index("0"), Some(0));
    assert_eq!(parse_index("007"), Some(7));
    assert_eq!(parse_index("+5"), Some(5));
    assert_eq!(parse_index(""), None);
    assert_eq!(parse_index("+"), None);
    assert_eq!(parse_index("-1"), None);
    assert_eq!(parse_index(" 1"), None);
    assert_eq!(parse_index("1a"), None);
    assert_eq!(parse_index("a"), None);
    assert_eq!(parse_index("++1"), None);
    assert_eq!(parse_index(&usize::MAX.to_string()), Some(usize::MAX));
    assert_eq!(parse_index(&format!("{}0", usize::MAX)), None);
    assert_eq!(parse_index("18446744073709551616"), "18446744073709551616".parse::<usize>().ok());
}

#[test]
fn a_text_is_searched() {
    assert!(contains("a.reverse()", "reverse"));
    assert!(contains("reverse", "reverse"));
    assert!(!contains("revers", "reverse"));
    assert!(contains("anything", ""));
    assert!(contains("", ""));
    assert!(!contains("", "a"));
    assert!(contains("aab", "ab"));
    assert!(contains_char("a[b%a.length]", '%'));
    assert!(!contains_char("a.length", '%'));
}

#[test]
fn characters_and_strings_convert_both_ways() {
    assert_eq!(chars_of("aé"), vec!['a', 'é']);
    assert_eq!(string_of(&vec!['a', 'é']), "aé");
    assert_eq!(string_of(&chars_of("")), "");
}
