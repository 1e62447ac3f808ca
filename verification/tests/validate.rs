use ruthub::ident::gen_slug;
use ruthub::model::{accept, re_test_name, re_test_psw, re_test_url, test_len_limit};
use ruthub::text::{chars_of, fold, same_text, title_matches};

#[test]
fn names_are_three_to_forty_two_word_characters() {
    assert!(re_test_name("abc"));
    assert!(re_test_name("user-name_1"));
    assert!(!re_test_name("ab"));
    assert!(!re_test_name("has space"));
    assert!(re_test_name(&"a".repeat(42)));
    assert!(!re_test_name(&"a".repeat(43)));
    assert!(!re_test_name(""));
}

#[test]
fn passwords_are_eight_to_eighteen_signs() {
    assert!(re_test_psw("abcd#@~1"));
    assert!(!re_test_psw("short7"));
    assert!(!re_test_psw("has space in it"));
    assert!(re_test_psw(&"x".repeat(18)));
    assert!(!re_test_psw(&"x".repeat(19)));
}

#[test]
fn urls_need_scheme_and_host() {
    assert!(re_test_url("http://x.test/a"));
    assert!(re_test_url("https://example.com:8080/path?q=1"));
    assert!(re_test_url("https://example.com"));
    assert!(!re_test_url("ftp://example.com"));
    assert!(!re_test_url("http:///nohost"));
    assert!(!re_test_url("example.com"));
}

#[test]
fn a_refused_pattern_accepts_nothing() {
    assert!(!accept(None));
    assert!(!accept(Some(false)));
    assert!(accept(Some(true)));
}

#[test]
fn len_limit_sets_surrounding_space_aside() {
    assert!(test_len_limit("  abc  ", 3, 3));
    assert!(!test_len_limit("  abc  ", 4, 10));
    assert!(test_len_limit("\t\n abc \u{3000}", 3, 3));
    assert!(test_len_limit("a b", 3, 3));
    assert!(test_len_limit("   ", 0, 0));
    assert!(!test_len_limit("", 1, 5));
}

#[test]
fn len_limit_trims_each_white_space_character() {
    let spaces = [
        '\u{09}', '\u{0A}', '\u{0B}', '\u{0C}', '\u{0D}', '\u{20}', '\u{85}', '\u{A0}', '\u{1680}', '\u{2000}',
        '\u{2001}', '\u{2002}', '\u{2003}', '\u{2004}', '\u{2005}', '\u{2006}', '\u{2007}', '\u{2008}',
        '\u{2009}', '\u{200A}', '\u{2028}', '\u{2029}', '\u{202F}', '\u{205F}', '\u{3000}',
    ];
    for c in spaces {
        let text = format!("{}ab{}", c, c);
        assert!(test_len_limit(&text, 2, 2));
    }
}

#[test]
fn len_limit_keeps_what_is_no_white_space() {
    for c in ['\u{08}', '\u{0E}', '\u{1F}', '\u{21}', '\u{84}', '\u{86}', '\u{180E}', '\u{200B}', '\u{2060}', '\u{FEFF}'] {
        let text = format!("{}ab{}", c, c);
        let bytes = 2 + 2 * c.len_utf8();
        assert!(test_len_limit(&text, bytes, bytes));
    }
}

#[test]
fn len_limit_counts_bytes() {
    assert!(test_len_limit("é", 2, 2));
    assert!(!test_len_limit("é", 1, 1));
    assert!(test_len_limit("abcd", 0, 4));
    assert!(!test_len_limit("abcde", 0, 4));
}

#[test]
fn same_text_compares_characters() {
    assert!(same_text("create", "create"));
    assert!(!same_text("create", "Create"));
    assert!(!same_text("create", "creat"));
    assert!(same_text("", ""));
}

#[test]
fn fold_takes_upper_case_letters_as_lower_case() {
    assert_eq!(fold('A'), 'a' as u32);
    assert_eq!(fold('Z'), 'z' as u32);
    assert_eq!(fold('a'), 'a' as u32);
    assert_eq!(fold('@'), '@' as u32);
    assert_eq!(fold('['), '[' as u32);
    assert_eq!(fold('É'), 'É' as u32);
}

#[test]
fn chars_of_lists_the_characters() {
    assert_eq!(chars_of("aé€"), vec!['a', 'é', '€']);
    assert_eq!(chars_of(""), Vec::<char>::new());
}

#[test]
fn title_matches_sets_case_aside() {
    assert!(title_matches("Learning Rust in depth", "rust"));
    assert!(title_matches("Learning Rust in depth", "RUST IN"));
    assert!(title_matches("abc", ""));
    assert!(title_matches("", ""));
    assert!(title_matches("abc", "abc"));
    assert!(title_matches("xxabc", "abc"));
    assert!(!title_matches("abc", "abcd"));
    assert!(!title_matches("Learning Rust", "rusty"));
    assert!(!title_matches("", "a"));
    assert!(!title_matches("Éa", "éa"));
}

#[test]
fn slug_joins_prefix_and_id() {
    assert_eq!(gen_slug("r", "abc-1"), "r-abc-1");
    assert_eq!(gen_slug("", ""), "-");
}
