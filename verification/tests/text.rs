use mono::text::{char_is_whitespace, chars_of, index_of, matches_at, substring, trim_range};

fn chars(s: &str) -> Vec<char> {
    s.chars().collect()
}

#[test]
fn chars_of_gives_every_character() {
    assert_eq!(chars_of(""), Vec::<char>::new());
    assert_eq!(chars_of("a${"), vec!['a', '$', '{']);
    assert_eq!(chars_of("é→x"), vec!['é', '→', 'x']);
}

#[test]
fn substring_counts_characters() {
    assert_eq!(substring("hello", 1, 3), "el");
    assert_eq!(substring("hello", 0, 5), "hello");
    assert_eq!(substring("hello", 2, 2), "");
    assert_eq!(substring("é→x", 1, 3), "→x");
    assert_eq!(substring("", 0, 0), "");
}

#[test]
fn matches_at_compares_in_place() {
    let hay = chars("a${b}");
    assert!(matches_at(&hay, &['$', '{'], 1));
    assert!(!matches_at(&hay, &['$', '{'], 0));
    assert!(!matches_at(&hay, &['$', '{'], 2));
    assert!(matches_at(&hay, &['}'], 4));
    assert!(matches_at(&hay, &[], 5));
}

#[test]
fn index_of_finds_the_first_occurrence() {
    let hay = chars("a${b}${c}");
    assert_eq!(index_of(&hay, &['$', '{'], 0), Some(1));
    assert_eq!(index_of(&hay, &['$', '{'], 1), Some(1));
    assert_eq!(index_of(&hay, &['$', '{'], 2), Some(5));
    assert_eq!(index_of(&hay, &['$', '{'], 6), None);
    assert_eq!(index_of(&hay, &['}'], 0), Some(4));
    assert_eq!(index_of(&hay, &['}'], 5), Some(8));
    assert_eq!(index_of(&hay, &['}'], 9), None);
    assert_eq!(index_of(&hay, &['}'], 100), None);
    assert_eq!(index_of(&hay, &['x'], 0), None);
}

#[test]
fn index_of_handles_patterns_at_the_edges() {
    assert_eq!(index_of(&chars("${"), &['$', '{'], 0), Some(0));
    assert_eq!(index_of(&chars("$"), &['$', '{'], 0), None);
    assert_eq!(index_of(&chars(""), &['$', '{'], 0), None);
    assert_eq!(index_of(&chars("$$${"), &['$', '{'], 0), Some(2));
    assert_eq!(index_of(&chars("ab"), &[], 0), Some(0));
    assert_eq!(index_of(&chars("ab"), &[], 2), Some(2));
    assert_eq!(index_of(&chars("ab"), &[], 3), None);
    assert_eq!(index_of(&chars("ab"), &['a', 'b', 'c'], 0), None);
}

#[test]
fn index_of_agrees_with_the_standard_library() {
    for hay in ["", "a", "${", "a${b", "$${", "${${", "x$y{z", "é${→}"] {
        let by_chars = index_of(&chars(hay), &['$', '{'], 0);
        let expected = hay.find("${").map(|at| hay[..at].chars().count());
        assert_eq!(by_chars, expected, "{hay:?}");
    }
}

#[test]
fn trim_range_drops_whitespace_on_both_sides() {
    let hay = chars("${  var \t}");
    assert_eq!(trim_range(&hay, 2, 9), (4, 7));
    assert_eq!(trim_range(&hay, 4, 7), (4, 7));
    assert_eq!(trim_range(&hay, 2, 4), (4, 4));
    assert_eq!(trim_range(&hay, 3, 3), (3, 3));
    let inner = chars(" a b ");
    assert_eq!(trim_range(&inner, 0, 5), (1, 4));
}

#[test]
fn whitespace_is_what_the_standard_library_says() {
    for n in 0..=0x11_0000u32 {
        if let Some(c) = char::from_u32(n) {
            assert_eq!(char_is_whitespace(c), c.is_whitespace(), "U+{n:04X}");
        }
    }
}

#[test]
fn trimming_agrees_with_the_standard_library() {
    for s in ["", " ", "a", " a", "a ", "  a b  ", "\t\n a\u{a0}", "\u{3000}x\u{2028}", "\u{200b}x"] {
        let hay = chars(s);
        let (from, to) = trim_range(&hay, 0, hay.len());
        let kept: String = hay[from..to].iter().collect();
        assert_eq!(kept, s.trim(), "{s:?}");
    }
}
