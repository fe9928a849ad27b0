use sonate::words::{contains_word, is_whitespace_char, split_words};

fn chars(s: &str) -> Vec<char> {
    s.chars().collect()
}

#[test]
fn whitespace_matches_std() {
    for u in 0u32..0x3100 {
        if let Some(c) = char::from_u32(u) {
            assert_eq!(is_whitespace_char(c), c.is_whitespace(), "char {:#x}", u);
        }
    }
}

#[test]
fn split_words_matches_split_whitespace() {
    for s in ["", "   ", "a", " a b  c ", "\u{3000}x\u{a0}y\t", "one-word"] {
        let got: Vec<String> = split_words(&chars(s)).into_iter().map(|w| w.into_iter().collect()).collect();
        let want: Vec<String> = s.split_whitespace().map(|w| w.to_string()).collect();
        assert_eq!(got, want, "input {:?}", s);
    }
}

#[test]
fn contains_word_is_whole_word_membership() {
    assert!(contains_word(&chars("btn primary"), &chars("primary")));
    assert!(contains_word(&chars("btn primary"), &chars("btn")));
    assert!(!contains_word(&chars("btn primary"), &chars("prim")));
    assert!(!contains_word(&chars("btn primary"), &chars("")));
    assert!(!contains_word(&chars("btn primary"), &chars("btn primary")));
    assert!(!contains_word(&chars(""), &chars("x")));
}
