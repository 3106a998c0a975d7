use utmvm::text::{
    decimal_string, lines_of, same_chars, split_of, splitn3_of, str_eq, string_of, trim_text,
    trim_vec, words_of,
};

fn chars(s: &str) -> Vec<char> {
    s.chars().collect()
}

fn strings(v: Vec<Vec<char>>) -> Vec<String> {
    v.into_iter().map(|p| p.into_iter().collect()).collect()
}

const SAMPLES: [&str; 14] = [
    "",
    "\n",
    "a",
    "a\n",
    "a\r",
    "a\r\n",
    "a\nb",
    "a\r\nb\r\n\r\n",
    "\n\nx\n",
    " \t a b\u{3000}c \u{a0}",
    "x\t\ty\tz\tw",
    "\u{2028}mixed\u{85} space\u{1680}",
    "a:b::c:",
    "tab\tonly",
];

#[test]
fn lines_agree_with_std() {
    for s in SAMPLES {
        let ours = strings(lines_of(&chars(s)));
        let std: Vec<String> = s.lines().map(|l| l.to_string()).collect();
        assert_eq!(ours, std, "{s:?}");
    }
}

#[test]
fn trim_agrees_with_std() {
    for s in SAMPLES {
        assert_eq!(trim_text(s), s.trim(), "{s:?}");
        let t: String = trim_vec(&chars(s)).into_iter().collect();
        assert_eq!(t, s.trim());
    }
}

#[test]
fn words_agree_with_std() {
    for s in SAMPLES {
        let ours = strings(words_of(&chars(s)));
        let std: Vec<String> = s.split_whitespace().map(|l| l.to_string()).collect();
        assert_eq!(ours, std, "{s:?}");
    }
}

#[test]
fn split_agrees_with_std() {
    for s in SAMPLES {
        for sep in [':', '\t', '\n'] {
            let ours = strings(split_of(&chars(s), sep));
            let std: Vec<String> = s.split(sep).map(|l| l.to_string()).collect();
            assert_eq!(ours, std, "{s:?}");
        }
    }
}

#[test]
fn splitn3_agrees_with_std() {
    for s in SAMPLES {
        let ours = strings(splitn3_of(&chars(s), '\t'));
        let std: Vec<String> = s.splitn(3, '\t').map(|l| l.to_string()).collect();
        assert_eq!(ours, std, "{s:?}");
    }
}

#[test]
fn decimal_text() {
    for n in [0u64, 7, 10, 99, 100, 20480, u64::MAX] {
        assert_eq!(decimal_string(n), n.to_string());
    }
}

#[test]
fn string_of_and_equality() {
    assert_eq!(string_of(&['h', 'é', '!']), "hé!");
    assert!(str_eq("abc", "abc"));
    assert!(!str_eq("abc", "abd"));
    assert!(!str_eq("abc", "ab"));
    assert!(same_chars(&chars("xy"), &chars("xy")));
    assert!(!same_chars(&chars("xy"), &chars("yx")));
}

#[test]
fn whitespace_matches_std() {
    for c in ['\t', '\n', '\u{b}', '\u{c}', '\r', ' ', '\u{85}', '\u{a0}', '\u{1680}', '\u{2000}',
        '\u{200a}', '\u{2028}', '\u{2029}', '\u{202f}', '\u{205f}', '\u{3000}', 'a', '\u{200b}',
        '\u{180e}', '\u{feff}', '0', '\u{1f}']
    {
        assert_eq!(utmvm::text::is_whitespace(c), c.is_whitespace(), "{c:?}");
    }
}

#[test]
fn trimming_twice_is_trimming_once() {
    for s in SAMPLES {
        let once = trim_text(s);
        assert_eq!(trim_text(&once), once);
    }
}
