use ssg::pattern::{scan, weave};
use ssg::text::{
    chars_of, decimal_chars, replace_all, split_lines, strip_prefixes, strip_trailing, trimmed,
    trimmed_end, trimmed_start, up_to,
};

fn chars(s: &str) -> Vec<char> {
    s.chars().collect()
}

fn string_of(v: &Vec<char>) -> String {
    v.iter().collect()
}

fn lines(s: &str) -> Vec<String> {
    split_lines(&chars(s)).iter().map(|l| l.iter().collect()).collect()
}

#[test]
fn conversions_keep_the_characters() {
    assert_eq!(chars_of("héllo ☃"), chars("héllo ☃"));
    assert_eq!(chars_of(""), chars(""));
    let theorem = ssg::formatted_text::Theorem {
        name: "satz".to_string(),
        label: "Sätze ☃".to_string(),
        numbered: false,
    };
    assert_eq!(theorem.label(1), "Sätze ☃");
}

#[test]
fn decimal_numbers() {
    assert_eq!(decimal_chars(0), chars("0"));
    assert_eq!(decimal_chars(9), chars("9"));
    assert_eq!(decimal_chars(10), chars("10"));
    assert_eq!(decimal_chars(1234567890), chars("1234567890"));
    assert_eq!(decimal_chars(usize::MAX), chars(&usize::MAX.to_string()));
}

#[test]
fn lines_are_split_as_the_standard_library_does() {
    for text in ["", "a", "a\n", "a\nb", "a\r\nb\r\n", "\n", "\n\n", "a\rb\n", "a\r", "\r\n", "a\n\nb", "x\r\r\ny"] {
        let expected: Vec<String> = text.lines().map(|l| l.to_string()).collect();
        assert_eq!(lines(text), expected, "lines of {:?}", text);
    }
}

#[test]
fn trimming_follows_unicode_whitespace() {
    for text in ["", "  a  ", "\t\u{a0}x y\u{2003}\n", "   ", "a", "\u{feff}a"] {
        assert_eq!(string_of(&trimmed(&chars(text))), text.trim());
        assert_eq!(string_of(&trimmed_start(&chars(text))), text.trim_start());
        assert_eq!(string_of(&trimmed_end(&chars(text))), text.trim_end());
    }
}

#[test]
fn stripping_agrees_with_the_standard_library() {
    for text in ["", "\\begin{x}", "\\begin{\\begin{x}}", "x}}", "}}", "a}b}", "\\begin{", "ab"] {
        let got: String = strip_prefixes(&chars(text), "\\begin{").iter().collect();
        assert_eq!(got, text.trim_start_matches("\\begin{"));
        let got: String = strip_trailing(&chars(text), '}').iter().collect();
        assert_eq!(got, text.trim_end_matches('}'));
        let got: String = up_to(&chars(text), '}').iter().collect();
        assert_eq!(got, text.splitn(2, '}').next().unwrap_or(""));
    }
}

#[test]
fn stripping_and_cutting() {
    assert_eq!(strip_prefixes(&chars("ababc"), "ab"), chars("c"));
    assert_eq!(strip_prefixes(&chars("abc"), ""), chars("abc"));
    assert_eq!(strip_prefixes(&chars("abab"), "ab"), chars(""));
    assert_eq!(strip_trailing(&chars("x}}"), '}'), chars("x"));
    assert_eq!(strip_trailing(&chars("}}"), '}'), chars(""));
    assert_eq!(up_to(&chars("a}b}"), '}'), chars("a"));
    assert_eq!(up_to(&chars("ab"), '}'), chars("ab"));
}

#[test]
fn replacing_follows_the_standard_library() {
    for (text, pat, to) in [
        ("aaa", "aa", "b"),
        ("abcabc", "bc", ""),
        ("abc", "x", "y"),
        ("", "x", "y"),
        ("$$\\begin{equation}", "$$\\begin{equation}", "\\begin{equation}"),
        ("ababab", "aba", "X"),
    ] {
        assert_eq!(string_of(&replace_all(&chars(text), pat, to)), text.replace(pat, to));
    }
    assert_eq!(replace_all(&chars("abc"), "", "x"), chars("abc"));
}

#[test]
fn scan_finds_matches_groups_and_gaps() {
    let scanned = scan(r"(\d+)(x)?", &chars("a12b3xc"));
    assert_eq!(scanned.gaps, vec![chars("a"), chars("b"), chars("c")]);
    assert_eq!(scanned.found.len(), 2);
    assert_eq!(scanned.found[0].groups, vec![Some(chars("12")), Some(chars("12")), None]);
    assert_eq!(
        scanned.found[1].groups,
        vec![Some(chars("3x")), Some(chars("3")), Some(chars("x"))]
    );
    let whole: Vec<Vec<char>> =
        scanned.found.iter().map(|f| f.groups[0].clone().unwrap()).collect();
    assert_eq!(weave(&scanned.gaps, &whole), chars("a12b3xc"));
}

#[test]
fn scan_of_a_text_without_matches_is_one_gap() {
    let scanned = scan(r"\d", &chars("abc"));
    assert!(scanned.found.is_empty());
    assert_eq!(scanned.gaps, vec![chars("abc")]);
}

#[test]
fn pattern_that_is_refused_matches_nothing() {
    let scanned = scan(r"(", &chars("a(b"));
    assert!(scanned.found.is_empty());
    assert_eq!(scanned.gaps, vec![chars("a(b")]);
}

#[test]
fn empty_matches_leave_the_text_whole() {
    let scanned = scan(r"", &chars("ab"));
    assert_eq!(scanned.found.len(), 3);
    assert_eq!(scanned.gaps, vec![chars(""), chars("a"), chars("b"), chars("")]);
}

#[test]
fn whitespace_is_the_unicode_property() {
    let mut c = '\0';
    loop {
        let listed = matches!(
            c,
            '\u{9}'..='\u{d}'
                | ' '
                | '\u{85}'
                | '\u{a0}'
                | '\u{1680}'
                | '\u{2000}'..='\u{200a}'
                | '\u{2028}'
                | '\u{2029}'
                | '\u{202f}'
                | '\u{205f}'
                | '\u{3000}'
        );
        assert_eq!(trimmed(&vec![c]).is_empty(), listed, "{:?}", c);
        if c == char::MAX {
            break;
        }
        c = char::from_u32(c as u32 + 1).unwrap_or('\u{e000}');
    }
}
