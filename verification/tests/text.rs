use parrot::text::{blank, chars_of, is_space, lines, text_from, trim};

const SAMPLES: [&str; 28] = [
    "",
    "\n",
    "\r",
    "\r\n",
    "\n\n",
    "a",
    "a\n",
    "a\r",
    "a\r\n",
    "a\nb",
    "a\r\nb",
    "a\rb",
    "a\r\r\n",
    "a\n\r",
    "a\n\r\n",
    "\na",
    "\r\na\r",
    "a\n\nb\n\n",
    "one\ntwo\r\nthree",
    "  lead and trail  \n\tx\t\n",
    " \u{a0}\u{3000}\n",
    "\u{2028}line\u{2029}",
    "\u{85}next\u{85}",
    "h\u{e9}llo w\u{f6}rld\n\u{1f99c} parrot \u{1f99c}\r\n",
    "\u{feff}bom",
    "\u{200b}zero width\u{200b}",
    "\u{180e}mongolian\u{180e}",
    " \t\r\n\u{b}\u{c} ",
];

#[test]
fn is_space_is_the_white_space_of_std() {
    let mut c = 0u32;
    while c <= 0x10ffff {
        if let Some(ch) = char::from_u32(c) {
            assert_eq!(is_space(ch), ch.is_whitespace(), "U+{:04X}", c);
        }
        c += 1;
    }
}

#[test]
fn lines_are_the_lines_of_std() {
    for sample in SAMPLES {
        let expected: Vec<String> = sample.lines().map(|l| l.to_string()).collect();
        assert_eq!(lines(sample), expected, "{:?}", sample);
    }
}

#[test]
fn lines_by_example() {
    assert_eq!(lines("a\r\nb\n\nc"), vec!["a", "b", "", "c"]);
    assert_eq!(lines("a\n"), vec!["a"]);
    assert_eq!(lines("a\r"), vec!["a\r"]);
    assert_eq!(lines("\n"), vec![""]);
    assert!(lines("").is_empty());
}

#[test]
fn trim_is_the_trim_of_std() {
    for sample in SAMPLES {
        assert_eq!(trim(sample), sample.trim(), "{:?}", sample);
    }
}

#[test]
fn trim_by_example() {
    assert_eq!(trim("  deploy\n"), "deploy");
    assert_eq!(trim("two words"), "two words");
    assert_eq!(trim(" \t two  words \r\n"), "two  words");
    assert_eq!(trim(" \n\t"), "");
    assert_eq!(trim(""), "");
}

#[test]
fn blank_is_an_empty_trim() {
    for sample in SAMPLES {
        assert_eq!(blank(sample), sample.trim().is_empty(), "{:?}", sample);
    }
    assert!(blank(""));
    assert!(blank(" \t "));
    assert!(!blank(" x "));
}

#[test]
fn chars_and_back() {
    for sample in SAMPLES {
        let chars = chars_of(sample);
        let expected: Vec<char> = sample.chars().collect();
        assert_eq!(chars, expected);
        assert_eq!(text_from(&chars, 0, chars.len()), sample);
    }
    let chars = chars_of("h\u{e9}llo");
    assert_eq!(text_from(&chars, 1, 3), "\u{e9}l");
    assert_eq!(text_from(&chars, 2, 2), "");
}
