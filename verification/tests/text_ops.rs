use sysview::text::{
    chars_of, contains_chars, lex_less, lines_chars, parse_u32, parse_u64, push_decimal,
    split_chars, split_once_chars, string_of, trim_chars, trim_end_matches_chars, trim_str,
    without_char, Trimmed,
};

fn s(v: &[char]) -> String {
    v.iter().collect()
}

const SAMPLES: &[&str] = &[
    "",
    " ",
    "abc",
    "  padded\t\n",
    "\u{3000}wide\u{a0}",
    "a:b:c",
    ":lead:",
    "x\r\ny\n",
    "one\n\ntwo\r\n",
    "trail\r",
    "\n",
    "1920x1080@60Hz",
    "HzHz",
    "C:\\Windows\\",
    "+42",
    "007",
    "-1",
    "+",
    "18446744073709551615",
    "18446744073709551616",
    "4294967295",
    "4294967296",
    "12 ",
    "ñandú\u{2028}",
];

#[test]
fn decimal_text_matches_std() {
    for n in [0u64, 7, 10, 99, 100, 12345, u64::MAX] {
        let mut out = String::from("n=");
        push_decimal(&mut out, n);
        assert_eq!(out, format!("n={}", n));
    }
}

#[test]
fn chars_round_trip() {
    for t in SAMPLES {
        assert_eq!(string_of(&chars_of(t)), *t);
    }
}

#[test]
fn trim_matches_std() {
    for t in SAMPLES {
        assert_eq!(s(&trim_str(t)), t.trim(), "trim of {:?}", t);
        assert_eq!(
            s(&trim_chars(&chars_of(t), Trimmed::Exactly('"'))),
            t.trim_matches('"')
        );
    }
    assert_eq!(s(&trim_chars(&chars_of("\"5.15\""), Trimmed::Exactly('"'))), "5.15");
}

#[test]
fn contains_matches_std() {
    for t in SAMPLES {
        for p in ["", "a", "Hz", "x", ":", "abc", "zz", "\\"] {
            assert_eq!(contains_chars(&chars_of(t), &chars_of(p)), t.contains(p));
        }
    }
}

#[test]
fn split_matches_std() {
    for t in SAMPLES {
        for c in [':', '\n', 'x', '_', ';'] {
            let ours: Vec<String> = split_chars(&chars_of(t), c).iter().map(|p| s(p)).collect();
            let theirs: Vec<String> = t.split(c).map(String::from).collect();
            assert_eq!(ours, theirs, "split of {:?} at {:?}", t, c);
        }
    }
}

#[test]
fn split_once_matches_std() {
    for t in SAMPLES {
        for c in ['@', 'x', ':'] {
            let ours = split_once_chars(&chars_of(t), c).map(|(a, b)| (s(&a), s(&b)));
            let theirs = t.split_once(c).map(|(a, b)| (a.to_string(), b.to_string()));
            assert_eq!(ours, theirs);
        }
    }
}

#[test]
fn lines_match_std() {
    for t in SAMPLES {
        let ours: Vec<String> = lines_chars(&chars_of(t)).iter().map(|l| s(l)).collect();
        let theirs: Vec<String> = t.lines().map(String::from).collect();
        assert_eq!(ours, theirs, "lines of {:?}", t);
    }
}

#[test]
fn trim_end_matches_matches_std() {
    for t in SAMPLES {
        for p in ["Hz", "z", "\\"] {
            assert_eq!(
                s(&trim_end_matches_chars(&chars_of(t), &chars_of(p))),
                t.trim_end_matches(p)
            );
        }
    }
}

#[test]
fn without_matches_replace() {
    for t in SAMPLES {
        assert_eq!(s(&without_char(&chars_of(t), '\\')), t.replace('\\', ""));
    }
}

#[test]
fn parse_matches_std() {
    for t in SAMPLES {
        assert_eq!(parse_u64(&chars_of(t)), t.parse::<u64>().ok(), "u64 {:?}", t);
        assert_eq!(parse_u32(&chars_of(t)), t.parse::<u32>().ok(), "u32 {:?}", t);
    }
}

#[test]
fn order_matches_std() {
    let versions = ["", "7.4.1", "7.4.10", "7.10.0", "6.2.7", "7", "7.4.1-preview.1"];
    for a in versions {
        for b in versions {
            assert_eq!(lex_less(&chars_of(a), &chars_of(b)), a < b, "{:?} < {:?}", a, b);
        }
    }
}

#[test]
fn printed_numbers_parse_back() {
    for n in [0u64, 9, 10, 4294967295, 4294967296, u64::MAX] {
        let mut text = String::new();
        push_decimal(&mut text, n);
        assert_eq!(parse_u64(&chars_of(&text)), Some(n));
        assert_eq!(parse_u32(&chars_of(&text)), u32::try_from(n).ok());
    }
}

#[test]
fn split_once_loses_only_the_separator() {
    for t in SAMPLES {
        let v = chars_of(t);
        match split_once_chars(&v, ':') {
            Some((a, b)) => {
                assert_eq!(format!("{}:{}", s(&a), s(&b)), *t);
                assert!(!a.contains(&':'));
            }
            None => assert!(!t.contains(':')),
        }
    }
}
