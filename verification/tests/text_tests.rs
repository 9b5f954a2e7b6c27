use tweakers::text::{
    chars_of, fields_vec, find_vec, lines_vec, parse_u32_or_zero, parse_u64_or_zero,
    parse_unsigned_vec, push_decimal, replace_char_vec, trim, words_of, words_vec,
};

fn s(v: &[char]) -> String {
    v.iter().collect()
}

const SAMPLES: &[&str] = &[
    "",
    " ",
    "abc",
    "  padded  ",
    "\tline one\nline two\r\nline three\r",
    "a\n\nb\n",
    "\n",
    "\r\n",
    "x\r",
    "trailing\n\n",
    "\u{a0}nbsp\u{3000}",
    "one  two\tthree\u{2003}four",
    "k=v=w",
    "==",
    "a|b||c|",
    "émoji 🎵 text",
];

#[test]
fn trim_matches_std() {
    for t in SAMPLES {
        assert_eq!(trim(t), t.trim(), "input {:?}", t);
    }
}

#[test]
fn words_match_std() {
    for t in SAMPLES {
        let ours = words_of(t);
        let std: Vec<String> = t.split_whitespace().map(|w| w.to_string()).collect();
        assert_eq!(ours, std, "input {:?}", t);
        let v = words_vec(&chars_of(t));
        assert_eq!(v.len(), std.len());
    }
}

#[test]
fn lines_match_std() {
    for t in SAMPLES {
        let ours: Vec<String> = lines_vec(&chars_of(t)).iter().map(|l| s(l)).collect();
        let std: Vec<String> = t.lines().map(|l| l.to_string()).collect();
        assert_eq!(ours, std, "input {:?}", t);
    }
}

#[test]
fn fields_match_std() {
    for t in SAMPLES {
        for sep in ['=', '|', ' ', '\n'] {
            let ours: Vec<String> = fields_vec(&chars_of(t), sep).iter().map(|f| s(f)).collect();
            let std: Vec<String> = t.split(sep).map(|f| f.to_string()).collect();
            assert_eq!(ours, std, "input {:?} sep {:?}", t, sep);
        }
    }
}

#[test]
fn find_matches_std() {
    for t in SAMPLES {
        for needle in ["", "a", "line", "\n", "=", "🎵", "zz"] {
            let ours = find_vec(&chars_of(t), &chars_of(needle));
            let std = t.find(needle).map(|b| t[..b].chars().count());
            assert_eq!(ours, std, "input {:?} needle {:?}", t, needle);
        }
    }
}

#[test]
fn parse_matches_std() {
    let cases = [
        "0", "7", "+7", "-7", "+", "", " 5 ", "12a", "4294967295", "4294967296",
        "18446744073709551615", "18446744073709551616", "007", "99999999999999999999999",
    ];
    for c in cases {
        assert_eq!(
            parse_unsigned_vec(&chars_of(c), u64::MAX),
            c.parse::<u64>().ok(),
            "u64 {:?}",
            c
        );
        assert_eq!(
            parse_unsigned_vec(&chars_of(c), u32::MAX as u64),
            c.parse::<u32>().ok().map(|v| v as u64),
            "u32 {:?}",
            c
        );
        assert_eq!(parse_u64_or_zero(c), c.trim().parse::<u64>().unwrap_or(0));
        assert_eq!(parse_u32_or_zero(c), c.trim().parse::<u32>().unwrap_or(0));
    }
}

#[test]
fn decimal_matches_display() {
    for n in [0u64, 1, 9, 10, 65535, 4294967295, u64::MAX] {
        let mut out = String::from("n=");
        push_decimal(&mut out, n);
        assert_eq!(out, format!("n={}", n));
    }
}

#[test]
fn written_number_reads_back() {
    for n in [0u32, 1, 60, 100, 4294967295] {
        let mut out = String::new();
        push_decimal(&mut out, n as u64);
        assert_eq!(parse_u32_or_zero(&out), n);
    }
}

#[test]
fn replace_matches_std() {
    for t in SAMPLES {
        assert_eq!(replace_char_vec(&chars_of(t), '\n', " | "), t.replace('\n', " | "));
    }
}

#[test]
fn trim_is_idempotent() {
    for t in SAMPLES {
        let once = trim(t);
        assert_eq!(trim(&once), once);
    }
}

#[test]
fn words_are_nonempty_and_bare() {
    for t in SAMPLES {
        for w in words_of(t) {
            assert!(!w.is_empty());
            assert!(!w.chars().any(char::is_whitespace));
        }
    }
}

#[test]
fn lines_hold_no_newline() {
    for t in SAMPLES {
        for l in lines_vec(&chars_of(t)) {
            assert!(!l.contains(&'\n'));
        }
    }
}
