use testbox::text::{is_whitespace, split_lines, to_chars, from_chars, trim_chars, trim_end_chars, trim_start_chars};

fn s(v: &Vec<char>) -> String {
    v.iter().collect()
}

#[test]
fn whitespace_agrees_with_std_on_low_planes() {
    for u in 0u32..0x11000 {
        if let Some(c) = char::from_u32(u) {
            assert_eq!(is_whitespace(c), c.is_whitespace(), "code point {:x}", u);
        }
    }
}

#[test]
fn trimming_agrees_with_std() {
    let samples = ["", "   ", "  a b  ", "\t\nx\u{3000}", "\u{a0}mid\u{2028}", "no-space"];
    for sample in samples {
        let chars = to_chars(sample);
        assert_eq!(s(&trim_start_chars(&chars)), sample.trim_start());
        assert_eq!(s(&trim_end_chars(&chars)), sample.trim_end());
        assert_eq!(s(&trim_chars(&chars)), sample.trim());
    }
}

#[test]
fn lines_agree_with_std() {
    let samples = ["", "\n", "a", "a\n", "a\r\nb", "a\rb\n\nc", "x\r", "\r\n\r\n", "one\ntwo\nthree"];
    for sample in samples {
        let got: Vec<String> = split_lines(&to_chars(sample)).iter().map(s).collect();
        let want: Vec<String> = sample.lines().map(|l| l.to_string()).collect();
        assert_eq!(got, want, "lines of {:?}", sample);
    }
}

#[test]
fn chars_round_trip() {
    let text = "caf\u{e9} \u{1F4C1} ok";
    assert_eq!(from_chars(&to_chars(text)), text);
}
