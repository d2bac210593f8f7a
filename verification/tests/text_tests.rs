use rpi_control::text::{parse_u32, remove_pattern, split_at_char, string_of, text_contains};

fn chars(s: &str) -> Vec<char> {
    s.chars().collect()
}

#[test]
fn parse_agrees_with_std() {
    for s in [
        "", "+", "-", "0", "+0", "007", "42", "+42", "-1", "1a", " 1", "4294967295",
        "4294967296", "99999999999", "++1", "٣",
    ] {
        assert_eq!(parse_u32(&chars(s)), s.parse::<u32>().ok(), "input {:?}", s);
    }
}

#[test]
fn split_agrees_with_std() {
    for s in ["", ":", "a:b", "0:50:100", "::x:", "no colon", "é:ü"] {
        let ours: Vec<String> = split_at_char(&chars(s), ':').iter().map(string_of).collect();
        let std: Vec<String> = s.split(':').map(|p| p.to_string()).collect();
        assert_eq!(ours, std, "input {:?}", s);
    }
}

#[test]
fn removal_agrees_with_replace() {
    for (s, p) in [("temp=1", "temp="), ("aaaa", "aa"), ("aaa", "aa"), ("xtemp=y", "temp="), ("", "x")] {
        let ours = string_of(&remove_pattern(&chars(s), &chars(p)));
        assert_eq!(ours, s.replace(p, ""), "input {:?}", s);
    }
}

#[test]
fn contains_agrees_with_std() {
    for (h, n) in [("abc", "bc"), ("abc", "cd"), ("abc", ""), ("", ""), ("", "a"), ("ab", "abc")] {
        assert_eq!(text_contains(&chars(h), &chars(n)), h.contains(n), "{:?} {:?}", h, n);
    }
}
