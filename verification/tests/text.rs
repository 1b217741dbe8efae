use startup_millenium::text::{parse_u32, parse_u64, proc_field, push_decimal};

fn decimal(n: u32) -> String {
    let mut s = String::new();
    push_decimal(&mut s, n);
    s
}

#[test]
fn test_decimal_formatting() {
    assert_eq!(decimal(0), "0");
    assert_eq!(decimal(7), "7");
    assert_eq!(decimal(10), "10");
    assert_eq!(decimal(4000), "4000");
    assert_eq!(decimal(u32::MAX), "4294967295");
    let mut s = String::from("id=");
    push_decimal(&mut s, 42);
    assert_eq!(s, "id=42");
}

#[test]
fn test_parse_u32_like_std() {
    for text in ["0", "123", "+5", "007", "4294967295", "4294967296", "", "+", "-", "-1", "++1", "1 ", " 1", "1a", "٣"] {
        assert_eq!(parse_u32(text), text.parse::<u32>().ok(), "parsing {:?}", text);
    }
}

#[test]
fn test_parse_u64_like_std() {
    for text in ["18446744073709551615", "18446744073709551616", "+18446744073709551615", "1234567", "", "x"] {
        assert_eq!(parse_u64(text), text.parse::<u64>().ok(), "parsing {:?}", text);
    }
}

#[test]
fn test_proc_field_finds_first_matching_line() {
    let status = "Name:\thl2_linux\nUmask:\t0022\nState:\tS (sleeping)\nTgid:\t4242\nNgid:\t0\nPid:\t4243\n";
    assert_eq!(proc_field(status, "Tgid:"), Some("4242".to_string()));
    assert_eq!(proc_field(status, "Name:"), Some("hl2_linux".to_string()));
    assert_eq!(proc_field(status, "Missing:"), None);
    assert_eq!(proc_field("a: 1\na: 2\n", "a:"), Some("1".to_string()));
}

#[test]
fn test_proc_field_line_endings_and_trimming() {
    assert_eq!(proc_field("rchar: 99\r\nwchar: 1", "rchar:"), Some("99".to_string()));
    assert_eq!(proc_field("wchar: 1\nrchar:  12 \t", "rchar:"), Some("12".to_string()));
    assert_eq!(proc_field("k:\u{a0}v\u{3000}\n", "k:"), Some("v".to_string()));
    assert_eq!(proc_field("k:\n", "k:"), Some(String::new()));
    assert_eq!(proc_field("", "k:"), None);
    assert_eq!(proc_field("\n\n", ""), Some(String::new()));
    // A lone carriage return at the very end stays part of the line, and is whitespace.
    assert_eq!(proc_field("k: v\r", "k:"), Some("v".to_string()));
    // The key must start the line.
    assert_eq!(proc_field("xk: 1\n", "k:"), None);
}

#[test]
fn test_proc_field_matches_std_composition() {
    let contents = "rchar: 1\r\n  rchar: 2\nrchar:3 \n";
    let expected = contents
        .lines()
        .find_map(|line| line.strip_prefix("rchar:"))
        .map(|value| value.trim().to_owned());
    assert_eq!(proc_field(contents, "rchar:"), expected);
}
