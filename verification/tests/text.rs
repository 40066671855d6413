use ale_gui::text::{blank, characters, join, parse_number, to_decimal, trim_end, white_space};

#[test]
fn texts_are_joined() {
    assert_eq!(join("失败: ", "why"), "失败: why");
    assert_eq!(join("", ""), "");
}

#[test]
fn characters_are_listed() {
    assert_eq!(characters("a步!"), vec!['a', '步', '!']);
}

#[test]
fn numbers_are_written_in_decimal() {
    for n in [0, 7, 10, 99, 100, 4096, 1_000_000, usize::MAX] {
        assert_eq!(to_decimal(n), n.to_string());
    }
}

#[test]
fn numbers_are_read_like_the_standard_library_does() {
    let largest = usize::MAX.to_string();
    let too_large = format!("{largest}0");
    let next = format!("{}1", &largest[..largest.len() - 1].replace('1', "9"));
    for s in [
        "", "+", "-", "0", "7", "+7", "++7", "-7", " 7", "7 ", "007", "4096", "1e3", "12a", "a12", "１２",
        largest.as_str(), too_large.as_str(), next.as_str(), "18446744073709551616",
    ] {
        assert_eq!(parse_number(s), s.parse::<usize>().ok(), "{s}");
    }
}

#[test]
fn written_numbers_read_as_themselves() {
    for n in (0..100_000).step_by(37) {
        assert_eq!(parse_number(&to_decimal(n)), Some(n));
    }
}

#[test]
fn slashes_at_the_end_are_removed() {
    for s in ["", "/", "//", "a", "a/", "a///", "/a", "a/b", "https://例/v1/"] {
        let trimmed = trim_end(s, '/');
        assert_eq!(trimmed, s.trim_end_matches('/'));
        assert_eq!(trim_end(&trimmed, '/'), trimmed);
    }
}

#[test]
fn white_space_is_what_the_standard_library_says() {
    for c in '\0'..=char::MAX {
        assert_eq!(white_space(c), c.is_whitespace(), "{c:?}");
    }
}

#[test]
fn blank_texts_trim_to_nothing() {
    for s in ["", " ", "\t\n \u{3000}", "x", " x ", "\u{200B}"] {
        assert_eq!(blank(s), s.trim().is_empty());
    }
}
