use poster::text::{
    content_preview, newlines_to_breaks, pad_seconds, parse_u64_decimal, trimmed, u64_to_decimal,
};

#[test]
fn decimal_of_small_and_large_numbers() {
    assert_eq!(u64_to_decimal(0), "0");
    assert_eq!(u64_to_decimal(7), "7");
    assert_eq!(u64_to_decimal(10), "10");
    assert_eq!(u64_to_decimal(1431648000), "1431648000");
    assert_eq!(u64_to_decimal(u64::MAX), "18446744073709551615");
}

#[test]
fn padded_seconds_have_twenty_digits() {
    assert_eq!(pad_seconds(0), "00000000000000000000");
    assert_eq!(pad_seconds(1431648000), "00000000001431648000");
    assert_eq!(pad_seconds(u64::MAX), "18446744073709551615");
    assert_eq!(pad_seconds(12345).len(), 20);
}

#[test]
fn padded_seconds_sort_as_text_in_time_order() {
    let times = [0u64, 9, 10, 99, 100, 1431648000, 1700000000, u64::MAX - 1, u64::MAX];
    for a in times {
        for b in times {
            assert_eq!(pad_seconds(a) < pad_seconds(b), a < b);
            assert_eq!(pad_seconds(a) == pad_seconds(b), a == b);
        }
    }
    // Without padding the text order would differ.
    assert!(u64_to_decimal(9) > u64_to_decimal(10));
    assert!(pad_seconds(9) < pad_seconds(10));
}

#[test]
fn parsing_reads_back_padded_seconds() {
    for n in [0u64, 1, 42, 1431648000, u64::MAX] {
        assert_eq!(parse_u64_decimal(&pad_seconds(n)), Some(n));
    }
    assert_eq!(parse_u64_decimal("123"), Some(123));
    assert_eq!(parse_u64_decimal(""), None);
    assert_eq!(parse_u64_decimal("12a"), None);
    assert_eq!(parse_u64_decimal("-1"), None);
    assert_eq!(parse_u64_decimal("+1"), None);
    assert_eq!(parse_u64_decimal("18446744073709551616"), None);
    assert_eq!(parse_u64_decimal("99999999999999999999"), None);
    assert_eq!(parse_u64_decimal("99999999999999999999x"), None);
}

#[test]
fn trimming_removes_unicode_white_space_at_both_ends() {
    assert_eq!(trimmed("  hello \t\n"), "hello");
    assert_eq!(trimmed("\u{3000}x y\u{a0}\u{2028}"), "x y");
    assert_eq!(trimmed("   "), "");
    assert_eq!(trimmed(""), "");
    assert_eq!(trimmed("a"), "a");
    for s in ["  a b  ", "\r\n\tx\u{85}", "\u{200b}y"] {
        assert_eq!(trimmed(s), s.trim());
    }
}

#[test]
fn newlines_become_line_breaks() {
    assert_eq!(newlines_to_breaks("a\nb"), "a<br />b");
    assert_eq!(newlines_to_breaks("\n\n"), "<br /><br />");
    assert_eq!(newlines_to_breaks("no breaks"), "no breaks");
    assert_eq!(newlines_to_breaks(""), "");
}

#[test]
fn preview_keeps_four_lines() {
    assert_eq!(content_preview("a\nb\nc\nd\ne"), Some("a<br />b<br />c<br />d".to_string()));
    assert_eq!(content_preview("one line"), Some("one line".to_string()));
    assert_eq!(content_preview(""), Some(String::new()));
}

#[test]
fn preview_marks_a_shortened_body() {
    assert_eq!(content_preview("a\n"), Some("a...".to_string()));
    let long = "x".repeat(600);
    let expected = "x".repeat(500) + "...";
    assert_eq!(content_preview(&long), Some(expected));
    let exact = "y".repeat(500);
    assert_eq!(content_preview(&exact), Some(exact.clone()));
}

#[test]
fn preview_handles_carriage_returns_like_str_lines() {
    assert_eq!(content_preview("a\r\nb\r"), Some("a<br />b\r".to_string()));
    assert_eq!(content_preview("a\r\r\nb"), Some("a\r<br />b".to_string()));
}

#[test]
fn preview_cut_inside_a_character_is_refused() {
    let body = "a".to_string() + &"\u{e9}".repeat(300);
    assert_eq!(content_preview(&body), None);
    let body = "\u{e9}".repeat(300);
    let expected = "\u{e9}".repeat(250) + "...";
    assert_eq!(content_preview(&body), Some(expected));
}

#[test]
fn preview_is_bounded() {
    for body in ["z".repeat(10_000), "l\n".repeat(1000), "\u{1F600}".repeat(200)] {
        if let Some(p) = content_preview(&body) {
            assert!(p.len() <= 503);
        }
    }
}

fn preview_with_std(full_content: &str) -> String {
    let first_four_lines = full_content.lines().take(4).collect::<Vec<&str>>().join("<br />");
    let content_str = &first_four_lines[0..first_four_lines.len().min(500)];
    if content_str.len() < full_content.len() {
        content_str.to_string() + "..."
    } else {
        content_str.to_string()
    }
}

#[test]
fn preview_agrees_with_std_lines_and_byte_slicing() {
    let bodies = [
        "".to_string(),
        "\n".to_string(),
        "\n\n\n\n\n".to_string(),
        "a\nb\n".to_string(),
        "a\r\nb\r\nc\r\nd\r\ne".to_string(),
        "tail\r".to_string(),
        "\r\n".to_string(),
        "x\n".repeat(3) + &"y".repeat(700),
        "w".repeat(498) + "\u{e9}" + "zz",
        "\u{1F600}".repeat(125) + "more",
    ];
    for body in bodies {
        let first_four = body.lines().take(4).collect::<Vec<&str>>().join("<br />");
        let cut = first_four.len().min(500);
        if first_four.is_char_boundary(cut) {
            assert_eq!(content_preview(&body), Some(preview_with_std(&body)), "{:?}", body);
        } else {
            assert_eq!(content_preview(&body), None, "{:?}", body);
        }
    }
}

#[test]
fn decimal_agrees_with_to_string() {
    for n in [0u64, 1, 9, 10, 11, 99, 100, 12345, 4294967295, 4294967296, u64::MAX / 3, u64::MAX] {
        assert_eq!(u64_to_decimal(n), n.to_string());
    }
}
