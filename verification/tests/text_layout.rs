use gift::banner::{ascii_banner, letter_rows, to_ascii_upper};
use gift::format::{format_date_added, format_duration, format_seconds, marquee_text};
use gift::text::{char_width, push_decimal};
use gift::wrap::wrap_text;

#[test]
fn wrap_text_breaks_greedily() {
    let lines = wrap_text("the quick brown fox jumps", 10);
    assert_eq!(lines, vec!["the quick", "brown fox", "jumps"]);
}

#[test]
fn wrap_text_collapses_whitespace() {
    let lines = wrap_text("  a \t b\n\nc  ", 80);
    assert_eq!(lines, vec!["a b c"]);
}

#[test]
fn wrap_text_long_word_alone() {
    let lines = wrap_text("hi extraordinarily ok", 5);
    assert_eq!(lines, vec!["hi", "extraordinarily", "ok"]);
}

#[test]
fn wrap_text_empty_and_blank() {
    assert!(wrap_text("", 10).is_empty());
    assert!(wrap_text("   \n ", 10).is_empty());
}

#[test]
fn wrap_text_counts_bytes() {
    // "é" is two bytes: "é é" is 5 bytes, which does not fit in 4.
    assert_eq!(wrap_text("é é", 4), vec!["é", "é"]);
    assert_eq!(wrap_text("é é", 5), vec!["é é"]);
}

#[test]
fn wrap_text_exact_fit() {
    assert_eq!(wrap_text("ab cd", 5), vec!["ab cd"]);
    assert_eq!(wrap_text("ab cd", 4), vec!["ab", "cd"]);
}

#[test]
fn wrap_text_unicode_whitespace() {
    // U+3000 IDEOGRAPHIC SPACE separates words; U+200B (zero width space) does not.
    assert_eq!(wrap_text("a\u{3000}b", 80), vec!["a b"]);
    assert_eq!(wrap_text("a\u{200B}b", 80), vec!["a\u{200B}b"]);
}

#[test]
fn wrap_text_zero_width() {
    assert_eq!(wrap_text("a b", 0), vec!["a", "b"]);
}

#[test]
fn letter_rows_known_letter() {
    let rows = letter_rows('H');
    assert_eq!(rows[0], "██╗  ██╗");
    assert_eq!(rows[5], "╚═╝  ╚═╝");
    assert_eq!(letter_rows('h'), rows);
}

#[test]
fn letter_rows_unknown_is_blank() {
    assert_eq!(letter_rows(' '), ["   "; 6]);
    assert_eq!(letter_rows('z'), ["   "; 6]);
}

#[test]
fn letter_rows_rows_aligned() {
    for c in "ABDHIMPRTYQ ".chars() {
        let rows = letter_rows(c);
        let w = rows[0].chars().count();
        assert!(rows.iter().all(|r| r.chars().count() == w));
    }
    assert_eq!(letter_rows('M')[0].chars().count(), 11);
    assert_eq!(letter_rows('I')[0].chars().count(), 3);
}

#[test]
fn ascii_banner_joins_glyphs() {
    let rows = ascii_banner("Hi");
    assert_eq!(rows[0], format!("{}{}", letter_rows('H')[0], letter_rows('I')[0]));
    for r in rows.iter() {
        assert_eq!(r.chars().count(), 11);
    }
    let empty: [String; 6] = Default::default();
    assert_eq!(ascii_banner(""), empty);
}

#[test]
fn ascii_banner_title_width() {
    let rows = ascii_banner("HAPPY BIRTHDAY");
    let w = rows[0].chars().count();
    assert!(rows.iter().all(|r| r.chars().count() == w));
    // H A P P Y _ B I R T H D A Y
    assert_eq!(w, 8 + 8 + 8 + 8 + 9 + 3 + 8 + 3 + 8 + 9 + 8 + 8 + 8 + 9);
}

#[test]
fn to_ascii_upper_matches_std() {
    for c in ['a', 'z', 'A', '1', 'é', ' ', '{', '`'] {
        assert_eq!(to_ascii_upper(c), c.to_ascii_uppercase());
    }
}

#[test]
fn char_width_matches_std() {
    for c in ['a', '\u{7f}', '\u{80}', 'é', '\u{7ff}', '\u{800}', '█', '\u{ffff}', '\u{10000}', '\u{10ffff}'] {
        assert_eq!(char_width(c), c.len_utf8());
    }
}

#[test]
fn decimal_digits() {
    let mut s = String::from("n=");
    push_decimal(&mut s, 0);
    push_decimal(&mut s, 1907);
    assert_eq!(s, "n=01907");
    let mut t = String::new();
    push_decimal(&mut t, u64::MAX);
    assert_eq!(t, u64::MAX.to_string());
}

#[test]
fn format_date_added_typical() {
    assert_eq!(format_date_added("2024-03-05T10:00:00Z"), "Mar 5, 2024");
    assert_eq!(format_date_added("2013-06-13"), "Jun 13, 2013");
    assert_eq!(format_date_added("2020-12-31"), "Dec 31, 2020");
}

#[test]
fn format_date_added_every_month() {
    let names = ["Jan", "Feb", "Mar", "Apr", "May", "Jun", "Jul", "Aug", "Sep", "Oct", "Nov", "Dec"];
    for (i, n) in names.iter().enumerate() {
        let raw = format!("2022-{:02}-17", i + 1);
        assert_eq!(format_date_added(&raw), format!("{} 17, 2022", n));
    }
}

#[test]
fn format_date_added_edge_cases() {
    // too short: unchanged
    assert_eq!(format_date_added("2024-03"), "2024-03");
    assert_eq!(format_date_added(""), "");
    // unknown month kept
    assert_eq!(format_date_added("2024-13-09"), "13 9, 2024");
    // day of zeros
    assert_eq!(format_date_added("2024-01-00"), "Jan 0, 2024");
    // not three pieces: the first ten bytes
    assert_eq!(format_date_added("2024/03/05 and more"), "2024/03/05");
    assert_eq!(format_date_added("20-24-03-05"), "20-24-03-0");
    // multi-byte characters within the first ten bytes
    assert_eq!(format_date_added("é024-03-0X"), "Mar 0, é024");
}

#[test]
fn format_seconds_values() {
    assert_eq!(format_seconds(0), "0:00");
    assert_eq!(format_seconds(59), "0:59");
    assert_eq!(format_seconds(65), "1:05");
    assert_eq!(format_seconds(3600), "60:00");
    assert_eq!(format_seconds(u32::MAX), format!("{}:{:02}", u32::MAX / 60, u32::MAX % 60));
}

#[test]
fn format_duration_values() {
    assert_eq!(format_duration(0), "0 min 0 sec");
    assert_eq!(format_duration(185), "3 min 5 sec");
    assert_eq!(format_duration(3600), "60 min 0 sec");
    assert_eq!(format_duration(3660), "1 hr 1 min");
    assert_eq!(format_duration(7325), "2 hr 2 min");
}

#[test]
fn marquee_text_short_title_whole() {
    assert_eq!(marquee_text("Butter", 10, 3), "Butter");
    assert_eq!(marquee_text("Butter", 6, 99), "Butter");
}

#[test]
fn marquee_text_scrolls() {
    assert_eq!(marquee_text("Dynamite", 4, 0), "Dyna");
    assert_eq!(marquee_text("Dynamite", 4, 6), "te  ");
    assert_eq!(marquee_text("Dynamite", 4, 16), "  Dy");
    // period of length + 10
    assert_eq!(marquee_text("Dynamite", 4, 18), marquee_text("Dynamite", 4, 0));
    for off in 0..40 {
        assert_eq!(marquee_text("Dynamite", 4, off).chars().count(), 4);
    }
}

#[test]
fn marquee_text_wraps_into_second_copy() {
    assert_eq!(marquee_text("Dynamite", 7, 15), "   Dyna");
    assert_eq!(marquee_text("Dynamite", 7, 12), "      D");
    assert_eq!(marquee_text("Dynamite", 7, 20), "namite ");
}

#[test]
fn marquee_text_counts_chars() {
    assert_eq!(marquee_text("소우주 Mikrokosmos", 5, 0), "소우주 M");
}
