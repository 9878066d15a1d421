use galdrar::{checked_lyric_line, parse_lyric_line, StampOverflow, synced_lyric_lines, to_human, LyricLine, Lyrics, NOT_DRAWN, NO_LINE};

fn line(seconds: i64, text: &str) -> LyricLine {
    LyricLine { seconds, lyrics: text.to_string() }
}

fn views(lines: &[LyricLine]) -> Vec<(i64, String)> {
    lines.iter().map(|l| (l.seconds, l.lyrics.clone())).collect()
}

#[test]
fn to_human_pads_minutes_and_seconds() {
    assert_eq!(to_human(75), "01:15");
    assert_eq!(to_human(0), "00:00");
    assert_eq!(to_human(5999), "99:59");
    assert_eq!(to_human(6000), "100:00");
    assert_eq!(to_human(9), "00:09");
}

#[test]
fn to_human_agrees_with_format_on_negative_and_extreme_values() {
    for secs in [-5i64, -65, -600, i64::MIN, i64::MAX, 3599, 3600, 123456] {
        assert_eq!(to_human(secs), format!("{:02}:{:02}", secs / 60, secs % 60));
    }
}

#[test]
fn parse_line_reads_time_and_text() {
    let l = parse_lyric_line("[01:23.45] Hello there").unwrap();
    assert_eq!((l.seconds, l.lyrics.as_str()), (83, "Hello there"));
}

#[test]
fn parse_line_rounds_half_up() {
    assert_eq!(parse_lyric_line("[01:23.50]x").unwrap().seconds, 84);
    assert_eq!(parse_lyric_line("[01:23.49]x").unwrap().seconds, 83);
    assert_eq!(parse_lyric_line("[00:59.9]x").unwrap().seconds, 60);
}

#[test]
fn parse_line_keeps_trailing_space_and_drops_leading() {
    let l = parse_lyric_line("[1:2.3] \t spaced  ").unwrap();
    assert_eq!((l.seconds, l.lyrics.as_str()), (62, "spaced  "));
    let empty = parse_lyric_line("[00:00.00]").unwrap();
    assert_eq!((empty.seconds, empty.lyrics.as_str()), (0, ""));
}

#[test]
fn parse_line_rejects_other_lines() {
    for text in ["[01:23] x", "[ab:cd.ef] x", "01:23.45 x", "[01:23.]x", "[:23.45]x", "[01:.45]x", "", "[01:23.45"] {
        assert!(parse_lyric_line(text).is_none(), "{text}");
    }
}

#[test]
fn parse_line_takes_unicode_digits_as_time_zero() {
    let l = parse_lyric_line("[\u{661}:\u{662}.\u{663}] x").unwrap();
    assert_eq!((l.seconds, l.lyrics.as_str()), (0, "x"));
}

#[test]
fn parse_line_holds_huge_times_at_max() {
    let l = parse_lyric_line("[0:99999999999999999999999.5]x").unwrap();
    assert_eq!(l.seconds, i64::MAX);
}

#[test]
fn synced_lines_skips_untimed_lines() {
    let text = "[00:01.00]a\n[00:02.60]b\r\nnot timed\n[00:03.00]c\n";
    let lines = synced_lyric_lines(text).unwrap();
    assert_eq!(views(&lines), vec![(1, "a".to_string()), (3, "b".to_string()), (3, "c".to_string())]);
}

#[test]
fn synced_lines_refuses_overflowing_minutes() {
    assert!(synced_lyric_lines("[999999999999999999:00.00]x").is_none());
    assert!(synced_lyric_lines("[153722867280912931:00.00]x").is_none());
    assert!(synced_lyric_lines("[153722867280912930:00.00]x").is_some());
}

#[test]
fn convert_text_loads_timed_lines() {
    let mut lyrics = Lyrics::new();
    assert!(lyrics.convert_text("[00:01.00]a\n[00:04.00]b"));
    assert_eq!(views(&lyrics.lines), vec![(1, "a".to_string()), (4, "b".to_string())]);
    // No line is reached at the start, yet the lines are drawn at once.
    assert_eq!(lyrics.rendered_index, NO_LINE);
    let drawn: Vec<(String, String, bool)> =
        lyrics.rendered_text.iter().map(|r| (r.time_label.clone(), r.lyrics.clone(), r.highlighted)).collect();
    assert_eq!(
        drawn,
        vec![("00:01 ".to_string(), "a".to_string(), false), ("00:04 ".to_string(), "b".to_string(), false)]
    );
}

#[test]
fn convert_text_without_timed_lines_changes_nothing() {
    let mut lyrics = Lyrics::new();
    lyrics.set_text(vec![line(0, "kept")]);
    assert!(!lyrics.convert_text("plain text\nno stamps"));
    assert_eq!(views(&lyrics.lines), vec![(0, "kept".to_string())]);
    assert_eq!(lyrics.rendered_index, 0);
}

#[test]
fn current_index_is_last_reached_line() {
    let mut lyrics = Lyrics::new();
    lyrics.set_text(vec![line(1, "a"), line(3, "b"), line(3, "c"), line(10, "d")]);
    assert_eq!(lyrics.current_lyric_index(0), NO_LINE);
    assert_eq!(lyrics.current_lyric_index(999_999), NO_LINE);
    assert_eq!(lyrics.current_lyric_index(1_000_000), 0);
    assert_eq!(lyrics.current_lyric_index(3_500_000), 2);
    assert_eq!(lyrics.current_lyric_index(i64::MAX), 3);
}

#[test]
fn update_style_text_renders_labels_and_highlight() {
    let mut lyrics = Lyrics::new();
    lyrics.set_text(vec![line(1, "a"), line(65, "b")]);
    lyrics.update_style_text(2_000_000);
    assert_eq!(lyrics.rendered_index, 0);
    let drawn: Vec<(String, String, bool)> = lyrics
        .rendered_text
        .iter()
        .map(|r| (r.time_label.clone(), r.lyrics.clone(), r.highlighted))
        .collect();
    assert_eq!(
        drawn,
        vec![("00:01 ".to_string(), "a".to_string(), true), ("01:05 ".to_string(), "b".to_string(), false)]
    );
}

#[test]
fn restyle_at_same_position_settles() {
    let mut lyrics = Lyrics::new();
    lyrics.set_text(vec![line(1, "a"), line(2, "b")]);
    lyrics.update_style_text(2_500_000);
    let first: Vec<bool> = lyrics.rendered_text.iter().map(|r| r.highlighted).collect();
    let index = lyrics.rendered_index;
    lyrics.update_style_text(2_500_000);
    let second: Vec<bool> = lyrics.rendered_text.iter().map(|r| r.highlighted).collect();
    assert_eq!((first, index), (second, lyrics.rendered_index));
}

#[test]
fn highlight_moves_forward_with_position() {
    let mut lyrics = Lyrics::new();
    lyrics.set_text(vec![line(1, "a"), line(5, "b"), line(2, "c"), line(9, "d")]);
    let mut last = lyrics.current_lyric_index(0);
    for p in (0..12).map(|s| s * 1_000_000) {
        let now = lyrics.current_lyric_index(p);
        assert!(last == NO_LINE || (now != NO_LINE && last <= now));
        last = now;
    }
}

#[test]
fn reset_clears_everything() {
    let mut lyrics = Lyrics::new();
    lyrics.set_text(vec![line(0, "a")]);
    lyrics.reset();
    assert!(lyrics.lines.is_empty() && lyrics.rendered_text.is_empty());
    assert_eq!(lyrics.rendered_index, NOT_DRAWN);
}

#[test]
fn lyrics_loaded_after_reset_are_drawn_at_once() {
    let mut lyrics = Lyrics::new();
    lyrics.reset();
    assert!(lyrics.convert_text("[00:05.00]later
[00:09.00]still later"));
    assert_eq!(lyrics.rendered_index, NO_LINE);
    let drawn: Vec<(String, bool)> = lyrics.rendered_text.iter().map(|r| (r.lyrics.clone(), r.highlighted)).collect();
    assert_eq!(drawn, vec![("later".to_string(), false), ("still later".to_string(), false)]);
}

#[test]
fn written_lines_read_back() {
    for (m, s, f, text) in [(0u64, 0u64, "00", "x"), (3, 59, "5", "words here"), (99, 7, "499", ""), (1, 2, "9", "a\tb")] {
        let written = format!("[{:02}:{:02}.{}]{}", m, s, f, text);
        let read = parse_lyric_line(&written).unwrap();
        let carry = if f.as_bytes()[0] >= b'5' { 1 } else { 0 };
        assert_eq!(read.seconds as u64, 60 * m + s + carry);
        assert_eq!(read.lyrics, text);
    }
}

#[test]
fn set_text_redraws_over_a_stale_view() {
    let mut lyrics = Lyrics::new();
    lyrics.set_text(vec![line(0, "old song")]);
    assert_eq!(lyrics.rendered_index, 0);
    lyrics.set_text(vec![line(0, "new song"), line(4, "more")]);
    assert_eq!(lyrics.rendered_index, 0);
    let drawn: Vec<(String, bool)> = lyrics.rendered_text.iter().map(|r| (r.lyrics.clone(), r.highlighted)).collect();
    assert_eq!(drawn, vec![("new song".to_string(), true), ("more".to_string(), false)]);
}

#[test]
fn checked_line_reports_overflow() {
    assert_eq!(checked_lyric_line("[153722867280912931:00.00]x").err(), Some(StampOverflow));
    let ok = checked_lyric_line("[01:02.00] hi").unwrap().unwrap();
    assert_eq!((ok.seconds, ok.lyrics.as_str()), (62, "hi"));
    assert!(checked_lyric_line("no stamp").unwrap().is_none());
}

#[test]
fn to_human_reads_back() {
    for secs in [0i64, 59, 60, 3599, 6000, 123_456, 9_000_000_000, i64::MAX] {
        let text = to_human(secs);
        let (m, s) = text.split_once(':').unwrap();
        assert!(m.len() >= 2 && s.len() == 2);
        let (m, s): (i64, i64) = (m.parse().unwrap(), s.parse().unwrap());
        assert!(s < 60);
        assert_eq!(m * 60 + s, secs);
    }
}

#[test]
fn parse_line_skips_unicode_white_space() {
    let l = parse_lyric_line("[00:12.34]\u{3000}\u{a0} Hello").unwrap();
    assert_eq!((l.seconds, l.lyrics.as_str()), (12, "Hello"));
}
