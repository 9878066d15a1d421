use galdrar::{
    first_playing, is_playing, parse_i64, parse_player_list, position_text, read_reply, trim, FetchError,
    FollowStep, JsonMember, Key, LyricLine, LyricsState, PlayerWatch, Screen, SongState,
    TrackInfo, WatchStep, NOT_DRAWN, NO_LINE,
};

fn song_with(title: &str, artist: &str) -> SongState {
    let mut s = SongState::new();
    assert!(s.update_metadata(&format!("{title}|{artist}|Album|200000000")));
    s
}

#[test]
fn update_metadata_takes_four_fields() {
    let mut s = SongState::new();
    assert!(s.update_metadata(&"Song|Artist|Album|123".to_string()));
    assert_eq!((s.title.as_str(), s.artist.as_str(), s.album.as_str(), s.length), ("Song", "Artist", "Album", 123));
}

#[test]
fn update_metadata_length_falls_back_to_max() {
    let mut s = SongState::new();
    assert!(s.update_metadata(&"a|b|c|215.5".to_string()));
    assert_eq!(s.length, i64::MAX);
    assert!(s.update_metadata(&"a|b|c|-7".to_string()));
    assert_eq!(s.length, -7);
    assert!(s.update_metadata(&"||||".to_string()) == false);
    assert!(s.update_metadata(&"|||".to_string()));
    assert_eq!((s.title.as_str(), s.length), ("", i64::MAX));
}

#[test]
fn update_metadata_refuses_other_field_counts() {
    let mut s = song_with("T", "A");
    assert!(!s.update_metadata(&"a|b|c".to_string()));
    assert!(!s.update_metadata(&"a|b|c|d|e".to_string()));
    assert_eq!((s.title.as_str(), s.artist.as_str()), ("T", "A"));
}

#[test]
fn metadata_written_reads_back() {
    for (t, a, b, len) in [("x", "y", "z", 0u64), ("Song name", "", "Al bum", 9_223_372_036_854_775_807)] {
        let mut s = SongState::new();
        assert!(s.update_metadata(&format!("{t}|{a}|{b}|{len}")));
        assert_eq!((s.title.as_str(), s.artist.as_str(), s.album.as_str(), s.length as u64), (t, a, b, len));
    }
}

#[test]
fn parse_i64_follows_std() {
    for text in ["0", "+5", "-5", "-", "+", "", "12a", " 1", "9223372036854775807", "9223372036854775808", "-9223372036854775808", "-9223372036854775809", "007"] {
        assert_eq!(parse_i64(&text.to_string()), text.parse::<i64>().ok(), "{text}");
    }
}

#[test]
fn position_text_strips_quotes_and_newline() {
    assert_eq!(position_text("'12345'\n"), "12345");
    assert_eq!(position_text("abc"), "");
    assert_eq!(position_text(""), "");
    assert_eq!(position_text("'1'\n"), "1");
}

#[test]
fn update_position_reports_change() {
    let mut s = SongState::new();
    assert!(s.update_position(5));
    assert!(!s.update_position(5));
    assert_eq!(s.position, 5);
}

#[test]
fn failed_fetch_answers_error() {
    let mut s = SongState::new();
    let status = s.apply_song_text(Err(FetchError { message: "timeout".to_string() }));
    assert_eq!(status, "Error");
    assert_eq!(s.lyrics_state, LyricsState::Invalidated);
}

#[test]
fn error_reply_answers_its_message() {
    let mut s = SongState::new();
    let reply = r#"{"message":"Failed to find specified track","name":"TrackNotFound","statusCode":404}"#;
    assert_eq!(s.apply_song_text(Ok(reply.to_string())), "Failed to find specified track");
    assert_eq!(s.lyrics_state, LyricsState::Invalidated);
}

#[test]
fn synced_reply_loads_lyrics() {
    let mut s = SongState::new();
    let reply = r#"{"id":1,"syncedLyrics":"[00:01.00] one\n[00:02.00] two","plainLyrics":"one\ntwo"}"#;
    assert_eq!(s.apply_song_text(Ok(reply.to_string())), "Lyrics loaded and parsed successfully");
    assert_eq!(s.lyrics_state, LyricsState::Loaded);
    assert_eq!(s.lyrics.lines.len(), 2);
    assert_eq!(s.lyrics.lines[1].lyrics, "two");
}

#[test]
fn synced_reply_without_timed_lines_is_refused() {
    let mut s = SongState::new();
    let reply = r#"{"syncedLyrics":"no stamps here"}"#;
    assert_eq!(s.apply_song_text(Ok(reply.to_string())), "Something's wrong (1)");
    assert_eq!(s.lyrics_state, LyricsState::Invalidated);
}

#[test]
fn other_reply_is_refused() {
    let mut s = SongState::new();
    assert_eq!(s.apply_song_text(Ok("{}".to_string())), "Something's wrong (2)");
    assert_eq!(s.apply_song_text(Ok("[1,2]".to_string())), "Something's wrong (2)");
}

#[test]
fn try_apply_refuses_what_would_panic() {
    let mut s = song_with("T", "A");
    for reply in ["not json", r#"{"statusCode":404}"#, r#"{"statusCode":404,"message":7}"#, r#"{"syncedLyrics":"[999999999999999999:00.00]x"}"#] {
        assert!(s.try_apply_song_text(Ok(reply.to_string())).is_none(), "{reply}");
    }
    assert_eq!(s.title, "T");
    assert_eq!(
        s.try_apply_song_text(Ok(r#"{"statusCode":null,"message":"m"}"#.to_string())),
        Some("m".to_string())
    );
}

#[test]
fn null_synced_lyrics_are_refused_without_panic() {
    let mut s = song_with("T", "A");
    let reply = r#"{"syncedLyrics":null,"plainLyrics":"Hello"}"#;
    assert_eq!(s.try_apply_song_text(Ok(reply.to_string())), Some("Something's wrong (1)".to_string()));
    assert_eq!(s.lyrics_state, LyricsState::Invalidated);
    assert_eq!(s.apply_song_text(Ok(reply.to_string())), "Something's wrong (1)");
}

#[test]
fn read_reply_reads_members() {
    let r = read_reply(r#"{"statusCode":404,"message":"gone","syncedLyrics":null}"#).unwrap();
    assert!(matches!(r.status_code, JsonMember::NotText));
    assert!(matches!(r.message, JsonMember::Text(ref m) if m == "gone"));
    assert!(matches!(r.synced_lyrics, JsonMember::NotText));
    let r = read_reply("{}").unwrap();
    assert!(matches!(r.status_code, JsonMember::Absent));
    assert!(read_reply("{").is_none());
}

#[test]
fn player_list_is_trimmed_and_blank_lines_dropped() {
    assert_eq!(parse_player_list("spotify\n  vlc  \n\n \nfirefox.instance_1\n"), vec!["spotify", "vlc", "firefox.instance_1"]);
    assert!(parse_player_list("").is_empty());
}

#[test]
fn playing_status_is_recognised() {
    assert!(is_playing("Playing\n"));
    assert!(!is_playing("Paused\n"));
    assert!(!is_playing("playing"));
    assert_eq!(trim("  a b \n"), "a b");
}

fn track(title: &str, artist: &str, length_ok: bool) -> TrackInfo {
    TrackInfo {
        title: title.to_string(),
        artist: artist.to_string(),
        album: "Al".to_string(),
        track_key: format!("{title}|{artist}|Al|200"),
        length_in_range: length_ok,
    }
}

#[test]
fn watcher_fetches_new_tracks_once() {
    let mut w = PlayerWatch::new();
    let mut s = SongState::new();
    let p = "spotify".to_string();
    assert_eq!(w.observe(&mut s, &p, &track("T", "A", true)), WatchStep::Fetch);
    assert_eq!((s.title.as_str(), s.length), ("T", 200));
    assert_eq!(w.observe(&mut s, &p, &track("T", "A", true)), WatchStep::Unchanged);
    assert_eq!(w.observe(&mut s, &p, &track("U", "  ", true)), WatchStep::NoArtist);
    assert_eq!(w.observe(&mut s, &p, &track("V", "A", false)), WatchStep::WrongLength);
    let q = "vlc".to_string();
    assert_eq!(w.observe(&mut s, &q, &track("V", "A", true)), WatchStep::Fetch);
    assert_eq!(w.last_active_player, "vlc");
}

#[test]
fn watcher_skips_keys_it_cannot_take() {
    let mut w = PlayerWatch::new();
    let mut s = SongState::new();
    let p = "spotify".to_string();
    assert_eq!(w.observe(&mut s, &p, &track("T", "A", true)), WatchStep::Fetch);
    let odd = track("T|x", "A", true);
    assert_eq!(w.observe(&mut s, &p, &odd), WatchStep::NotUpdated);
    assert_eq!(s.title, "T");
    assert_eq!(w.last_track_key, odd.track_key);
}

#[test]
fn watcher_clears_lyrics_of_new_track() {
    let mut w = PlayerWatch::new();
    let mut s = SongState::new();
    s.lyrics.set_text(vec![LyricLine { seconds: 0, lyrics: "old".to_string() }]);
    assert_eq!(w.observe(&mut s, &"p".to_string(), &track("T", "A", true)), WatchStep::Fetch);
    assert!(s.lyrics.lines.is_empty());
    assert_eq!(s.lyrics.rendered_index, NOT_DRAWN);
}

#[test]
fn follow_checks_length_and_artist() {
    let mut s = SongState::new();
    assert_eq!(s.follow_metadata(&"T|A|B|200000000".to_string()), FollowStep::Fetch);
    assert_eq!(s.follow_metadata(&"T|A|B|999999".to_string()), FollowStep::WrongLength);
    assert_eq!(s.follow_metadata(&"T|A|B|1000000".to_string()), FollowStep::Fetch);
    assert_eq!(s.follow_metadata(&"T|A|B|3600000001".to_string()), FollowStep::WrongLength);
    assert_eq!(s.follow_metadata(&"T||B|3600000000".to_string()), FollowStep::NoArtist);
    assert_eq!(s.follow_metadata(&"T|A|B".to_string()), FollowStep::NotUpdated);
}

#[test]
fn keys_scroll_and_shift() {
    let mut sc = Screen::new();
    assert!(!sc.on_key(Key::Up));
    assert_eq!(sc.vertical_scroll, 0);
    sc.on_key(Key::Down);
    sc.on_key(Key::Down);
    sc.on_key(Key::Up);
    assert_eq!(sc.vertical_scroll, 1);
    sc.on_key(Key::Left);
    assert_eq!(sc.time_offset_ms, -500);
    sc.on_key(Key::Right);
    sc.on_key(Key::Right);
    assert_eq!(sc.time_offset_ms, 500);
    assert!(sc.on_key(Key::Quit));
    assert!(!sc.on_key(Key::Other));
}

#[test]
fn offset_keys_undo_each_other() {
    let mut sc = Screen::new();
    for start in [0i64, 12_500, -3_000] {
        sc.time_offset_ms = start;
        sc.on_key(Key::Left);
        sc.on_key(Key::Right);
        assert_eq!(sc.time_offset_ms, start);
    }
    sc.time_offset_ms = i64::MAX - 100;
    sc.on_key(Key::Right);
    assert_eq!(sc.time_offset_ms, i64::MAX);
}

#[test]
fn notice_recognises_non_songs() {
    let mut sc = Screen::new();
    let mut s = song_with("Advertisment", "Spotify");
    assert_eq!(sc.on_notice(&mut s), Some("Advertisement".to_string()));
    assert_eq!(s.lyrics.lines[0].lyrics, "Oh, another advertisment!");
    assert_eq!(s.lyrics.rendered_text.len(), 1);
    assert!(s.lyrics.rendered_text[0].highlighted);
    assert_eq!(sc.on_notice(&mut s), Some("No changes".to_string()));
    let mut v = song_with("Voice message", "Someone");
    assert_eq!(sc.on_notice(&mut v), Some("Voice message".to_string()));
    assert_eq!(v.lyrics.lines[0].lyrics, "Not a song!");
    let mut n = song_with("Talk", "");
    assert_eq!(sc.on_notice(&mut n), Some("No artist".to_string()));
    let mut ok = song_with("Song", "Band");
    sc.time_offset_ms = 1500;
    assert_eq!(sc.on_notice(&mut ok), None);
    assert_eq!(sc.running, "Band Song");
    assert_eq!(sc.time_offset_ms, 0);
    assert!(ok.lyrics.lines.is_empty());
}

#[test]
fn refresh_highlights_at_shifted_position() {
    let mut sc = Screen::new();
    let mut s = SongState::new();
    s.lyrics.set_text(vec![LyricLine { seconds: 1, lyrics: "a".into() }, LyricLine { seconds: 3, lyrics: "b".into() }]);
    s.update_position(1_000_000);
    sc.time_offset_ms = 2000;
    assert_eq!(sc.lyrics_position(&s), 3_000_000);
    sc.refresh_lyrics(&mut s, true, false);
    assert_eq!(s.lyrics.rendered_index, 1);
    sc.time_offset_ms = -2000;
    sc.refresh_lyrics(&mut s, false, false);
    assert_eq!(s.lyrics.rendered_index, 1);
    sc.refresh_lyrics(&mut s, false, true);
    assert_eq!(s.lyrics.rendered_index, NO_LINE);
}

#[test]
fn first_playing_player_is_followed() {
    let players: Vec<String> = vec!["a".into(), "b".into(), "c".into()];
    let st = |v: &[Option<&str>]| v.iter().map(|o| o.map(|s| s.to_string())).collect::<Vec<_>>();
    assert_eq!(first_playing(&players, &st(&[Some("Paused\n"), None, Some("Playing\n")])), Some(2));
    assert_eq!(first_playing(&players, &st(&[Some("Playing"), Some("Playing")])), Some(0));
    assert_eq!(first_playing(&players, &st(&[Some("Stopped"), Some(" Playing ")])), Some(1));
    assert_eq!(first_playing(&players, &st(&[Some("Paused"), None, Some("Stopped")])), None);
    assert_eq!(first_playing(&players, &st(&[])), None);
}

fn lyrics_of(n: i64) -> galdrar::Lyrics {
    let mut l = galdrar::Lyrics::new();
    l.set_text((0..n).map(|i| LyricLine { seconds: i * 10, lyrics: format!("line {i}") }).collect());
    l
}

#[test]
fn autoscroll_follows_the_highlighted_line() {
    let mut sc = Screen::new();
    let mut l = lyrics_of(30);
    l.update_style_text(125_000_000);
    assert_eq!(l.rendered_index, 12);
    sc.autoscroll(&l, 5);
    assert_eq!(sc.vertical_scroll, 8);
    assert_eq!(sc.followed_index, 12);
    // The same line again: the reader's own scrolling is left alone.
    sc.on_key(Key::Up);
    sc.on_key(Key::Up);
    sc.autoscroll(&l, 5);
    assert_eq!(sc.vertical_scroll, 6);
    // A line already shown moves nothing.
    l.update_style_text(105_000_000);
    sc.autoscroll(&l, 5);
    assert_eq!(sc.vertical_scroll, 6);
    // A line above the panel scrolls back up to it.
    l.update_style_text(35_000_000);
    sc.autoscroll(&l, 5);
    assert_eq!(sc.vertical_scroll, 3);
    // Nothing highlighted: nothing moves.
    l.update_style_text(-1);
    sc.autoscroll(&l, 5);
    assert_eq!(sc.vertical_scroll, 3);
}

#[test]
fn autoscroll_waits_for_a_laid_out_panel() {
    let mut sc = Screen::new();
    let mut l = lyrics_of(30);
    l.update_style_text(125_000_000);
    sc.autoscroll(&l, 0);
    assert_eq!((sc.vertical_scroll, sc.followed_index), (0, NOT_DRAWN));
    sc.autoscroll(&l, 5);
    assert_eq!((sc.vertical_scroll, sc.followed_index), (8, 12));
}

#[test]
fn note_track_records_without_the_song() {
    let mut w = PlayerWatch::new();
    let p = "spotify".to_string();
    let key = "T|A|Al|200".to_string();
    assert_eq!(w.note_track(&p, &key), Some(true));
    assert_eq!(w.note_track(&p, &key), None);
    assert_eq!(w.note_track(&p, &"U|A|Al|200".to_string()), Some(false));
    assert_eq!(w.last_track_key, "U|A|Al|200");
}

#[test]
fn refresh_draws_over_a_view_out_of_step() {
    let sc = Screen::new();
    let mut s = SongState::new();
    s.lyrics.set_text(vec![LyricLine { seconds: 0, lyrics: "a".into() }]);
    // Lines replaced behind the view's back: the index drawn still matches.
    s.lyrics.lines = vec![LyricLine { seconds: 0, lyrics: "b".into() }, LyricLine { seconds: 9, lyrics: "c".into() }];
    sc.refresh_lyrics(&mut s, true, false);
    let drawn: Vec<(String, bool)> = s.lyrics.rendered_text.iter().map(|r| (r.lyrics.clone(), r.highlighted)).collect();
    assert_eq!(drawn, vec![("b".to_string(), true), ("c".to_string(), false)]);
}
