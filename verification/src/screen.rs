//! The decisions of the terminal screen: keys, the time offset, scrolling,
//! and what is shown when the player reports another track.
use vstd::prelude::*;

use crate::lyrics::{drawn_at, in_sync, line_views, LyricLine, Lyrics, NOT_DRAWN};
use crate::songstate::SongState;
use crate::text::{contains, occurs_in};

verus! {

/// A key the screen reacts to.
#[derive(Clone, Copy, Debug, PartialEq, Eq, Structural)]
pub enum Key {
    /// `q` or Esc.
    Quit,
    Down,
    Up,
    Left,
    Right,
    Other,
}

/// The screen's own state: the track it shows (`artist title`), the time
/// offset applied to the highlighting, and the scroll of the lyrics view.
pub struct Screen {
    pub running: String,
    pub time_offset_ms: i64,
    pub vertical_scroll: usize,
    /// The highlighted index the view last scrolled to follow.
    pub followed_index: usize,
}

/// The offset after one step of `delta` milliseconds, held within `i64`.
pub open spec fn shifted(offset: i64, delta: int) -> i64 {
    if offset + delta > i64::MAX {
        i64::MAX
    } else if offset + delta < i64::MIN {
        i64::MIN
    } else {
        (offset + delta) as i64
    }
}

/// The position the lyrics are highlighted at: the player's position moved
/// by the offset, held within `i64`.
pub open spec fn shifted_position(position_us: i64, offset_ms: i64) -> i64 {
    let p = position_us + offset_ms * 1000;
    if p > i64::MAX {
        i64::MAX
    } else if p < i64::MIN {
        i64::MIN
    } else {
        p as i64
    }
}

/// The `artist title` of a song.
pub open spec fn running_of(song: SongState) -> Seq<char> {
    song.artist@ + seq![' '] + song.title@
}

/// The one line shown in place of lyrics, and the status shown, for a
/// track that is not a song: an advertisement, a voice message, or a track
/// without artist. `None` for a song.
pub open spec fn placeholder(running: Seq<char>, artist: Seq<char>) -> Option<(Seq<char>, Seq<char>)> {
    if occurs_in("Advertisment"@, running) {
        Some(("Oh, another advertisment!"@, "Advertisement"@))
    } else if occurs_in("Voice message"@, running) {
        Some(("Not a song!"@, "Voice message"@))
    } else if artist.len() == 0 {
        Some(("No artist: not a song, maybe?"@, "No artist"@))
    } else {
        None
    }
}

/// The scroll after a key: down one line (held at the end of `usize`), up
/// one line (never past the top).
pub open spec fn scroll_after(scroll: usize, key: Key) -> usize {
    match key {
        Key::Down => if scroll == usize::MAX {
            usize::MAX
        } else {
            (scroll + 1) as usize
        },
        Key::Up => if scroll == 0 {
            0
        } else {
            (scroll - 1) as usize
        },
        _ => scroll,
    }
}

/// The offset after a key: 500 ms earlier for left, later for right.
pub open spec fn offset_after(offset: i64, key: Key) -> i64 {
    match key {
        Key::Left => shifted(offset, -500),
        Key::Right => shifted(offset, 500),
        _ => offset,
    }
}

/// The scroll after following the highlighted line `idx` of a view of
/// `count` lines in a panel of `rows` lines, when `followed` was the line
/// followed before: unchanged when the line is the same one, is not drawn,
/// or already shows; otherwise moved just enough for it to show.
pub open spec fn autoscrolled(scroll: usize, followed: usize, idx: usize, count: nat, rows: usize) -> usize {
    if idx == followed || idx >= count || rows == 0 {
        scroll
    } else if idx < scroll {
        idx
    } else if idx >= scroll + rows {
        (idx + 1 - rows) as usize
    } else {
        scroll
    }
}

impl Screen {
    /// Nothing shown yet, no offset, no scroll.
    pub fn new() -> (r: Self)
        ensures
            r.running@.len() == 0,
            r.time_offset_ms == 0,
            r.vertical_scroll == 0,
            r.followed_index == NOT_DRAWN,
    {
        Screen { running: String::new(), time_offset_ms: 0, vertical_scroll: 0, followed_index: NOT_DRAWN }
    }

    /// Reacts to a key: the arrows down and up scroll by one line (never
    /// past the top), left and right move the offset by 500 ms. The answer
    /// is `true` for the key that quits.
    pub fn on_key(&mut self, key: Key) -> (quit: bool)
        ensures
            quit == (key == Key::Quit),
            final(self).running == old(self).running,
            final(self).followed_index == old(self).followed_index,
            final(self).vertical_scroll == scroll_after(old(self).vertical_scroll, key),
            final(self).time_offset_ms == offset_after(old(self).time_offset_ms, key),
    {
        match key {
            Key::Quit => {
                return true;
            },
            Key::Down => {
                if self.vertical_scroll < usize::MAX {
                    self.vertical_scroll = self.vertical_scroll + 1;
                }
            },
            Key::Up => {
                if self.vertical_scroll > 0 {
                    self.vertical_scroll = self.vertical_scroll - 1;
                }
            },
            Key::Left => {
                self.time_offset_ms = if self.time_offset_ms < i64::MIN + 500 {
                    i64::MIN
                } else {
                    self.time_offset_ms - 500
                };
            },
            Key::Right => {
                self.time_offset_ms = if self.time_offset_ms > i64::MAX - 500 {
                    i64::MAX
                } else {
                    self.time_offset_ms + 500
                };
            },
            Key::Other => {},
        }
        false
    }

    /// Reacts to a notice from the watcher. When the song's `artist title`
    /// differs from the one shown, it becomes the one shown, the offset goes
    /// back to 0, and a track that is not a song gets its placeholder line in
    /// place of the lyrics, drawn at once, and its status; otherwise the
    /// status is `No changes`.
    /// The answer is the new status, or `None` to leave the status as it is.
    pub fn on_notice(&mut self, song: &mut SongState) -> (status: Option<String>)
        ensures
            ({
                let running = running_of(*old(song));
                &&& final(song).title == old(song).title
                &&& final(song).artist == old(song).artist
                &&& final(song).album == old(song).album
                &&& final(song).length == old(song).length
                &&& final(song).position == old(song).position
                &&& final(song).lyrics_state == old(song).lyrics_state
                &&& final(self).vertical_scroll == old(self).vertical_scroll
                &&& final(self).followed_index == old(self).followed_index
                &&& if old(self).running@ == running {
                    &&& status matches Some(s) && s@ == "No changes"@
                    &&& final(self).time_offset_ms == old(self).time_offset_ms
                    &&& final(self).running == old(self).running
                    &&& final(song).lyrics == old(song).lyrics
                } else {
                    &&& final(self).running@ == running
                    &&& final(self).time_offset_ms == 0
                    &&& match placeholder(running, old(song).artist@) {
                        Some((line, st)) => {
                            &&& status matches Some(s) && s@ == st
                            &&& line_views(final(song).lyrics.lines@) == seq![(0i64, line)]
                            &&& drawn_at(final(song).lyrics, 0)
                            &&& in_sync(final(song).lyrics)
                        },
                        None => {
                            &&& status is None
                            &&& final(song).lyrics == old(song).lyrics
                        },
                    }
                }
            }),
    {
        let mut new_running = song.artist.clone();
        new_running.push(' ');
        new_running.append(song.title.as_str());
        assert(new_running@ =~= running_of(*song));
        if self.running == new_running {
            return Some(String::from_str("No changes"));
        }
        self.time_offset_ms = 0;
        self.running = new_running;
        let (line, status) = if contains(self.running.as_str(), "Advertisment") {
            ("Oh, another advertisment!", "Advertisement")
        } else if contains(self.running.as_str(), "Voice message") {
            ("Not a song!", "Voice message")
        } else if song.artist.as_str().unicode_len() == 0 {
            ("No artist: not a song, maybe?", "No artist")
        } else {
            return None;
        };
        let fake = LyricLine { seconds: 0, lyrics: String::from_str(line) };
        let mut lines: Vec<LyricLine> = Vec::new();
        lines.push(fake);
        song.lyrics.set_text(lines);
        assert(line_views(song.lyrics.lines@) == seq![(0i64, line@)]);
        Some(String::from_str(status))
    }

    /// The position at which the lyrics are highlighted: the player's,
    /// moved by the offset.
    pub fn lyrics_position(&self, song: &SongState) -> (r: i64)
        ensures
            r == shifted_position(song.position, self.time_offset_ms),
    {
        let p: i128 = song.position as i128 + (self.time_offset_ms as i128) * 1000;
        if p > i64::MAX as i128 {
            i64::MAX
        } else if p < i64::MIN as i128 {
            i64::MIN
        } else {
            p as i64
        }
    }

    /// Scrolls the lyrics view to follow the highlighted line: when the line
    /// highlighted in `lyrics` is not the one followed last, it is followed
    /// now, and the view is scrolled as little as needed for that line to be
    /// among the `rows` lines the panel shows. A panel of no rows (not laid
    /// out yet) changes nothing, so the line is followed once it has rows.
    pub fn autoscroll(&mut self, lyrics: &Lyrics, rows: usize)
        ensures
            final(self).followed_index == if rows == 0 {
                old(self).followed_index
            } else {
                lyrics.rendered_index
            },
            final(self).running == old(self).running,
            final(self).time_offset_ms == old(self).time_offset_ms,
            final(self).vertical_scroll == autoscrolled(
                old(self).vertical_scroll,
                old(self).followed_index,
                lyrics.rendered_index,
                lyrics.rendered_text@.len(),
                rows,
            ),
    {
        let idx = lyrics.rendered_index;
        let scroll = self.vertical_scroll;
        if rows == 0 {
            return;
        }
        if idx != self.followed_index && idx < lyrics.rendered_text.len() {
            if idx < scroll {
                self.vertical_scroll = idx;
            } else if idx - scroll >= rows {
                self.vertical_scroll = idx + 1 - rows;
            }
        }
        self.followed_index = idx;
    }

    /// Draws the lyrics view at the shifted position when there are lyrics
    /// and the time moved or a notice came: the line to highlight there is
    /// the one drawn highlighted.
    pub fn refresh_lyrics(&self, song: &mut SongState, time_changed: bool, noticed: bool)
        ensures
            final(song).lyrics.lines@ == old(song).lyrics.lines@,
            final(song).title == old(song).title,
            final(song).artist == old(song).artist,
            final(song).album == old(song).album,
            final(song).length == old(song).length,
            final(song).position == old(song).position,
            final(song).lyrics_state == old(song).lyrics_state,
            if old(song).lyrics.lines@.len() > 0 && (time_changed || noticed) {
                &&& drawn_at(final(song).lyrics, shifted_position(old(song).position, self.time_offset_ms))
                &&& in_sync(final(song).lyrics)
            } else {
                final(song).lyrics == old(song).lyrics
            },
    {
        if song.lyrics.lines.len() > 0 && (time_changed || noticed) {
            let p = self.lyrics_position(song);
            song.lyrics.redraw(p);
        }
    }
}

} // verus!

verus! {

/// Left then right, or right then left, brings the offset back where it
/// was, away from the ends of `i64`.
pub proof fn lemma_offset_keys_undo(offset: i64)
    requires
        i64::MIN + 500 <= offset <= i64::MAX - 500,
    ensures
        offset_after(offset_after(offset, Key::Left), Key::Right) == offset,
        offset_after(offset_after(offset, Key::Right), Key::Left) == offset,
{
}

/// Following a newly highlighted line puts it among the lines the panel
/// shows, and leaves the scroll alone when it already was.
pub proof fn lemma_autoscroll_shows(scroll: usize, followed: usize, idx: usize, count: nat, rows: usize)
    requires
        idx != followed,
        idx < count,
        rows > 0,
    ensures
        autoscrolled(scroll, followed, idx, count, rows) <= idx < autoscrolled(scroll, followed, idx, count, rows) + rows,
        scroll <= idx < scroll + rows ==> autoscrolled(scroll, followed, idx, count, rows) == scroll,
{
}

/// Down then up brings the scroll back where it was, below the end of
/// `usize`; up then down does too, below the top.
pub proof fn lemma_scroll_keys_undo(scroll: usize)
    ensures
        scroll < usize::MAX ==> scroll_after(scroll_after(scroll, Key::Down), Key::Up) == scroll,
        scroll > 0 ==> scroll_after(scroll_after(scroll, Key::Up), Key::Down) == scroll,
{
}

} // verus!

verus! {

/// Only tracks that are not songs get a placeholder: none when the shown
/// track names neither an advertisement nor a voice message and has an
/// artist; the advertisement placeholder exactly when the track's name holds
/// `Advertisment`, the voice-message one exactly when it holds `Voice message`
/// and not that, and the no-artist one exactly when it holds neither and the
/// artist is empty.
pub proof fn lemma_placeholder_only_for_non_songs(running: Seq<char>, artist: Seq<char>)
    ensures
        placeholder(running, artist) is None <==> (!occurs_in("Advertisment"@, running) && !occurs_in(
            "Voice message"@,
            running,
        ) && artist.len() > 0),
        placeholder(running, artist) == Some(("Oh, another advertisment!"@, "Advertisement"@))
            <==> occurs_in("Advertisment"@, running),
        placeholder(running, artist) == Some(("Not a song!"@, "Voice message"@)) <==> (!occurs_in(
            "Advertisment"@,
            running,
        ) && occurs_in("Voice message"@, running)),
        placeholder(running, artist) == Some(("No artist: not a song, maybe?"@, "No artist"@)) <==> (
        !occurs_in("Advertisment"@, running) && !occurs_in("Voice message"@, running) && artist.len()
            == 0),
{
    reveal_strlit("Advertisement");
    reveal_strlit("Voice message");
    reveal_strlit("No artist");
    assert("Advertisement"@ != "Voice message"@) by {
        assert("Advertisement"@[0] != "Voice message"@[0]);
    }
    assert("Advertisement"@ != "No artist"@) by {
        assert("Advertisement"@[0] != "No artist"@[0]);
    }
    assert("Voice message"@ != "No artist"@) by {
        assert("Voice message"@[0] != "No artist"@[0]);
    }
}

} // verus!
