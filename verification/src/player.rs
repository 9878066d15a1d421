//! The decisions of the watcher that follows the media players: which player
//! is active, when the track has changed, and whether its lyrics are fetched.
use vstd::prelude::*;

use crate::songstate::{length_of, SongState};
use crate::text::{
    chars_of, lines_of, split_lines, split_on, string_from, trim, trimmed, white_space,
};

verus! {

/// The names in the player list, one per line: each line trimmed, blank
/// lines dropped.
pub open spec fn player_names(lines: Seq<Seq<char>>) -> Seq<Seq<char>>
    decreases lines.len(),
{
    if lines.len() == 0 {
        seq![]
    } else {
        let init = player_names(lines.drop_last());
        let name = trimmed(lines.last());
        if name.len() > 0 {
            init.push(name)
        } else {
            init
        }
    }
}

/// The players that `playerctl --list-all` printed, in order.
pub fn parse_player_list(raw: &str) -> (r: Vec<String>)
    ensures
        r@.map_values(|s: String| s@) == player_names(lines_of(raw@)),
{
    let chars = chars_of(raw);
    let lines = split_lines(&chars);
    let ghost ls = lines_of(raw@);
    let mut out: Vec<String> = Vec::new();
    let mut i: usize = 0;
    while i < lines.len()
        invariant
            lines@.map_values(|l: Vec<char>| l@) == ls,
            0 <= i <= lines@.len(),
            out@.map_values(|s: String| s@) == player_names(ls.take(i as int)),
        decreases lines@.len() - i,
    {
        assert(ls[i as int] == lines@[i as int]@);
        assert(ls.take(i + 1).drop_last() == ls.take(i as int));
        assert(ls.take(i + 1).last() == ls[i as int]);
        let line = string_from(&lines[i], 0, lines[i].len());
        assert(lines@[i as int]@.subrange(0, lines@[i as int]@.len() as int) == lines@[i as int]@);
        let name = trim(line.as_str());
        if name.as_str().unicode_len() > 0 {
            let ghost before = out@;
            out.push(name);
            assert(out@.map_values(|s: String| s@) == before.map_values(|s: String| s@).push(name@));
        }
        i = i + 1;
    }
    assert(ls.take(i as int) == ls);
    out
}

/// Whether the status that `playerctl status` printed says the player is playing.
pub fn is_playing(status: &str) -> (r: bool)
    ensures
        r == (trimmed(status@) == "Playing"@),
{
    let t = trim(status);
    let playing = String::from_str("Playing");
    t == playing
}

/// Whether a status read from a player (`None` when it could not be read)
/// says the player is playing.
pub open spec fn playing_status(status: Option<String>) -> bool {
    status matches Some(st) && trimmed(st@) == "Playing"@
}

/// Which player a poll follows: given the players listed and the statuses
/// read from them in order (possibly stopping after the first that plays),
/// the index of the first player whose status says it is playing; `None`
/// when none does.
pub fn first_playing(players: &Vec<String>, statuses: &Vec<Option<String>>) -> (r: Option<usize>)
    ensures
        match r {
            Some(i) => {
                &&& i < players@.len()
                &&& i < statuses@.len()
                &&& playing_status(statuses@[i as int])
                &&& forall|j: int| 0 <= j < i ==> !playing_status(#[trigger] statuses@[j])
            },
            None => forall|j: int|
                0 <= j < players@.len() && j < statuses@.len() ==> !playing_status(
                    #[trigger] statuses@[j],
                ),
        },
{
    let n = if players.len() < statuses.len() { players.len() } else { statuses.len() };
    let mut i: usize = 0;
    while i < n
        invariant
            n <= players@.len(),
            n <= statuses@.len(),
            n == players@.len() || n == statuses@.len(),
            i <= n,
            forall|j: int| 0 <= j < i ==> !playing_status(#[trigger] statuses@[j]),
        decreases n - i,
    {
        let playing = match &statuses[i] {
            Some(st) => is_playing(st.as_str()),
            None => false,
        };
        if playing {
            return Some(i);
        }
        i = i + 1;
    }
    None
}

/// Whether every character is white space (the text is blank once trimmed).
pub open spec fn blank(s: Seq<char>) -> bool {
    forall|i: int| 0 <= i < s.len() ==> white_space(#[trigger] s[i])
}

fn is_blank(s: &String) -> (r: bool)
    ensures
        r == blank(s@),
{
    let v = chars_of(s.as_str());
    let mut i: usize = 0;
    while i < v.len()
        invariant
            v@ == s@,
            i <= v@.len(),
            forall|k: int| 0 <= k < i ==> white_space(#[trigger] v@[k]),
        decreases v@.len() - i,
    {
        if !v[i].is_whitespace() {
            return false;
        }
        i = i + 1;
    }
    true
}

/// What the active player shows of its track.
pub struct TrackInfo {
    pub title: String,
    pub artist: String,
    pub album: String,
    /// `title|artist|album|duration`: the key that tells tracks apart, and
    /// the metadata line the song state takes.
    pub track_key: String,
    /// Whether the duration lies within one second and one hour.
    pub length_in_range: bool,
}

/// What the watcher does after looking at the active player.
#[derive(Clone, Copy, Debug, PartialEq, Eq, Structural)]
pub enum WatchStep {
    /// Same player, same track: nothing to do.
    Unchanged,
    /// A new key whose metadata line was not taken, on the same player.
    NotUpdated,
    /// A new track whose length is out of range.
    WrongLength,
    /// A new track without an artist.
    NoArtist,
    /// A new track whose lyrics are to be fetched.
    Fetch,
}

/// The state of the watcher: the last track key and the last active player.
pub struct PlayerWatch {
    pub last_track_key: String,
    pub last_active_player: String,
}

/// The decision for a new track whose metadata was taken (or whose player changed).
pub open spec fn fetch_step(track_length_ok: bool, artist: Seq<char>) -> WatchStep {
    if !track_length_ok {
        WatchStep::WrongLength
    } else if blank(artist) {
        WatchStep::NoArtist
    } else {
        WatchStep::Fetch
    }
}

impl PlayerWatch {
    /// No track seen yet, no player seen yet.
    pub fn new() -> (r: Self)
        ensures
            r.last_track_key@.len() == 0,
            r.last_active_player@.len() == 0,
    {
        PlayerWatch { last_track_key: String::new(), last_active_player: String::new() }
    }

    /// Records the active player and the track key it shows. The answer is
    /// `None` when neither changed; otherwise whether the player changed.
    pub fn note_track(&mut self, active_player: &String, track_key: &String) -> (r: Option<bool>)
        ensures
            ({
                let force = old(self).last_active_player@ != active_player@;
                let changed = force || old(self).last_track_key@ != track_key@;
                &&& r == if changed { Some(force) } else { None::<bool> }
                &&& final(self).last_active_player@ == active_player@
                &&& final(self).last_track_key@ == if changed {
                    track_key@
                } else {
                    old(self).last_track_key@
                }
            }),
    {
        let force = self.last_active_player != *active_player;
        if force {
            self.last_active_player = active_player.clone();
        }
        let changed = force || *track_key != self.last_track_key;
        if !changed {
            return None;
        }
        self.last_track_key = track_key.clone();
        Some(force)
    }

    /// One look at the active player `active_player` showing `track`.
    /// A change of player, or a new track key, makes it take the key as the
    /// song's metadata line; when the line was taken or the player changed,
    /// the lyrics are cleared and the step says whether they are fetched.
    pub fn observe(&mut self, song: &mut SongState, active_player: &String, track: &TrackInfo) -> (r: WatchStep)
        ensures
            ({
                let force = old(self).last_active_player@ != active_player@;
                let changed = force || old(self).last_track_key@ != track.track_key@;
                let fields = split_on(track.track_key@, '|');
                let updated = fields.len() == 4;
                &&& final(self).last_active_player@ == active_player@
                &&& final(self).last_track_key@ == if changed {
                    track.track_key@
                } else {
                    old(self).last_track_key@
                }
                &&& !changed ==> r == WatchStep::Unchanged && *final(song) == *old(song)
                &&& changed && !updated && !force ==> r == WatchStep::NotUpdated
                    && *final(song) == *old(song)
                &&& changed && (updated || force) ==> r == fetch_step(
                    track.length_in_range,
                    track.artist@,
                ) && final(song).lyrics.lines@.len() == 0 && final(song).lyrics.rendered_text@.len()
                    == 0 && final(song).lyrics.rendered_index == crate::lyrics::NOT_DRAWN
                    && crate::lyrics::in_sync(final(song).lyrics)
                    && final(song).lyrics_state == old(song).lyrics_state
                    && final(song).position == old(song).position
                &&& changed && updated ==> final(song).title@ == fields[0]
                    && final(song).artist@ == fields[1] && final(song).album@ == fields[2]
                    && final(song).length == length_of(fields[3])
                &&& changed && !updated ==> final(song).title == old(song).title
                    && final(song).artist == old(song).artist && final(song).album
                    == old(song).album && final(song).length == old(song).length
            }),
    {
        let force = match self.note_track(active_player, &track.track_key) {
            None => {
                return WatchStep::Unchanged;
            },
            Some(force) => force,
        };
        let updated = song.update_metadata(&track.track_key);
        if !(updated || force) {
            return WatchStep::NotUpdated;
        }
        song.lyrics.reset();
        if !track.length_in_range {
            WatchStep::WrongLength
        } else if is_blank(&track.artist) {
            WatchStep::NoArtist
        } else {
            WatchStep::Fetch
        }
    }
}

/// What the line-following watcher does with a metadata line.
#[derive(Clone, Copy, Debug, PartialEq, Eq, Structural)]
pub enum FollowStep {
    /// The line was not taken.
    NotUpdated,
    /// The length is out of range.
    WrongLength,
    /// The artist is empty.
    NoArtist,
    /// The lyrics are to be fetched.
    Fetch,
}

/// Whether a length in microseconds lies within one second and one hour.
pub open spec fn length_in_range(length_us: i64) -> bool {
    1_000_000 <= length_us && length_us <= 3_600_000_000
}

/// The decision for a metadata line that was taken, by its length and artist.
pub open spec fn follow_step(length_us: i64, artist: Seq<char>) -> FollowStep {
    if !length_in_range(length_us) {
        FollowStep::WrongLength
    } else if artist.len() == 0 {
        FollowStep::NoArtist
    } else {
        FollowStep::Fetch
    }
}

impl SongState {
    /// Takes one metadata line from `playerctl --follow`; when it is taken,
    /// clears the lyrics and tells whether they are to be fetched.
    pub fn follow_metadata(&mut self, line: &String) -> (r: FollowStep)
        ensures
            ({
                let fields = split_on(line@, '|');
                if fields.len() == 4 {
                    &&& final(self).title@ == fields[0]
                    &&& final(self).artist@ == fields[1]
                    &&& final(self).album@ == fields[2]
                    &&& final(self).length == length_of(fields[3])
                    &&& final(self).position == old(self).position
                    &&& final(self).lyrics_state == old(self).lyrics_state
                    &&& final(self).lyrics.lines@.len() == 0
                    &&& final(self).lyrics.rendered_text@.len() == 0
                    &&& final(self).lyrics.rendered_index == crate::lyrics::NOT_DRAWN
                    &&& crate::lyrics::in_sync(final(self).lyrics)
                    &&& r == follow_step(length_of(fields[3]), fields[1])
                } else {
                    r == FollowStep::NotUpdated && *final(self) == *old(self)
                }
            }),
    {
        if !self.update_metadata(line) {
            return FollowStep::NotUpdated;
        }
        self.lyrics.reset();
        if self.length < 1_000_000 || self.length > 3_600_000_000 {
            FollowStep::WrongLength
        } else if self.artist.as_str().unicode_len() == 0 {
            FollowStep::NoArtist
        } else {
            FollowStep::Fetch
        }
    }
}

} // verus!

verus! {

/// A length out of range is reported whatever the artist; only a track of
/// fitting length is checked for an artist, and one with an artist is fetched.
pub proof fn lemma_length_checked_first(length_ok: bool, artist: Seq<char>)
    ensures
        !length_ok ==> fetch_step(length_ok, artist) == WatchStep::WrongLength,
        length_ok ==> (fetch_step(length_ok, artist) == WatchStep::NoArtist <==> blank(artist)),
        length_ok ==> (fetch_step(length_ok, artist) == WatchStep::Fetch <==> !blank(artist)),
        fetch_step(length_ok, artist) != WatchStep::Unchanged,
        fetch_step(length_ok, artist) != WatchStep::NotUpdated,
{
}

} // verus!

verus! {

/// The line-following watcher reports a length outside one second to one
/// hour whatever the artist; a fitting length with no artist is reported as
/// such; anything else is fetched.
pub proof fn lemma_follow_length_checked_first(length_us: i64, artist: Seq<char>)
    ensures
        (length_us < 1_000_000 || length_us > 3_600_000_000) ==> follow_step(length_us, artist)
            == FollowStep::WrongLength,
        (1_000_000 <= length_us <= 3_600_000_000) ==> (follow_step(length_us, artist)
            == FollowStep::NoArtist <==> artist.len() == 0),
        (1_000_000 <= length_us <= 3_600_000_000) ==> (follow_step(length_us, artist)
            == FollowStep::Fetch <==> artist.len() > 0),
        follow_step(length_us, artist) != FollowStep::NotUpdated,
{
}

/// Every listed player with a name is kept, in order: one more line gives
/// one more player exactly when it is not blank, named by its trimmed text.
pub proof fn lemma_player_kept(ls: Seq<Seq<char>>, l: Seq<char>)
    ensures
        trimmed(l).len() > 0 ==> player_names(ls.push(l)) == player_names(ls).push(trimmed(l)),
        trimmed(l).len() == 0 ==> player_names(ls.push(l)) == player_names(ls),
{
    assert(ls.push(l).drop_last() == ls);
    assert(ls.push(l).last() == l);
}

} // verus!
