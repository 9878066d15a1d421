//! The state of the song being played: its metadata, its position, and its
//! lyrics as fetched from the lyrics service.
use vstd::prelude::*;

use crate::lrc::{synced_lines, synced_lyric_lines, text_fits};
use crate::lyrics::{drawn_at, in_sync, line_views, Lyrics};
use crate::text::{chars_of, parse_i64, parsed_i64, split_at_char, split_on, string_views};

verus! {

/// Whether the lyrics of the current song are loaded.
#[derive(Clone, Copy, Debug, PartialEq, Eq, Structural)]
pub enum LyricsState {
    Loaded,
    Invalidated,
}

/// Why fetching the lyrics failed (the transport's own message).
pub struct FetchError {
    pub message: String,
}

/// What `serde_json` finds under `key` in the JSON text `text`, read as the
/// member's string: `None` when `text` is not JSON; `Some(None)` when there is
/// no such member (the text is not an object, or has no member `key`);
/// `Some(Some(None))` when the member is there but is not a string;
/// `Some(Some(Some(s)))` when it is the string `s`.
pub uninterp spec fn json_member(text: Seq<char>, key: Seq<char>) -> Option<Option<Option<Seq<char>>>>;

/// A member of a JSON object, as the lyrics reply is read.
pub enum JsonMember {
    Absent,
    NotText,
    Text(String),
}

impl View for JsonMember {
    type V = Option<Option<Seq<char>>>;

    open spec fn view(&self) -> Option<Option<Seq<char>>> {
        match self {
            JsonMember::Absent => None,
            JsonMember::NotText => Some(None),
            JsonMember::Text(s) => Some(Some(s@)),
        }
    }
}

/// `serde_json::from_str::<serde_json::Value>(text)`, then `Value::get(key)`
/// and `Value::as_str` on the member. The contract claims that the answer is
/// the one `json_member` names, and that whether the text parses does not
/// depend on the key asked for (the parse comes before the lookup).
#[verifier::external_body]
fn read_member(text: &str, key: &str) -> (r: Option<JsonMember>)
    ensures
        r matches Some(m) ==> json_member(text@, key@) == Some(m@),
        forall|k: Seq<char>| (#[trigger] json_member(text@, k)) is Some <==> r is Some,
{
    match serde_json::from_str::<serde_json::Value>(text) {
        Ok(value) => Some(
            match value.get(key) {
                None => JsonMember::Absent,
                Some(member) => match member.as_str() {
                    None => JsonMember::NotText,
                    Some(s) => JsonMember::Text(s.to_string()),
                },
            },
        ),
        Err(_) => None,
    }
}

/// The members of a reply of the lyrics service that decide what is done with it.
pub struct LyricsReply {
    pub status_code: JsonMember,
    pub message: JsonMember,
    pub synced_lyrics: JsonMember,
}

impl View for LyricsReply {
    type V = (Option<Option<Seq<char>>>, Option<Option<Seq<char>>>, Option<Option<Seq<char>>>);

    open spec fn view(&self) -> Self::V {
        (self.status_code@, self.message@, self.synced_lyrics@)
    }
}

/// Whether a JSON text parses, so that each member the reply is read by
/// can be looked up.
pub open spec fn json_parses(text: Seq<char>) -> bool {
    &&& json_member(text, "statusCode"@) is Some
    &&& json_member(text, "message"@) is Some
    &&& json_member(text, "syncedLyrics"@) is Some
}

/// The reply read from a JSON text that parses.
pub open spec fn reply_of(text: Seq<char>) -> (Option<Option<Seq<char>>>, Option<Option<Seq<char>>>, Option<Option<Seq<char>>>) {
    (
        json_member(text, "statusCode"@)->0,
        json_member(text, "message"@)->0,
        json_member(text, "syncedLyrics"@)->0,
    )
}

/// Reads the members of a reply, or `None` when the text is not JSON.
pub fn read_reply(text: &str) -> (r: Option<LyricsReply>)
    ensures
        r is Some <==> json_parses(text@),
        r matches Some(rep) ==> rep@ == reply_of(text@),
{
    let status_code = read_member(text, "statusCode");
    let message = read_member(text, "message");
    let synced_lyrics = read_member(text, "syncedLyrics");
    match (status_code, message, synced_lyrics) {
        (Some(status_code), Some(message), Some(synced_lyrics)) => Some(
            LyricsReply { status_code, message, synced_lyrics },
        ),
        _ => None,
    }
}

} // verus!

verus! {

/// The song being played.
pub struct SongState {
    pub title: String,
    pub artist: String,
    pub album: String,
    /// The length taken from the last field of the metadata line.
    pub length: i64,
    /// The position the player reports (microseconds into the song).
    pub position: i64,
    pub lyrics_state: LyricsState,
    pub lyrics: Lyrics,
}

/// The metadata and the position stay as they were.
pub open spec fn song_kept(old: SongState, new: SongState) -> bool {
    &&& new.title == old.title
    &&& new.artist == old.artist
    &&& new.album == old.album
    &&& new.length == old.length
    &&& new.position == old.position
}

/// A reply the service's handling accepts: an error reply carries its
/// message as a string, and synced lyrics given as a string have timestamps
/// whose minutes fit in `i64` seconds.
pub open spec fn reply_acceptable(
    rep: (Option<Option<Seq<char>>>, Option<Option<Seq<char>>>, Option<Option<Seq<char>>>),
) -> bool {
    let (status_code, message, synced) = rep;
    &&& status_code is Some ==> (message matches Some(Some(_)))
    &&& status_code is None ==> (synced matches Some(Some(t)) ==> text_fits(t))
}

/// What handling the reply `rep` does to the song and answers: an error
/// reply (one with a `statusCode`) invalidates the lyrics and answers its
/// `message`; a reply whose `syncedLyrics` is a string loads them when they
/// hold at least one timed line, and invalidates the lyrics otherwise, as it
/// does when `syncedLyrics` is there but not a string (null, when the service
/// has only plain lyrics); any other reply invalidates the lyrics.
pub open spec fn reply_applied(
    old: SongState,
    rep: (Option<Option<Seq<char>>>, Option<Option<Seq<char>>>, Option<Option<Seq<char>>>),
    new: SongState,
    r: Seq<char>,
) -> bool {
    let (status_code, message, synced) = rep;
    &&& song_kept(old, new)
    &&& if status_code is Some {
        &&& r == message->0->0
        &&& new.lyrics_state == LyricsState::Invalidated
        &&& new.lyrics == old.lyrics
    } else if synced matches Some(Some(_)) {
        let text = synced->0->0;
        if synced_lines(text).len() > 0 {
            &&& r == "Lyrics loaded and parsed successfully"@
            &&& new.lyrics_state == LyricsState::Loaded
            &&& line_views(new.lyrics.lines@) == synced_lines(text)
            &&& drawn_at(new.lyrics, 0)
            &&& in_sync(new.lyrics)
        } else {
            &&& r == "Something's wrong (1)"@
            &&& new.lyrics_state == LyricsState::Invalidated
            &&& new.lyrics == old.lyrics
        }
    } else if synced is Some {
        &&& r == "Something's wrong (1)"@
        &&& new.lyrics_state == LyricsState::Invalidated
        &&& new.lyrics == old.lyrics
    } else {
        &&& r == "Something's wrong (2)"@
        &&& new.lyrics_state == LyricsState::Invalidated
        &&& new.lyrics == old.lyrics
    }
}

/// A response that handling accepts: a failed fetch, or a JSON reply that it
/// accepts.
pub open spec fn response_acceptable(response: Result<String, FetchError>) -> bool {
    response matches Ok(text) ==> json_parses(text@) && reply_acceptable(reply_of(text@))
}

/// What handling a response does: a failed fetch invalidates the lyrics
/// and answers `Error`; a reply is handled as `reply_applied` says.
pub open spec fn response_applied(
    old: SongState,
    response: Result<String, FetchError>,
    new: SongState,
    r: Seq<char>,
) -> bool {
    match response {
        Err(_) => {
            &&& song_kept(old, new)
            &&& r == "Error"@
            &&& new.lyrics_state == LyricsState::Invalidated
            &&& new.lyrics == old.lyrics
        },
        Ok(text) => reply_applied(old, reply_of(text@), new, r),
    }
}

/// The length `update_metadata` takes from its fourth field: the field
/// parsed as an `i64`, or `i64::MAX` when it is not one.
pub open spec fn length_of(field: Seq<char>) -> i64 {
    match parsed_i64(field) {
        Some(v) => v,
        None => i64::MAX,
    }
}

/// The text of a position as the player prints it, without the first
/// character and the last two (the quotes around it and the line feed).
pub open spec fn position_field(dirt: Seq<char>) -> Seq<char> {
    if dirt.len() <= 3 {
        seq![]
    } else {
        dirt.subrange(1, dirt.len() - 2)
    }
}

/// Drops the first character and the last two of the player's position output.
pub fn position_text(dirt: &str) -> (r: String)
    ensures
        r@ == position_field(dirt@),
{
    let v = chars_of(dirt);
    if v.len() <= 3 {
        String::new()
    } else {
        crate::text::string_from(&v, 1, v.len() - 2)
    }
}

impl SongState {
    /// No song: empty metadata, length and position 0, no lyrics.
    pub fn new() -> (r: Self)
        ensures
            r.title@.len() == 0,
            r.artist@.len() == 0,
            r.album@.len() == 0,
            r.length == 0,
            r.position == 0,
            r.lyrics_state == LyricsState::Invalidated,
            r.lyrics.lines@.len() == 0,
            r.lyrics.rendered_text@.len() == 0,
            r.lyrics.rendered_index == crate::lyrics::NO_LINE,
            in_sync(r.lyrics),
    {
        SongState {
            title: String::new(),
            artist: String::new(),
            album: String::new(),
            length: 0,
            position: 0,
            lyrics_state: LyricsState::Invalidated,
            lyrics: Lyrics::new(),
        }
    }

    /// Takes a `title|artist|album|length` line. When it has exactly four
    /// fields they become the song's metadata (a length that is not an `i64`
    /// becomes `i64::MAX`) and the answer is `true`; otherwise nothing
    /// changes and the answer is `false`.
    pub fn update_metadata(&mut self, line: &String) -> (r: bool)
        ensures
            r == (split_on(line@, '|').len() == 4),
            r ==> {
                let f = split_on(line@, '|');
                &&& final(self).title@ == f[0]
                &&& final(self).artist@ == f[1]
                &&& final(self).album@ == f[2]
                &&& final(self).length == length_of(f[3])
                &&& final(self).position == old(self).position
                &&& final(self).lyrics_state == old(self).lyrics_state
                &&& final(self).lyrics == old(self).lyrics
            },
            !r ==> *final(self) == *old(self),
    {
        let chars = chars_of(line.as_str());
        let values = split_at_char(&chars, '|');
        let ghost f = split_on(line@, '|');
        if values.len() == 4 {
            assert(values@[0]@ == f[0] && values@[1]@ == f[1] && values@[2]@ == f[2] && values@[3]@ == f[3]);
            self.title = values[0].clone();
            self.artist = values[1].clone();
            self.album = values[2].clone();
            self.length = match parse_i64(&values[3]) {
                Some(l) => l,
                None => i64::MAX,
            };
            true
        } else {
            false
        }
    }

    /// Takes the player's position (microseconds into the song) and tells
    /// whether it differs from the one held before.
    pub fn update_position(&mut self, position_us: i64) -> (r: bool)
        ensures
            r == (old(self).position != position_us),
            final(self).position == position_us,
            final(self).title == old(self).title,
            final(self).artist == old(self).artist,
            final(self).album == old(self).album,
            final(self).length == old(self).length,
            final(self).lyrics_state == old(self).lyrics_state,
            final(self).lyrics == old(self).lyrics,
    {
        let changed = self.position != position_us;
        self.position = position_us;
        changed
    }

    /// Handles a reply of the lyrics service whose members were read into `reply`.
    pub fn apply_reply(&mut self, reply: &LyricsReply) -> (r: String)
        requires
            reply_acceptable(reply@),
        ensures
            reply_applied(*old(self), reply@, *final(self), r@),
    {
        match &reply.status_code {
            JsonMember::Absent => {},
            _ => {
                let message = match &reply.message {
                    JsonMember::Text(s) => s.clone(),
                    _ => String::new(),
                };
                self.lyrics_state = LyricsState::Invalidated;
                return message;
            },
        }
        match &reply.synced_lyrics {
            JsonMember::Text(synced) => {
                if self.lyrics.convert_text(synced.as_str()) {
                    self.lyrics_state = LyricsState::Loaded;
                    String::from_str("Lyrics loaded and parsed successfully")
                } else {
                    self.lyrics_state = LyricsState::Invalidated;
                    String::from_str("Something's wrong (1)")
                }
            },
            JsonMember::NotText => {
                self.lyrics_state = LyricsState::Invalidated;
                String::from_str("Something's wrong (1)")
            },
            JsonMember::Absent => {
                self.lyrics_state = LyricsState::Invalidated;
                String::from_str("Something's wrong (2)")
            },
        }
    }

    /// Handles the response of the lyrics service: the reply's JSON text, or
    /// the error of a fetch that failed.
    pub fn apply_song_text(&mut self, maybe_server_response: Result<String, FetchError>) -> (r: String)
        requires
            response_acceptable(maybe_server_response),
        ensures
            response_applied(*old(self), maybe_server_response, *final(self), r@),
    {
        match &maybe_server_response {
            Err(_) => {
                self.lyrics_state = LyricsState::Invalidated;
                String::from_str("Error")
            },
            Ok(server_response) => {
                match read_reply(server_response.as_str()) {
                    Some(reply) => self.apply_reply(&reply),
                    None => String::new(),
                }
            },
        }
    }

    /// Handles the response of the lyrics service where `apply_song_text`
    /// accepts it; answers `None`, and changes nothing, where it does not (the
    /// reply is not JSON, an error reply has no message string, the synced
    /// lyrics hold a timestamp whose minutes overflow).
    pub fn try_apply_song_text(&mut self, maybe_server_response: Result<String, FetchError>) -> (r: Option<String>)
        ensures
            r is Some <==> response_acceptable(maybe_server_response),
            r is None ==> *final(self) == *old(self),
            r matches Some(s) ==> response_applied(*old(self), maybe_server_response, *final(self), s@),
    {
        let acceptable = match &maybe_server_response {
            Err(_) => true,
            Ok(server_response) => match read_reply(server_response.as_str()) {
                None => false,
                Some(reply) => reply_is_acceptable(&reply),
            },
        };
        if acceptable {
            Some(self.apply_song_text(maybe_server_response))
        } else {
            None
        }
    }
}

/// Whether handling accepts the reply (see `reply_acceptable`).
pub fn reply_is_acceptable(reply: &LyricsReply) -> (r: bool)
    ensures
        r == reply_acceptable(reply@),
{
    match &reply.status_code {
        JsonMember::Absent => {},
        _ => {
            return match &reply.message {
                JsonMember::Text(_) => true,
                _ => false,
            };
        },
    }
    match &reply.synced_lyrics {
        JsonMember::Text(t) => synced_lyric_lines(t.as_str()).is_some(),
        _ => true,
    }
}

} // verus!

verus! {

/// The metadata line the watcher writes, `title|artist|album|length`, is
/// read back by `update_metadata` as the title, artist, album and length it
/// was written from, when none of the first three holds a `|`.
pub proof fn lemma_metadata_write_read(title: Seq<char>, artist: Seq<char>, album: Seq<char>, length: nat)
    requires
        !title.contains('|'),
        !artist.contains('|'),
        !album.contains('|'),
        length <= i64::MAX,
    ensures
        ({
            let line = title + seq!['|'] + artist + seq!['|'] + album + seq!['|'] + crate::text::decimal(length);
            &&& split_on(line, '|').len() == 4
            &&& split_on(line, '|')[0] == title
            &&& split_on(line, '|')[1] == artist
            &&& split_on(line, '|')[2] == album
            &&& length_of(split_on(line, '|')[3]) == length
        }),
{
    let d = crate::text::decimal(length);
    crate::text::lemma_decimal(length);
    assert(!d.contains('|')) by {
        if d.contains('|') {
            let i = choose|i: int| 0 <= i < d.len() && d[i] == '|';
            assert('0' <= d[i] && d[i] <= '9');
        }
    }
    crate::text::lemma_split_join4(title, artist, album, d);
    crate::text::lemma_parse_decimal(length);
}

} // verus!

verus! {

/// Every reply on which handling does not fail is accepted: an error reply
/// with a message string, a reply without `statusCode` whose `syncedLyrics`
/// is a string whose timestamps fit, and a reply without `statusCode` whose
/// `syncedLyrics` is missing or not a string. The only replies refused are
/// error replies without a message string, and synced lyrics whose minutes
/// overflow.
pub proof fn lemma_replies_accepted(
    rep: (Option<Option<Seq<char>>>, Option<Option<Seq<char>>>, Option<Option<Seq<char>>>),
    t: Seq<char>,
)
    ensures
        (rep.0 is Some && rep.1 matches Some(Some(_))) ==> reply_acceptable(rep),
        (rep.0 is None && rep.2 == Some(Some(t)) && text_fits(t)) ==> reply_acceptable(rep),
        (rep.0 is None && !(rep.2 matches Some(Some(_)))) ==> reply_acceptable(rep),
        (rep.0 is Some && !(rep.1 matches Some(Some(_)))) ==> !reply_acceptable(rep),
        (rep.0 is None && rep.2 == Some(Some(t)) && !text_fits(t)) ==> !reply_acceptable(rep),
{
}

/// A reply without `statusCode` whose synced lyrics hold timed lines loads
/// exactly those lines, marks the lyrics loaded and says so; one whose synced
/// lyrics hold none leaves the lyrics as they were and marks them invalid.
pub proof fn lemma_synced_reply_loads(
    old: SongState,
    rep: (Option<Option<Seq<char>>>, Option<Option<Seq<char>>>, Option<Option<Seq<char>>>),
    new: SongState,
    r: Seq<char>,
    text: Seq<char>,
)
    requires
        rep.0 is None,
        rep.2 == Some(Some(text)),
        reply_applied(old, rep, new, r),
    ensures
        synced_lines(text).len() > 0 ==> {
            &&& new.lyrics_state == LyricsState::Loaded
            &&& line_views(new.lyrics.lines@) == synced_lines(text)
            &&& r == "Lyrics loaded and parsed successfully"@
        },
        synced_lines(text).len() == 0 ==> {
            &&& new.lyrics_state == LyricsState::Invalidated
            &&& new.lyrics == old.lyrics
        },
        song_kept(old, new),
{
}

} // verus!

verus! {

/// An error reply answers its message and invalidates the lyrics, keeping
/// them; a reply with neither `statusCode` nor a string `syncedLyrics`
/// invalidates them too; a failed fetch answers `Error`. None of them
/// touches the metadata.
pub proof fn lemma_other_replies(
    old: SongState,
    rep: (Option<Option<Seq<char>>>, Option<Option<Seq<char>>>, Option<Option<Seq<char>>>),
    new: SongState,
    r: Seq<char>,
    message: Seq<char>,
)
    requires
        reply_applied(old, rep, new, r),
    ensures
        (rep.0 is Some && rep.1 == Some(Some(message))) ==> r == message && new.lyrics_state
            == LyricsState::Invalidated && new.lyrics == old.lyrics,
        (rep.0 is None && !(rep.2 matches Some(Some(_)))) ==> new.lyrics_state
            == LyricsState::Invalidated && new.lyrics == old.lyrics,
        song_kept(old, new),
{
}

/// A fetch that failed answers `Error` and invalidates the lyrics, keeping them.
pub proof fn lemma_failed_fetch(old: SongState, e: FetchError, new: SongState, r: Seq<char>)
    requires
        response_applied(old, Err(e), new, r),
    ensures
        r == "Error"@,
        new.lyrics_state == LyricsState::Invalidated,
        new.lyrics == old.lyrics,
        song_kept(old, new),
{
}

} // verus!
