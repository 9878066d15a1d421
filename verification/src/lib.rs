//! Galdrar: synchronised song lyrics for whatever the desktop media player is
//! playing. The library holds the verified core: the LRC grammar of timed
//! lyric lines, the choice of the line to highlight, the song metadata and
//! the decisions of the player watcher and of the terminal screen.
pub mod text;
pub mod lrc;
pub mod lyrics;
pub mod songstate;
pub mod player;
pub mod screen;

pub use lrc::{checked_lyric_line, parse_lyric_line, synced_lyric_lines, StampOverflow};
pub use lyrics::{LyricLine, Lyrics, RenderedLine, NOT_DRAWN, NO_LINE};
pub use player::{first_playing, is_playing, parse_player_list, FollowStep, PlayerWatch, TrackInfo, WatchStep};
pub use screen::{Key, Screen};
pub use songstate::{
    position_text, read_reply, reply_is_acceptable, FetchError, JsonMember, LyricsReply,
    LyricsState, SongState,
};
pub use text::{parse_i64, to_human, trim};
