//! The lyrics of the current song and the view of them that the screen draws.
use vstd::prelude::*;

use crate::lrc::{synced_lines, synced_lyric_lines, text_fits};
use crate::text::{human_time, to_human};

verus! {

/// A timed lyric line: the second it starts at and its text.
pub struct LyricLine {
    pub seconds: i64,
    pub lyrics: String,
}

impl View for LyricLine {
    type V = (i64, Seq<char>);

    open spec fn view(&self) -> (i64, Seq<char>) {
        (self.seconds, self.lyrics@)
    }
}

/// The views of a sequence of lyric lines.
pub open spec fn line_views(ls: Seq<LyricLine>) -> Seq<(i64, Seq<char>)> {
    ls.map_values(|l: LyricLine| l@)
}

} // verus!

verus! {

/// The index that stands for "no line": the highlighted index before any
/// line's time has been reached.
pub const NO_LINE: usize = 1000000;

/// The index that stands for "nothing drawn yet": no line index is ever
/// this large, so the next redraw always draws.
pub const NOT_DRAWN: usize = usize::MAX;

/// A line as the lyrics view draws it: its `MM:SS ` label, its text, and
/// whether it is the line being sung (drawn highlighted).
pub struct RenderedLine {
    pub time_label: String,
    pub lyrics: String,
    pub highlighted: bool,
}

impl View for RenderedLine {
    type V = (Seq<char>, Seq<char>, bool);

    open spec fn view(&self) -> (Seq<char>, Seq<char>, bool) {
        (self.time_label@, self.lyrics@, self.highlighted)
    }
}

/// The views of a sequence of rendered lines.
pub open spec fn rendered_views(rs: Seq<RenderedLine>) -> Seq<(Seq<char>, Seq<char>, bool)> {
    rs.map_values(|r: RenderedLine| r@)
}

/// The lyrics of a song: its timed lines, and the view of them last drawn,
/// with the index of the line highlighted there.
pub struct Lyrics {
    pub lines: Vec<LyricLine>,
    pub rendered_text: Vec<RenderedLine>,
    pub rendered_index: usize,
}

/// Whether a line that starts at `secs` has been reached at `position_us`
/// (microseconds into the song).
pub open spec fn reached(secs: i64, position_us: i64) -> bool {
    secs * 1_000_000 <= position_us
}

/// The index of the last line whose time has been reached, or -1.
pub open spec fn last_reached(lines: Seq<(i64, Seq<char>)>, position_us: i64) -> int
    decreases lines.len(),
{
    if lines.len() == 0 {
        -1
    } else if reached(lines.last().0, position_us) {
        lines.len() - 1
    } else {
        last_reached(lines.drop_last(), position_us)
    }
}

/// The line to highlight at `position_us`: the last one whose time has been
/// reached, or `NO_LINE` when none has.
pub open spec fn current_index(lines: Seq<(i64, Seq<char>)>, position_us: i64) -> usize {
    if last_reached(lines, position_us) >= 0 {
        last_reached(lines, position_us) as usize
    } else {
        NO_LINE
    }
}

/// The lyrics view: each line with its `MM:SS ` label, the line at
/// `current` highlighted.
pub open spec fn render(lines: Seq<(i64, Seq<char>)>, current: int) -> Seq<(Seq<char>, Seq<char>, bool)> {
    Seq::new(
        lines.len(),
        |i: int| (human_time(lines[i].0 as int) + seq![' '], lines[i].1, i == current),
    )
}

/// `new` holds the view of `new.lines` at `position_us`, redrawn from `old`
/// only when the line to highlight has changed.
pub open spec fn restyled(old: Lyrics, new: Lyrics, position_us: i64) -> bool {
    let idx = current_index(line_views(new.lines@), position_us);
    if idx != old.rendered_index {
        &&& rendered_views(new.rendered_text@) == render(line_views(new.lines@), idx as int)
        &&& new.rendered_index == idx
    } else {
        &&& new.rendered_text@ == old.rendered_text@
        &&& new.rendered_index == old.rendered_index
    }
}

/// `l` shows the view of its lines at `position_us`: every line drawn,
/// the line to highlight there highlighted.
pub open spec fn drawn_at(l: Lyrics, position_us: i64) -> bool {
    let idx = current_index(line_views(l.lines@), position_us);
    &&& rendered_views(l.rendered_text@) == render(line_views(l.lines@), idx as int)
    &&& l.rendered_index == idx
}

/// The view drawn is the view of the lines with `rendered_index`
/// highlighted, unless nothing is drawn yet.
pub open spec fn in_sync(l: Lyrics) -> bool {
    l.rendered_index == NOT_DRAWN || rendered_views(l.rendered_text@) == render(
        line_views(l.lines@),
        l.rendered_index as int,
    )
}

/// The properties of `last_reached`.
pub proof fn lemma_last_reached(lines: Seq<(i64, Seq<char>)>, position_us: i64)
    ensures
        -1 <= last_reached(lines, position_us) < lines.len(),
        last_reached(lines, position_us) >= 0 ==> reached(
            lines[last_reached(lines, position_us)].0,
            position_us,
        ),
        forall|j: int|
            last_reached(lines, position_us) < j < lines.len() ==> !reached(
                #[trigger] lines[j].0,
                position_us,
            ),
    decreases lines.len(),
{
    if lines.len() > 0 && !reached(lines.last().0, position_us) {
        lemma_last_reached(lines.drop_last(), position_us);
        assert forall|j: int| last_reached(lines, position_us) < j < lines.len() implies !reached(
            #[trigger] lines[j].0,
            position_us,
        ) by {
            if j < lines.len() - 1 {
                assert(lines[j] == lines.drop_last()[j]);
            }
        }
        if last_reached(lines, position_us) >= 0 {
            assert(lines[last_reached(lines, position_us)] == lines.drop_last()[last_reached(
                lines,
                position_us,
            )]);
        }
    }
}

impl Lyrics {
    /// No lines, nothing drawn, no line highlighted.
    pub fn new() -> (r: Self)
        ensures
            r.lines@.len() == 0,
            r.rendered_text@.len() == 0,
            r.rendered_index == NO_LINE,
            in_sync(r),
    {
        let r = Lyrics { lines: Vec::new(), rendered_text: Vec::new(), rendered_index: NO_LINE };
        assert(rendered_views(r.rendered_text@) =~= render(line_views(r.lines@), NO_LINE as int));
        r
    }

    /// Clears the lyrics while those of another song come: no lines, an
    /// empty view, and nothing drawn, so that the lyrics loaded next are drawn
    /// at once.
    pub fn reset(&mut self)
        ensures
            final(self).lines@.len() == 0,
            final(self).rendered_text@.len() == 0,
            final(self).rendered_index == NOT_DRAWN,
            in_sync(*final(self)),
    {
        self.lines = Vec::new();
        self.rendered_text = Vec::new();
        self.rendered_index = NOT_DRAWN;
    }

    /// The index of the line to highlight at `position_us` microseconds into
    /// the song: the last line whose time has been reached, or `NO_LINE`.
    pub fn current_lyric_index(&self, position_us: i64) -> (r: usize)
        ensures
            r == current_index(line_views(self.lines@), position_us),
    {
        let ghost lv = line_views(self.lines@);
        let mut i = self.lines.len();
        assert(lv.take(i as int) == lv);
        while i > 0
            invariant
                i <= self.lines@.len(),
                lv == line_views(self.lines@),
                last_reached(lv, position_us) == last_reached(lv.take(i as int), position_us),
            decreases i,
        {
            let ghost pre = lv.take(i as int);
            assert(pre.last() == lv[i - 1]);
            assert(pre.drop_last() == lv.take(i - 1));
            let secs = self.lines[i - 1].seconds;
            if (secs as i128) * 1_000_000 <= position_us as i128 {
                proof {
                    lemma_last_reached(lv, position_us);
                }
                return i - 1;
            }
            i = i - 1;
        }
        assert(lv.take(0) =~= Seq::<(i64, Seq<char>)>::empty());
        NO_LINE
    }

    /// The view of the lines with `current` highlighted.
    fn render_lines(&self, current: usize) -> (r: Vec<RenderedLine>)
        ensures
            rendered_views(r@) == render(line_views(self.lines@), current as int),
    {
        let ghost lv = line_views(self.lines@);
        let mut out: Vec<RenderedLine> = Vec::new();
        let mut i: usize = 0;
        while i < self.lines.len()
            invariant
                i <= self.lines@.len(),
                lv == line_views(self.lines@),
                rendered_views(out@) == render(lv, current as int).take(i as int),
            decreases self.lines@.len() - i,
        {
            let line = &self.lines[i];
            let mut label = to_human(line.seconds);
            label.push(' ');
            let r = RenderedLine {
                time_label: label,
                lyrics: line.lyrics.clone(),
                highlighted: i == current,
            };
            let ghost before = out@;
            assert(lv[i as int] == self.lines@[i as int]@);
            assert(r@ == render(lv, current as int)[i as int]);
            out.push(r);
            proof {
                assert(rendered_views(out@) == rendered_views(before).push(r@));
                assert(render(lv, current as int).take(i + 1) == render(lv, current as int).take(
                    i as int,
                ).push(render(lv, current as int)[i as int]));
            }
            i = i + 1;
        }
        assert(render(lv, current as int).take(i as int) == render(lv, current as int));
        out
    }

    /// The view to draw at `position_us` and its highlighted index, when the
    /// line to highlight differs from the one drawn last.
    fn style_text(&self, position_us: i64) -> (r: Option<(Vec<RenderedLine>, usize)>)
        ensures
            ({
                let idx = current_index(line_views(self.lines@), position_us);
                if idx != self.rendered_index {
                    r matches Some((t, i)) && i == idx && rendered_views(t@) == render(
                        line_views(self.lines@),
                        idx as int,
                    )
                } else {
                    r is None
                }
            }),
    {
        let current = self.current_lyric_index(position_us);
        if current != self.rendered_index {
            Some((self.render_lines(current), current))
        } else {
            None
        }
    }

    /// Redraws the view for `position_us` when the line to highlight has changed.
    pub fn update_style_text(&mut self, position_us: i64)
        ensures
            final(self).lines@ == old(self).lines@,
            restyled(*old(self), *final(self), position_us),
            in_sync(*old(self)) ==> in_sync(*final(self)) && drawn_at(*final(self), position_us),
    {
        proof {
            let lv = line_views(self.lines@);
            lemma_last_reached(lv, position_us);
            assert(lv.len() == self.lines@.len());
            assert(self.lines@.len() == self.lines.len());
            assert(current_index(lv, position_us) != NOT_DRAWN);
        }
        if let Some((t, idx)) = self.style_text(position_us) {
            self.rendered_text = t;
            self.rendered_index = idx;
        }
    }

    /// Takes `lines` as the song's lyrics and draws them at once, as at the
    /// start of the song, whether or not the time of their first line has come.
    pub fn set_text(&mut self, lines: Vec<LyricLine>)
        ensures
            final(self).lines@ == lines@,
            drawn_at(*final(self), 0),
            in_sync(*final(self)),
    {
        self.lines = lines;
        self.redraw(0);
    }

    /// Draws the view for `position_us` afresh, whatever was drawn before.
    pub fn redraw(&mut self, position_us: i64)
        ensures
            final(self).lines@ == old(self).lines@,
            drawn_at(*final(self), position_us),
            in_sync(*final(self)),
    {
        let idx = self.current_lyric_index(position_us);
        self.rendered_text = self.render_lines(idx);
        self.rendered_index = idx;
    }

    /// Reads the timed lines of a synced-lyrics text. When there is at least
    /// one, they become the song's lyrics, drawn at the start of the song, and
    /// the answer is `true`; otherwise nothing changes and the answer is `false`.
    pub fn convert_text(&mut self, synced: &str) -> (r: bool)
        requires
            text_fits(synced@),
        ensures
            r == (synced_lines(synced@).len() > 0),
            r ==> line_views(final(self).lines@) == synced_lines(synced@)
                && drawn_at(*final(self), 0) && in_sync(*final(self)),
            !r ==> *final(self) == *old(self),
    {
        let lines = match synced_lyric_lines(synced) {
            Some(v) => v,
            None => { return false; },
        };
        if lines.len() == 0 {
            false
        } else {
            self.set_text(lines);
            true
        }
    }
}

} // verus!

verus! {

/// The highlighted line only moves forward as the song plays: at a later
/// position, the last line whose time has been reached is no earlier.
pub proof fn lemma_highlight_monotone(lines: Seq<(i64, Seq<char>)>, p1: i64, p2: i64)
    requires
        p1 <= p2,
    ensures
        last_reached(lines, p1) <= last_reached(lines, p2),
        lines.len() <= NO_LINE && current_index(lines, p1) != NO_LINE ==> current_index(lines, p2)
            != NO_LINE && current_index(lines, p1) <= current_index(lines, p2),
    decreases lines.len(),
{
    lemma_last_reached(lines, p1);
    lemma_last_reached(lines, p2);
    if lines.len() > 0 && !reached(lines.last().0, p2) {
        lemma_highlight_monotone(lines.drop_last(), p1, p2);
    }
}

/// Redrawing twice at the same position: the second time changes nothing.
pub proof fn lemma_restyle_settles(a: Lyrics, b: Lyrics, c: Lyrics, position_us: i64)
    requires
        b.lines@ == a.lines@,
        c.lines@ == b.lines@,
        restyled(a, b, position_us),
        restyled(b, c, position_us),
    ensures
        c.rendered_text@ == b.rendered_text@,
        c.rendered_index == b.rendered_index,
{
}

/// The view drawn highlights exactly the line to highlight at its position,
/// and labels each line with its time.
pub proof fn lemma_render_highlights(lines: Seq<(i64, Seq<char>)>, position_us: i64, i: int)
    requires
        0 <= i < lines.len(),
    ensures
        render(lines, current_index(lines, position_us) as int)[i].2 <==> (
        current_index(lines, position_us) == i),
        render(lines, current_index(lines, position_us) as int)[i].0 == human_time(lines[i].0 as int)
            + seq![' '],
        render(lines, current_index(lines, position_us) as int)[i].1 == lines[i].1,
{
}

} // verus!
