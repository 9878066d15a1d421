//! The LRC grammar of a timed lyric line, `[MM:SS.xx] text`, and the time of
//! such a line in whole seconds.
use vstd::prelude::*;

use crate::lyrics::{line_views, LyricLine};
use crate::text::{
    ascii_numeral, decimal, lemma_decimal, lemma_skip_space, numeral_value, read_numeral,
    white_space,
    char_views, chars_of, has_line_feed, line_feed_from, lines_of, skip_space, skip_space_from,
    split_lines, string_from,
};

verus! {

/// Whether `c` is in the regex crate's `\d` class, the Unicode general
/// category `Nd` (decimal digit).
pub uninterp spec fn regex_digit(c: char) -> bool;

/// The regex crate's `\d` class, tested on one character: a pattern made of
/// that class alone, anchored at both ends, is matched against the character.
/// The contract claims only that the answer is the one the name
/// `regex_digit` stands for.
#[verifier::external_body]
fn class_digit(c: char) -> (r: bool)
    ensures
        r == regex_digit(c),
{
    let mut buf = [0u8; 4];
    regex::Regex::new(r"^\d$").unwrap().is_match(c.encode_utf8(&mut buf))
}

/// A digit of the timestamp: the regex `\d` class. Among ASCII characters that
/// class holds `0` to `9` and nothing else; beyond ASCII it is `regex_digit`.
pub open spec fn lrc_digit(c: char) -> bool {
    if (c as u32) < 128 {
        '0' <= c && c <= '9'
    } else {
        regex_digit(c)
    }
}

fn is_lrc_digit(c: char) -> (r: bool)
    ensures
        r == lrc_digit(c),
{
    if (c as u32) < 128 {
        '0' <= c && c <= '9'
    } else {
        class_digit(c)
    }
}

/// A non-empty run of `\d` characters.
pub open spec fn digit_run(s: Seq<char>) -> bool {
    &&& s.len() > 0
    &&& forall|i: int| 0 <= i < s.len() ==> lrc_digit(#[trigger] s[i])
}

/// The timestamp `[m:s.f]`.
pub open spec fn stamp(m: Seq<char>, s: Seq<char>, f: Seq<char>) -> Seq<char> {
    seq!['['] + m + seq![':'] + s + seq!['.'] + f + seq![']']
}

/// `line` matches `^\[(\d+):(\d+\.\d+)\]\s*(.*)$` with `m`, `s` and `f` as the
/// three runs of digits: the line starts with the timestamp, and what follows
/// it, once leading white space is skipped, holds no line feed (`.` does not
/// match one).
pub open spec fn lrc_split(line: Seq<char>, m: Seq<char>, s: Seq<char>, f: Seq<char>) -> bool {
    &&& digit_run(m)
    &&& digit_run(s)
    &&& digit_run(f)
    &&& stamp(m, s, f).len() <= line.len()
    &&& line.take(stamp(m, s, f).len() as int) == stamp(m, s, f)
    &&& !has_line_feed(skip_space(line.skip(stamp(m, s, f).len() as int)))
}

/// The fields of a timed lyric line: minutes digits, seconds digits, fraction
/// digits and the lyric text; `None` when the line is not one.
pub open spec fn lrc_fields(line: Seq<char>) -> Option<(Seq<char>, Seq<char>, Seq<char>, Seq<char>)> {
    if exists|m: Seq<char>, s: Seq<char>, f: Seq<char>| lrc_split(line, m, s, f) {
        let (m, s, f) = choose|m: Seq<char>, s: Seq<char>, f: Seq<char>| lrc_split(line, m, s, f);
        Some((m, s, f, skip_space(line.skip(stamp(m, s, f).len() as int))))
    } else {
        None
    }
}

/// Where the pieces of a matching line stand.
proof fn lemma_split_layout(line: Seq<char>, m: Seq<char>, s: Seq<char>, f: Seq<char>)
    requires
        lrc_split(line, m, s, f),
    ensures
        line[0] == '[',
        forall|i: int| 1 <= i < 1 + m.len() ==> lrc_digit(#[trigger] line[i]) && line[i] == m[i - 1],
        line[(1 + m.len()) as int] == ':',
        forall|i: int| 2 + m.len() <= i < 2 + m.len() + s.len()
            ==> lrc_digit(#[trigger] line[i]) && line[i] == s[i - 2 - m.len()],
        line[(2 + m.len() + s.len()) as int] == '.',
        forall|i: int| 3 + m.len() + s.len() <= i < 3 + m.len() + s.len() + f.len()
            ==> lrc_digit(#[trigger] line[i]) && line[i] == f[i - 3 - m.len() - s.len()],
        line[(3 + m.len() + s.len() + f.len()) as int] == ']',
        stamp(m, s, f).len() == 4 + m.len() + s.len() + f.len(),
{
    let st = stamp(m, s, f);
    assert(line.take(st.len() as int) == st);
    assert forall|i: int| 0 <= i < st.len() implies line[i] == st[i] by {
        assert(line.take(st.len() as int)[i] == line[i]);
    }
    assert forall|i: int| 1 <= i < 1 + m.len() implies lrc_digit(#[trigger] line[i]) && line[i] == m[i - 1] by {
        assert(st[i] == m[i - 1]);
        assert(lrc_digit(m[i - 1]));
    }
    assert forall|i: int| 2 + m.len() <= i < 2 + m.len() + s.len()
        implies lrc_digit(#[trigger] line[i]) && line[i] == s[i - 2 - m.len()] by {
        assert(st[i] == s[i - 2 - m.len()]);
        assert(lrc_digit(s[i - 2 - m.len()]));
    }
    assert forall|i: int| 3 + m.len() + s.len() <= i < 3 + m.len() + s.len() + f.len()
        implies lrc_digit(#[trigger] line[i]) && line[i] == f[i - 3 - m.len() - s.len()] by {
        assert(st[i] == f[i - 3 - m.len() - s.len()]);
        assert(lrc_digit(f[i - 3 - m.len() - s.len()]));
    }
    assert(st[0] == '[');
    assert(st[(1 + m.len()) as int] == ':');
    assert(st[(2 + m.len() + s.len()) as int] == '.');
    assert(st[(3 + m.len() + s.len() + f.len()) as int] == ']');
}

/// The LRC grammar is unambiguous: a line splits into timestamp digits in at
/// most one way.
pub proof fn lemma_lrc_split_unique(
    line: Seq<char>,
    m1: Seq<char>,
    s1: Seq<char>,
    f1: Seq<char>,
    m2: Seq<char>,
    s2: Seq<char>,
    f2: Seq<char>,
)
    requires
        lrc_split(line, m1, s1, f1),
        lrc_split(line, m2, s2, f2),
    ensures
        m1 == m2,
        s1 == s2,
        f1 == f2,
{
    lemma_split_layout(line, m1, s1, f1);
    lemma_split_layout(line, m2, s2, f2);
    if m1.len() < m2.len() {
        assert(lrc_digit(line[(1 + m1.len()) as int]));
    } else if m2.len() < m1.len() {
        assert(lrc_digit(line[(1 + m2.len()) as int]));
    }
    assert(m1.len() == m2.len());
    if s1.len() < s2.len() {
        assert(lrc_digit(line[(2 + m1.len() + s1.len()) as int]));
    } else if s2.len() < s1.len() {
        assert(lrc_digit(line[(2 + m1.len() + s2.len()) as int]));
    }
    assert(s1.len() == s2.len());
    if f1.len() < f2.len() {
        assert(lrc_digit(line[(3 + m1.len() + s1.len() + f1.len()) as int]));
    } else if f2.len() < f1.len() {
        assert(lrc_digit(line[(3 + m1.len() + s1.len() + f2.len()) as int]));
    }
    assert(f1.len() == f2.len());
    assert(m1 =~= m2) by {
        assert forall|i: int| 0 <= i < m1.len() implies m1[i] == m2[i] by {
            assert(line[i + 1] == m1[i]);
        }
    }
    assert(s1 =~= s2) by {
        assert forall|i: int| 0 <= i < s1.len() implies s1[i] == s2[i] by {
            assert(line[(i + 2 + m1.len()) as int] == s1[i]);
        }
    }
    assert(f1 =~= f2) by {
        assert forall|i: int| 0 <= i < f1.len() implies f1[i] == f2[i] by {
            assert(line[(i + 3 + m1.len() + s1.len()) as int] == f1[i]);
        }
    }
}

/// The end of the run of `\d` characters that starts at `from`.
fn digits_end(v: &Vec<char>, from: usize) -> (end: usize)
    requires
        from <= v@.len(),
    ensures
        from <= end <= v@.len(),
        forall|i: int| from <= i < end ==> lrc_digit(#[trigger] v@[i]),
        end < v@.len() ==> !lrc_digit(v@[end as int]),
{
    let mut i = from;
    while i < v.len() && is_lrc_digit(v[i])
        invariant
            from <= i <= v@.len(),
            forall|k: int| from <= k < i ==> lrc_digit(#[trigger] v@[k]),
        decreases v@.len() - i,
    {
        i = i + 1;
    }
    i
}

/// Where the fields of a matching line stand in it: the minutes run is
/// `v[1..a]`, the seconds run `v[a+1..b]`, the fraction run `v[b+1..c]` and
/// the lyric text `v[d..]`.
pub struct LrcLayout {
    pub a: usize,
    pub b: usize,
    pub c: usize,
    pub d: usize,
}

/// Whether `lay` is where the fields of `lrc_fields(line)` stand.
pub open spec fn layout_of(line: Seq<char>, lay: LrcLayout) -> bool {
    &&& 1 < lay.a < lay.b < lay.c < lay.d <= line.len()
    &&& lay.a + 1 < lay.b && lay.b + 1 < lay.c
    &&& lrc_fields(line) == Some((
        line.subrange(1, lay.a as int),
        line.subrange(lay.a + 1, lay.b as int),
        line.subrange(lay.b + 1, lay.c as int),
        line.skip(lay.d as int),
    ))
}

/// Matches a line against the LRC grammar.
pub fn match_lrc(v: &Vec<char>) -> (r: Option<LrcLayout>)
    ensures
        r is None <==> lrc_fields(v@) is None,
        r matches Some(lay) ==> layout_of(v@, lay),
{
    let ghost line = v@;
    let len = v.len();
    if len == 0 || v[0] != '[' {
        proof { lemma_no_split_if(line); }
        return None;
    }
    let a = digits_end(v, 1);
    if a == 1 || a >= len || v[a] != ':' {
        proof {
            assert forall|m: Seq<char>, s: Seq<char>, f: Seq<char>| lrc_split(line, m, s, f) implies false by {
                lemma_split_layout(line, m, s, f);
                run_end_is(line, 1, a as int, m.len() as int);
            }
        }
        return None;
    }
    let b = digits_end(v, a + 1);
    if b == a + 1 || b >= len || v[b] != '.' {
        proof {
            assert forall|m: Seq<char>, s: Seq<char>, f: Seq<char>| lrc_split(line, m, s, f) implies false by {
                lemma_split_layout(line, m, s, f);
                run_end_is(line, 1, a as int, m.len() as int);
                run_end_is(line, a + 1, b as int, s.len() as int);
            }
        }
        return None;
    }
    let c = digits_end(v, b + 1);
    if c == b + 1 || c >= len || v[c] != ']' {
        proof {
            assert forall|m: Seq<char>, s: Seq<char>, f: Seq<char>| lrc_split(line, m, s, f) implies false by {
                lemma_split_layout(line, m, s, f);
                run_end_is(line, 1, a as int, m.len() as int);
                run_end_is(line, a + 1, b as int, s.len() as int);
                run_end_is(line, b + 1, c as int, f.len() as int);
            }
        }
        return None;
    }
    let d = skip_space_from(v, c + 1);
    let ghost m = line.subrange(1, a as int);
    let ghost s = line.subrange(a + 1, b as int);
    let ghost f = line.subrange(b + 1, c as int);
    proof {
        let st = stamp(m, s, f);
        assert(st.len() == c + 1);
        assert(line.take(c + 1) =~= st) by {
            assert forall|i: int| 0 <= i < c + 1 implies line.take(c + 1)[i] == st[i] by {
                if i == 0 {
                } else if i < a {
                    assert(st[i] == m[i - 1]);
                } else if i == a {
                } else if i < b {
                    assert(st[i] == s[i - a - 1]);
                } else if i == b {
                } else if i < c {
                    assert(st[i] == f[i - b - 1]);
                } else {
                }
            }
        }
        assert(digit_run(m)) by {
            assert forall|i: int| 0 <= i < m.len() implies lrc_digit(#[trigger] m[i]) by {
                assert(m[i] == line[i + 1]);
            }
        }
        assert(digit_run(s)) by {
            assert forall|i: int| 0 <= i < s.len() implies lrc_digit(#[trigger] s[i]) by {
                assert(s[i] == line[i + a + 1]);
            }
        }
        assert(digit_run(f)) by {
            assert forall|i: int| 0 <= i < f.len() implies lrc_digit(#[trigger] f[i]) by {
                assert(f[i] == line[i + b + 1]);
            }
        }
    }
    if line_feed_from(v, d) {
        proof {
            assert forall|m2: Seq<char>, s2: Seq<char>, f2: Seq<char>| lrc_split(line, m2, s2, f2) implies false by {
                lemma_split_layout(line, m2, s2, f2);
                run_end_is(line, 1, a as int, m2.len() as int);
                run_end_is(line, a + 1, b as int, s2.len() as int);
                run_end_is(line, b + 1, c as int, f2.len() as int);
            }
        }
        return None;
    }
    proof {
        assert(lrc_split(line, m, s, f));
        let (m2, s2, f2) = choose|m2: Seq<char>, s2: Seq<char>, f2: Seq<char>| lrc_split(line, m2, s2, f2);
        lemma_lrc_split_unique(line, m, s, f, m2, s2, f2);
    }
    Some(LrcLayout { a, b, c, d })
}

/// No split exists when the line does not start with `[`.
proof fn lemma_no_split_if(line: Seq<char>)
    requires
        line.len() == 0 || line[0] != '[',
    ensures
        !(exists|m: Seq<char>, s: Seq<char>, f: Seq<char>| lrc_split(line, m, s, f)),
{
    assert forall|m: Seq<char>, s: Seq<char>, f: Seq<char>| lrc_split(line, m, s, f) implies false by {
        lemma_split_layout(line, m, s, f);
    }
}

/// A maximal run of digits from `from` that ends at `end` is the run of
/// length `n` that a split puts there, when the character after the latter
/// is not a digit.
proof fn run_end_is(line: Seq<char>, from: int, end: int, n: int)
    requires
        0 <= from <= end <= line.len(),
        forall|i: int| from <= i < end ==> lrc_digit(#[trigger] line[i]),
        end < line.len() ==> !lrc_digit(line[end]),
        n > 0,
        from + n < line.len(),
        forall|i: int| from <= i < from + n ==> lrc_digit(#[trigger] line[i]),
        !lrc_digit(line[from + n]),
    ensures
        end == from + n,
{
    if end < from + n {
        assert(lrc_digit(line[end]));
    } else if end > from + n {
        assert(lrc_digit(line[from + n]));
    }
}

} // verus!

verus! {

/// The minutes of a timestamp: what `str::parse::<i64>` makes of the run,
/// with 0 in place of a failed parse (a digit outside ASCII, or a value
/// beyond `i64::MAX`).
pub open spec fn minutes_of(m: Seq<char>) -> int {
    if ascii_numeral(m) && numeral_value(m) <= i64::MAX {
        numeral_value(m) as int
    } else {
        0
    }
}

/// The seconds `s.f` of a timestamp rounded to the nearest whole second,
/// halves away from zero; 0 when `s.f` is not a number (a digit outside ASCII).
pub open spec fn rounded_seconds(s: Seq<char>, f: Seq<char>) -> int {
    if ascii_numeral(s) && ascii_numeral(f) && f.len() > 0 {
        numeral_value(s) + if f[0] >= '5' { 1int } else { 0int }
    } else {
        0
    }
}

/// The time of a timestamp in whole seconds, `60 * minutes + seconds`
/// rounded, held at `i64::MAX` when larger.
pub open spec fn stamp_seconds(m: Seq<char>, s: Seq<char>, f: Seq<char>) -> i64 {
    let t = 60 * minutes_of(m) + rounded_seconds(s, f);
    if t > i64::MAX {
        i64::MAX
    } else {
        t as i64
    }
}

/// Whether `60 * minutes` of the line's timestamp stays within `i64`, the
/// condition under which its time is computed without overflow.
pub open spec fn stamp_fits(line: Seq<char>) -> bool {
    lrc_fields(line) matches Some((m, _, _, _)) ==> 60 * minutes_of(m) <= i64::MAX
}

/// The time of a line whose timestamp digits stand at `lay`, or `None` when
/// `60 * minutes` leaves `i64`.
fn stamp_time(v: &Vec<char>, lay: &LrcLayout) -> (r: Option<i64>)
    requires
        layout_of(v@, *lay),
    ensures
        r is Some <==> stamp_fits(v@),
        r matches Some(t) ==> t == stamp_seconds(
            v@.subrange(1, lay.a as int),
            v@.subrange(lay.a + 1, lay.b as int),
            v@.subrange(lay.b + 1, lay.c as int),
        ),
{
    let ghost m = v@.subrange(1, lay.a as int);
    let ghost s = v@.subrange(lay.a + 1, lay.b as int);
    let ghost f = v@.subrange(lay.b + 1, lay.c as int);
    let (m_ascii, m_val) = read_numeral(v, 1, lay.a);
    let minutes: u128 = if m_ascii && m_val <= 0x7fff_ffff_ffff_ffff { m_val } else { 0 };
    assert(minutes == minutes_of(m));
    if minutes > 0x7fff_ffff_ffff_ffff / 60 {
        return None;
    }
    let (s_ascii, s_val) = read_numeral(v, lay.a + 1, lay.b);
    let (f_ascii, _) = read_numeral(v, lay.b + 1, lay.c);
    let first = v[lay.b + 1];
    assert(f[0] == first);
    let secs: u128 = if s_ascii && f_ascii {
        if first >= '5' { s_val + 1 } else { s_val }
    } else {
        0
    };
    let total: u128 = minutes * 60 + secs;
    let t: i64 = if total > 0x7fff_ffff_ffff_ffff { 0x7fff_ffff_ffff_ffff } else { total as i64 };
    Some(t)
}

} // verus!

verus! {

/// The time and text of a line, when it is a timed lyric line.
pub open spec fn lyric_line_of(line: Seq<char>) -> Option<(i64, Seq<char>)> {
    match lrc_fields(line) {
        Some((m, s, f, t)) => Some((stamp_seconds(m, s, f), t)),
        None => None,
    }
}

/// The timed lyric lines among `lines`, in order; the others are dropped.
pub open spec fn lyric_lines_of(lines: Seq<Seq<char>>) -> Seq<(i64, Seq<char>)>
    decreases lines.len(),
{
    if lines.len() == 0 {
        seq![]
    } else {
        let init = lyric_lines_of(lines.drop_last());
        match lyric_line_of(lines.last()) {
            Some(x) => init.push(x),
            None => init,
        }
    }
}

/// The timed lyric lines of a synced-lyrics text.
pub open spec fn synced_lines(text: Seq<char>) -> Seq<(i64, Seq<char>)> {
    lyric_lines_of(lines_of(text))
}

/// Every line's timestamp has its minutes within `i64` once multiplied by 60.
pub open spec fn text_fits(text: Seq<char>) -> bool {
    forall|i: int| 0 <= i < lines_of(text).len() ==> stamp_fits(#[trigger] lines_of(text)[i])
}

/// Reads one line: `Err` when its minutes overflow, else the timed lyric
/// line it holds, if any.
fn read_line(v: &Vec<char>) -> (r: Result<Option<LyricLine>, ()>)
    ensures
        r is Ok <==> stamp_fits(v@),
        r matches Ok(o) ==> match o {
            Some(l) => lyric_line_of(v@) == Some(l@),
            None => lyric_line_of(v@) is None,
        },
{
    match match_lrc(v) {
        None => Ok(None),
        Some(lay) => {
            match stamp_time(v, &lay) {
                None => Err(()),
                Some(t) => {
                    let text = string_from(v, lay.d, v.len());
                    proof {
                        assert(v@.skip(lay.d as int) == v@.subrange(lay.d as int, v@.len() as int));
                    }
                    Ok(Some(LyricLine { seconds: t, lyrics: text }))
                },
            }
        },
    }
}

/// A timestamp whose minutes, counted in seconds, leave `i64`.
#[derive(Clone, Copy, Debug, PartialEq, Eq, Structural)]
pub struct StampOverflow;

/// The timed lyric line that `line` holds, if it holds one; `Err` when its
/// timestamp's minutes, counted in seconds, leave `i64`.
pub fn checked_lyric_line(line: &str) -> (r: Result<Option<LyricLine>, StampOverflow>)
    ensures
        r is Ok <==> stamp_fits(line@),
        r matches Ok(o) ==> match o {
            Some(l) => lyric_line_of(line@) == Some(l@),
            None => lyric_line_of(line@) is None,
        },
{
    let v = chars_of(line);
    match read_line(&v) {
        Ok(o) => Ok(o),
        Err(_) => Err(StampOverflow),
    }
}

/// The timed lyric line that `line` holds, if it holds one.
pub fn parse_lyric_line(line: &str) -> (r: Option<LyricLine>)
    requires
        stamp_fits(line@),
    ensures
        match r {
            Some(l) => lyric_line_of(line@) == Some(l@),
            None => lyric_line_of(line@) is None,
        },
{
    let v = chars_of(line);
    match read_line(&v) {
        Ok(o) => o,
        Err(_) => None,
    }
}

/// The timed lyric lines of a synced-lyrics text, or `None` when one of
/// them has minutes too large to count in seconds.
pub fn synced_lyric_lines(text: &str) -> (r: Option<Vec<LyricLine>>)
    ensures
        r is Some <==> text_fits(text@),
        r matches Some(v) ==> line_views(v@) == synced_lines(text@),
{
    let chars = chars_of(text);
    let lines = split_lines(&chars);
    let ghost ls = lines_of(text@);
    let mut out: Vec<LyricLine> = Vec::new();
    let mut i: usize = 0;
    while i < lines.len()
        invariant
            char_views(lines@) == ls,
            ls == lines_of(text@),
            0 <= i <= lines@.len(),
            forall|k: int| 0 <= k < i ==> stamp_fits(#[trigger] ls[k]),
            line_views(out@) == lyric_lines_of(ls.take(i as int)),
        decreases lines@.len() - i,
    {
        assert(ls[i as int] == lines@[i as int]@);
        assert(ls.take(i + 1).drop_last() == ls.take(i as int));
        assert(ls.take(i + 1).last() == ls[i as int]);
        match read_line(&lines[i]) {
            Err(_) => {
                return None;
            },
            Ok(None) => {},
            Ok(Some(l)) => {
                let ghost before = out@;
                out.push(l);
                assert(line_views(out@) == line_views(before).push(l@));
            },
        }
        i = i + 1;
    }
    assert(ls.take(i as int) == ls);
    Some(out)
}

} // verus!

verus! {

/// Writing a timed line and reading it back: the line
/// `[<minutes>:<seconds>.<fraction>]<text>`, with the minutes and seconds
/// written as decimal numerals, reads back as the text and the time
/// `60 * minutes + seconds`, rounded up by the fraction from one half on,
/// when the text starts with no white space and holds no line feed.
pub proof fn lemma_lrc_write_read(minutes: nat, seconds: nat, fraction: Seq<char>, text: Seq<char>)
    requires
        60 * minutes <= i64::MAX,
        fraction.len() > 0,
        ascii_numeral(fraction),
        text.len() > 0 ==> !white_space(text[0]),
        !has_line_feed(text),
    ensures
        ({
            let line = stamp(decimal(minutes), decimal(seconds), fraction) + text;
            let t = 60 * minutes + seconds + if fraction[0] >= '5' { 1int } else { 0int };
            &&& stamp_fits(line)
            &&& lyric_line_of(line) == Some(
                (if t > i64::MAX { i64::MAX } else { t as i64 }, text),
            )
        }),
{
    let m = decimal(minutes);
    let s = decimal(seconds);
    lemma_decimal(minutes);
    lemma_decimal(seconds);
    let st = stamp(m, s, fraction);
    let line = st + text;
    assert forall|i: int| 0 <= i < m.len() implies lrc_digit(#[trigger] m[i]) by {
        assert('0' <= m[i] && m[i] <= '9');
    }
    assert forall|i: int| 0 <= i < s.len() implies lrc_digit(#[trigger] s[i]) by {
        assert('0' <= s[i] && s[i] <= '9');
    }
    assert forall|i: int| 0 <= i < fraction.len() implies lrc_digit(#[trigger] fraction[i]) by {
        assert('0' <= fraction[i] && fraction[i] <= '9');
    }
    assert(line.take(st.len() as int) == st);
    assert(line.skip(st.len() as int) == text);
    lemma_skip_space(text, 0);
    assert(text.skip(0) == text);
    assert(lrc_split(line, m, s, fraction));
    let (m2, s2, f2) = choose|m2: Seq<char>, s2: Seq<char>, f2: Seq<char>| lrc_split(line, m2, s2, f2);
    lemma_lrc_split_unique(line, m, s, fraction, m2, s2, f2);
    assert(minutes_of(m) == minutes);
    assert(rounded_seconds(s, fraction) == seconds + if fraction[0] >= '5' { 1int } else { 0int });
}

} // verus!

verus! {

/// Reading the lines of `a` then those of `b` keeps the timed lines of
/// both, in order: nothing is dropped, merged or reordered at the seam.
pub proof fn lemma_lyric_lines_concat(a: Seq<Seq<char>>, b: Seq<Seq<char>>)
    ensures
        lyric_lines_of(a + b) == lyric_lines_of(a) + lyric_lines_of(b),
    decreases b.len(),
{
    if b.len() == 0 {
        assert(a + b == a);
        assert(lyric_lines_of(b) == Seq::<(i64, Seq<char>)>::empty());
        assert(lyric_lines_of(a) + lyric_lines_of(b) == lyric_lines_of(a));
    } else {
        assert((a + b).drop_last() == a + b.drop_last());
        assert((a + b).last() == b.last());
        lemma_lyric_lines_concat(a, b.drop_last());
        match lyric_line_of(b.last()) {
            Some(x) => {
                assert(lyric_lines_of(a) + lyric_lines_of(b.drop_last()).push(x) == (lyric_lines_of(a)
                    + lyric_lines_of(b.drop_last())).push(x));
            },
            None => {},
        }
    }
}

/// Every timed line is kept: one more timed line at the end gives exactly
/// one more entry, its time and text, whatever its text (an empty one too)
/// and whatever came before (the same text too).
pub proof fn lemma_timed_line_kept(ls: Seq<Seq<char>>, l: Seq<char>)
    ensures
        lyric_line_of(l) matches Some(x) ==> lyric_lines_of(ls.push(l)) == lyric_lines_of(ls).push(x),
        lyric_line_of(l) is None ==> lyric_lines_of(ls.push(l)) == lyric_lines_of(ls),
{
    assert(ls.push(l).drop_last() == ls);
    assert(ls.push(l).last() == l);
}

/// When every line is a timed line, each one gives its own entry: as many
/// entries as lines, entry `i` being the time and text of line `i`.
pub proof fn lemma_all_timed_lines_kept(ls: Seq<Seq<char>>)
    requires
        forall|i: int| 0 <= i < ls.len() ==> (#[trigger] lyric_line_of(ls[i])) is Some,
    ensures
        lyric_lines_of(ls).len() == ls.len(),
        forall|i: int| 0 <= i < ls.len() ==> lyric_line_of(ls[i]) == Some(#[trigger] lyric_lines_of(ls)[i]),
    decreases ls.len(),
{
    if ls.len() > 0 {
        let init = ls.drop_last();
        assert forall|i: int| 0 <= i < init.len() implies (#[trigger] lyric_line_of(init[i])) is Some by {
            assert(init[i] == ls[i]);
        }
        lemma_all_timed_lines_kept(init);
        assert(lyric_line_of(ls[ls.len() - 1]) is Some);
        assert forall|i: int| 0 <= i < ls.len() implies lyric_line_of(ls[i]) == Some(
            #[trigger] lyric_lines_of(ls)[i],
        ) by {
            if i < ls.len() - 1 {
                assert(ls[i] == init[i]);
            }
        }
    }
}

/// A text that starts with a line (no line feed in it, and no carriage
/// return at its end) followed by a line feed: its timed lines are those of
/// that first line, then those of the rest.
pub proof fn lemma_synced_lines_cons(l: Seq<char>, rest: Seq<char>)
    requires
        !l.contains('\n'),
        l.len() == 0 || l.last() != '\r',
    ensures
        synced_lines(l + seq!['\n'] + rest) == match lyric_line_of(l) {
            Some(x) => seq![x] + synced_lines(rest),
            None => synced_lines(rest),
        },
{
    let s = l + seq!['\n'] + rest;
    assert forall|i: int| 0 <= i < l.len() implies s[i] != '\n' by {
        assert(s[i] == l[i]);
    }
    crate::text::lemma_till_at(s, '\n', l.len() as int);
    assert(s.take(l.len() as int) == l);
    assert(s.skip(l.len() + 1 as int) == rest);
    assert(lines_of(s) == seq![l] + lines_of(rest));
    lemma_lyric_lines_concat(seq![l], lines_of(rest));
    lemma_timed_line_kept(Seq::<Seq<char>>::empty(), l);
    assert(Seq::<Seq<char>>::empty().push(l) == seq![l]);
    assert(lyric_lines_of(Seq::<Seq<char>>::empty()) == Seq::<(i64, Seq<char>)>::empty());
    match lyric_line_of(l) {
        Some(x) => {
            assert(Seq::<(i64, Seq<char>)>::empty().push(x) == seq![x]);
        },
        None => {
            assert(Seq::<(i64, Seq<char>)>::empty() + synced_lines(rest) == synced_lines(rest));
        },
    }
}

} // verus!
