//! Characters, decimal numerals and the text helpers the rest of the crate builds on.
use vstd::prelude::*;

verus! {

/// Appending one character to a `String` (`std::string::String::push`).
pub assume_specification[ String::push ](s: &mut String, ch: char)
    ensures
        final(s)@ == old(s)@.push(ch),
;

/// The ASCII character of a decimal digit.
pub open spec fn digit_char(d: int) -> char {
    (d + 48) as char
}

/// The decimal numeral of a natural number, without leading zeros.
pub open spec fn decimal(n: nat) -> Seq<char>
    decreases n,
{
    if n < 10 {
        seq![digit_char(n as int)]
    } else {
        decimal(n / 10).push(digit_char((n % 10) as int))
    }
}

/// Quotient of Rust's integer division, which rounds towards zero.
pub open spec fn trunc_div(a: int, b: int) -> int
    recommends
        b > 0,
{
    if a >= 0 {
        a / b
    } else {
        -((-a) / b)
    }
}

/// Remainder of Rust's integer division: it has the sign of the dividend.
pub open spec fn trunc_rem(a: int, b: int) -> int
    recommends
        b > 0,
{
    a - b * trunc_div(a, b)
}

/// What `format!("{:02}", n)` prints: the numeral, zero-padded to two
/// characters; a minus sign counts towards the width.
pub open spec fn pad2(n: int) -> Seq<char> {
    if n < 0 {
        seq!['-'] + decimal((-n) as nat)
    } else if n < 10 {
        seq!['0'] + decimal(n as nat)
    } else {
        decimal(n as nat)
    }
}

/// `MM:SS` for a number of seconds: minutes and seconds, each as `pad2`.
pub open spec fn human_time(secs: int) -> Seq<char> {
    pad2(trunc_div(secs, 60)) + seq![':'] + pad2(trunc_rem(secs, 60))
}

fn digit_of(d: u64) -> (c: char)
    requires
        d < 10,
    ensures
        c == digit_char(d as int),
{
    let b: u8 = d as u8;
    (b + 48) as char
}

/// Appends the decimal numeral of `n`.
pub fn push_decimal(s: &mut String, n: u64)
    ensures
        final(s)@ == old(s)@ + decimal(n as nat),
    decreases n,
{
    if n >= 10 {
        push_decimal(s, n / 10);
    }
    s.push(digit_of(n % 10));
    proof {
        if n >= 10 {
            assert(decimal(n as nat) == decimal((n / 10) as nat).push(digit_char((n % 10) as int)));
        }
    }
}

fn push_pad2(s: &mut String, n: i64)
    requires
        n > i64::MIN,
    ensures
        final(s)@ == old(s)@ + pad2(n as int),
{
    if n < 0 {
        s.push('-');
        let m: u64 = (-n) as u64;
        push_decimal(s, m);
    } else if n < 10 {
        s.push('0');
        push_decimal(s, n as u64);
    } else {
        push_decimal(s, n as u64);
    }
}

/// Formats a number of seconds as `MM:SS`, the way the lyrics view labels its lines.
pub fn to_human(secs: i64) -> (r: String)
    ensures
        r@ == human_time(secs as int),
{
    let q: i64 = secs / 60;
    let rem: i64 = secs % 60;
    assert(q == trunc_div(secs as int, 60));
    let mut out = String::new();
    push_pad2(&mut out, q);
    out.push(':');
    push_pad2(&mut out, rem);
    out
}

} // verus!

verus! {

/// Whether `c` has the Unicode `White_Space` property: tab, line feed,
/// vertical tab, form feed, carriage return, space, next line, no-break
/// space, ogham space mark, the spaces from en quad to hair space, line
/// separator, paragraph separator, narrow no-break space, medium
/// mathematical space and ideographic space.
pub open spec fn white_space(c: char) -> bool {
    let u = c as u32;
    ||| 0x09 <= u && u <= 0x0d
    ||| u == 0x20
    ||| u == 0x85
    ||| u == 0xa0
    ||| u == 0x1680
    ||| 0x2000 <= u && u <= 0x200a
    ||| u == 0x2028
    ||| u == 0x2029
    ||| u == 0x202f
    ||| u == 0x205f
    ||| u == 0x3000
}

/// `char::is_whitespace`: true exactly for the characters with the Unicode
/// `White_Space` property, listed by `white_space`.
pub assume_specification[ char::is_whitespace ](c: char) -> (r: bool)
    ensures
        r == white_space(c),
;

/// The characters of a string slice, in order.
pub fn chars_of(s: &str) -> (v: Vec<char>)
    ensures
        v@ == s@,
{
    broadcast use vstd::string::group_string_axioms;
    let mut v: Vec<char> = Vec::new();
    for c in it: s.chars()
        invariant
            v@ == it.seq().take(it.index() as int),
            it.seq() == s@,
    {
        v.push(c);
    }
    v
}

} // verus!

verus! {

/// A `String` holding `v[lo..hi]`.
pub fn string_from(v: &Vec<char>, lo: usize, hi: usize) -> (r: String)
    requires
        lo <= hi <= v@.len(),
    ensures
        r@ == v@.subrange(lo as int, hi as int),
{
    let mut r = String::new();
    let mut i = lo;
    while i < hi
        invariant
            lo <= i <= hi <= v@.len(),
            r@ == v@.subrange(lo as int, i as int),
        decreases hi - i,
    {
        r.push(v[i]);
        assert(v@.subrange(lo as int, i + 1) == v@.subrange(lo as int, i as int).push(v@[i as int]));
        i = i + 1;
    }
    r
}

/// Whether the sequence holds a line feed.
pub open spec fn has_line_feed(s: Seq<char>) -> bool {
    exists|i: int| 0 <= i < s.len() && s[i] == '\n'
}

/// Whether `v[from..]` holds a line feed.
pub fn line_feed_from(v: &Vec<char>, from: usize) -> (r: bool)
    requires
        from <= v@.len(),
    ensures
        r == has_line_feed(v@.skip(from as int)),
{
    let mut i = from;
    while i < v.len()
        invariant
            from <= i <= v@.len(),
            forall|k: int| from <= k < i ==> v@[k] != '\n',
        decreases v@.len() - i,
    {
        if v[i] == '\n' {
            assert(v@.skip(from as int)[i - from] == '\n');
            return true;
        }
        i = i + 1;
    }
    assert forall|k: int| 0 <= k < v@.skip(from as int).len() implies v@.skip(from as int)[k] != '\n' by {
        assert(v@.skip(from as int)[k] == v@[from + k]);
    }
    false
}

/// The sequence without its leading `White_Space` characters.
pub open spec fn skip_space(s: Seq<char>) -> Seq<char>
    decreases s.len(),
{
    if s.len() > 0 && white_space(s[0]) {
        skip_space(s.drop_first())
    } else {
        s
    }
}

/// Skipping a run of white space that ends before a character that is not.
pub proof fn lemma_skip_space(s: Seq<char>, k: int)
    requires
        0 <= k <= s.len(),
        forall|i: int| 0 <= i < k ==> white_space(s[i]),
        k < s.len() ==> !white_space(s[k]),
    ensures
        skip_space(s) == s.skip(k),
    decreases k,
{
    if k == 0 {
        assert(s.skip(0) == s);
    } else {
        lemma_skip_space(s.drop_first(), k - 1);
        assert(s.drop_first().skip(k - 1) == s.skip(k));
    }
}

/// The first index at or after `from` where the character is not white space.
pub fn skip_space_from(v: &Vec<char>, from: usize) -> (end: usize)
    requires
        from <= v@.len(),
    ensures
        from <= end <= v@.len(),
        skip_space(v@.skip(from as int)) == v@.skip(end as int),
{
    let mut i = from;
    while i < v.len() && v[i].is_whitespace()
        invariant
            from <= i <= v@.len(),
            forall|k: int| from <= k < i ==> white_space(v@[k]),
        decreases v@.len() - i,
    {
        i = i + 1;
    }
    proof {
        let s = v@.skip(from as int);
        lemma_skip_space(s, i - from);
        assert(s.skip(i - from) == v@.skip(i as int));
    }
    i
}

} // verus!

verus! {

/// The index of the first `c` in `s`, or the length of `s` when there is none.
pub open spec fn till(s: Seq<char>, c: char) -> int
    decreases s.len(),
{
    if s.len() == 0 || s[0] == c {
        0
    } else {
        1 + till(s.drop_first(), c)
    }
}

pub proof fn lemma_till_bounds(s: Seq<char>, c: char)
    ensures
        0 <= till(s, c) <= s.len(),
        till(s, c) < s.len() ==> s[till(s, c)] == c,
        forall|i: int| 0 <= i < till(s, c) ==> s[i] != c,
    decreases s.len(),
{
    if s.len() > 0 && s[0] != c {
        lemma_till_bounds(s.drop_first(), c);
        assert forall|i: int| 0 <= i < till(s, c) implies s[i] != c by {
            if i > 0 {
                assert(s[i] == s.drop_first()[i - 1]);
            }
        }
    }
}

/// The first `c` stands at `k`.
pub proof fn lemma_till_at(s: Seq<char>, c: char, k: int)
    requires
        0 <= k <= s.len(),
        forall|i: int| 0 <= i < k ==> s[i] != c,
        k < s.len() ==> s[k] == c,
    ensures
        till(s, c) == k,
    decreases k,
{
    if k > 0 {
        assert forall|i: int| 0 <= i < k - 1 implies s.drop_first()[i] != c by {
            assert(s.drop_first()[i] == s[i + 1]);
        }
        lemma_till_at(s.drop_first(), c, k - 1);
    }
}

/// A line without the carriage return that ends it, if one does.
pub open spec fn strip_cr(l: Seq<char>) -> Seq<char> {
    if l.len() > 0 && l.last() == '\r' {
        l.drop_last()
    } else {
        l
    }
}

/// The lines of a text, as `str::lines` gives them: the text is split at each
/// line feed, a carriage return just before a line feed goes with it, and a
/// line feed at the very end opens no further line.
pub open spec fn lines_of(s: Seq<char>) -> Seq<Seq<char>>
    decreases s.len(),
{
    if s.len() == 0 {
        seq![]
    } else if till(s, '\n') >= s.len() {
        seq![s]
    } else {
        proof {
            lemma_till_bounds(s, '\n');
        }
        seq![strip_cr(s.take(till(s, '\n')))] + lines_of(s.skip(till(s, '\n') + 1))
    }
}

/// The views of a sequence of character vectors.
pub open spec fn char_views(ls: Seq<Vec<char>>) -> Seq<Seq<char>> {
    ls.map_values(|l: Vec<char>| l@)
}

/// The characters `v[lo..hi]`.
pub fn sub_vec(v: &Vec<char>, lo: usize, hi: usize) -> (r: Vec<char>)
    requires
        lo <= hi <= v@.len(),
    ensures
        r@ == v@.subrange(lo as int, hi as int),
{
    let mut r: Vec<char> = Vec::new();
    let mut i = lo;
    while i < hi
        invariant
            lo <= i <= hi <= v@.len(),
            r@ == v@.subrange(lo as int, i as int),
        decreases hi - i,
    {
        r.push(v[i]);
        assert(v@.subrange(lo as int, i + 1) == v@.subrange(lo as int, i as int).push(v@[i as int]));
        i = i + 1;
    }
    r
}

/// Splits a text into its lines (see `lines_of`).
pub fn split_lines(v: &Vec<char>) -> (r: Vec<Vec<char>>)
    ensures
        char_views(r@) == lines_of(v@),
{
    let len = v.len();
    let mut out: Vec<Vec<char>> = Vec::new();
    let mut start: usize = 0;
    let mut i: usize = 0;
    assert(v@.skip(0) == v@);
    while i < len
        invariant
            len == v@.len(),
            0 <= start <= i <= len,
            char_views(out@) + lines_of(v@.skip(start as int)) == lines_of(v@),
            forall|k: int| start <= k < i ==> v@[k] != '\n',
        decreases len - i,
    {
        if v[i] == '\n' {
            let ghost s = v@.skip(start as int);
            proof {
                lemma_till_at(s, '\n', i - start);
                assert(s.take(i - start) == v@.subrange(start as int, i as int));
                assert(s.skip(i - start + 1) == v@.skip(i + 1));
            }
            let hi = if i > start && v[i - 1] == '\r' { i - 1 } else { i };
            let line = sub_vec(v, start, hi);
            assert(line@ == strip_cr(s.take(i - start)));
            let ghost before = out@;
            out.push(line);
            proof {
                assert(char_views(out@) == char_views(before).push(line@));
                assert(lines_of(s) == seq![line@] + lines_of(v@.skip(i + 1)));
                assert(char_views(out@) + lines_of(v@.skip(i + 1))
                    == char_views(before) + lines_of(s));
            }
            start = i + 1;
        }
        i = i + 1;
    }
    let ghost s = v@.skip(start as int);
    if start < len {
        proof {
            lemma_till_at(s, '\n', s.len() as int);
        }
        let line = sub_vec(v, start, len);
        let ghost before = out@;
        out.push(line);
        proof {
            assert(char_views(out@) == char_views(before).push(line@));
            assert(lines_of(s) == seq![s]);
            assert(line@ == s);
        }
    } else {
        assert(s.len() == 0);
        assert(char_views(out@) + lines_of(s) == char_views(out@));
    }
    out
}

} // verus!

verus! {

/// Whether every character is an ASCII digit.
pub open spec fn ascii_numeral(s: Seq<char>) -> bool {
    forall|i: int| 0 <= i < s.len() ==> '0' <= #[trigger] s[i] && s[i] <= '9'
}

/// The value of a numeral of ASCII digits.
pub open spec fn numeral_value(s: Seq<char>) -> nat
    decreases s.len(),
{
    if s.len() == 0 {
        0
    } else {
        numeral_value(s.drop_last()) * 10 + (s.last() as int - 48) as nat
    }
}

/// The value `2^64` at which numerals are held: anything that large is past
/// every `i64`.
pub open spec fn numeral_cap() -> nat {
    0x1_0000_0000_0000_0000
}

/// Reads a run of digits `v[lo..hi]`: whether all are ASCII, and their value
/// held at `numeral_cap()`.
pub fn read_numeral(v: &Vec<char>, lo: usize, hi: usize) -> (r: (bool, u128))
    requires
        lo <= hi <= v@.len(),
    ensures
        r.0 == ascii_numeral(v@.subrange(lo as int, hi as int)),
        r.0 ==> r.1 == if numeral_value(v@.subrange(lo as int, hi as int)) < numeral_cap() {
            numeral_value(v@.subrange(lo as int, hi as int))
        } else {
            numeral_cap()
        },
{
    let cap: u128 = 0x1_0000_0000_0000_0000;
    let mut val: u128 = 0;
    let mut i = lo;
    while i < hi
        invariant
            lo <= i <= hi <= v@.len(),
            cap == numeral_cap(),
            ascii_numeral(v@.subrange(lo as int, i as int)),
            val == if numeral_value(v@.subrange(lo as int, i as int)) < numeral_cap() {
                numeral_value(v@.subrange(lo as int, i as int))
            } else {
                numeral_cap()
            },
        decreases hi - i,
    {
        let c = v[i];
        let ghost prefix = v@.subrange(lo as int, i as int);
        let ghost next = v@.subrange(lo as int, i + 1);
        assert(next.drop_last() == prefix);
        assert(next.last() == c);
        if !('0' <= c && c <= '9') {
            assert(!ascii_numeral(v@.subrange(lo as int, hi as int))) by {
                assert(v@.subrange(lo as int, hi as int)[i - lo] == c);
            }
            return (false, 0);
        }
        let d: u128 = (c as u32 - 48) as u128;
        let nv = val * 10 + d;
        val = if nv < cap { nv } else { cap };
        assert(ascii_numeral(next)) by {
            assert forall|k: int| 0 <= k < next.len() implies '0' <= #[trigger] next[k] && next[k] <= '9' by {
                if k < prefix.len() {
                    assert(next[k] == prefix[k]);
                }
            }
        }
        i = i + 1;
    }
    (true, val)
}

} // verus!

verus! {

/// The pieces of `s` between occurrences of `c`, as `str::split(c)` gives
/// them: one more piece than there are separators, empty pieces kept.
pub open spec fn split_on(s: Seq<char>, c: char) -> Seq<Seq<char>>
    decreases s.len(),
{
    if till(s, c) >= s.len() {
        seq![s]
    } else {
        proof {
            lemma_till_bounds(s, c);
        }
        seq![s.take(till(s, c))] + split_on(s.skip(till(s, c) + 1), c)
    }
}

/// The views of a sequence of strings.
pub open spec fn string_views(ls: Seq<String>) -> Seq<Seq<char>> {
    ls.map_values(|l: String| l@)
}

/// Splits `v` at each `c` (see `split_on`).
pub fn split_at_char(v: &Vec<char>, c: char) -> (r: Vec<String>)
    ensures
        string_views(r@) == split_on(v@, c),
{
    let len = v.len();
    let mut out: Vec<String> = Vec::new();
    let mut start: usize = 0;
    let mut i: usize = 0;
    assert(v@.skip(0) == v@);
    while i < len
        invariant
            len == v@.len(),
            0 <= start <= i <= len,
            string_views(out@) + split_on(v@.skip(start as int), c) == split_on(v@, c),
            forall|k: int| start <= k < i ==> v@[k] != c,
        decreases len - i,
    {
        if v[i] == c {
            let ghost s = v@.skip(start as int);
            proof {
                lemma_till_at(s, c, i - start);
                assert(s.take(i - start) == v@.subrange(start as int, i as int));
                assert(s.skip(i - start + 1) == v@.skip(i + 1));
            }
            let piece = string_from(v, start, i);
            let ghost before = out@;
            out.push(piece);
            proof {
                assert(string_views(out@) == string_views(before).push(piece@));
                assert(split_on(s, c) == seq![piece@] + split_on(v@.skip(i + 1), c));
                assert(string_views(out@) + split_on(v@.skip(i + 1), c) == string_views(before)
                    + split_on(s, c));
            }
            start = i + 1;
        }
        i = i + 1;
    }
    let ghost s = v@.skip(start as int);
    proof {
        lemma_till_at(s, c, s.len() as int);
        assert(s == v@.subrange(start as int, len as int));
    }
    let piece = string_from(v, start, len);
    let ghost before = out@;
    out.push(piece);
    assert(string_views(out@) == string_views(before).push(piece@));
    out
}

/// What `str::parse::<i64>` gives: an optional `+` or `-` followed by at
/// least one ASCII digit, with the value in range; `None` otherwise.
pub open spec fn parsed_i64(s: Seq<char>) -> Option<i64> {
    if s.len() > 0 && (s[0] == '+' || s[0] == '-') {
        let d = s.drop_first();
        let v: int = if s[0] == '-' { -numeral_value(d) } else { numeral_value(d) as int };
        if d.len() > 0 && ascii_numeral(d) && i64::MIN <= v && v <= i64::MAX {
            Some(v as i64)
        } else {
            None
        }
    } else if s.len() > 0 && ascii_numeral(s) && numeral_value(s) <= i64::MAX {
        Some(numeral_value(s) as i64)
    } else {
        None
    }
}

/// Parses a decimal `i64` (see `parsed_i64`).
pub fn parse_i64(s: &String) -> (r: Option<i64>)
    ensures
        r == parsed_i64(s@),
{
    let v = chars_of(s.as_str());
    let len = v.len();
    if len == 0 {
        return None;
    }
    if v[0] == '+' || v[0] == '-' {
        let (ok, val) = read_numeral(&v, 1, len);
        assert(v@.subrange(1, len as int) == v@.drop_first());
        if len == 1 || !ok {
            return None;
        }
        if v[0] == '-' {
            if val <= 0x8000_0000_0000_0000 {
                let n: i128 = 0 - (val as i128);
                return Some(n as i64);
            }
            return None;
        } else {
            if val <= 0x7fff_ffff_ffff_ffff {
                return Some(val as i64);
            }
            return None;
        }
    }
    let (ok, val) = read_numeral(&v, 0, len);
    assert(v@.subrange(0, len as int) == v@);
    if ok && val <= 0x7fff_ffff_ffff_ffff {
        Some(val as i64)
    } else {
        None
    }
}

} // verus!

verus! {

/// The sequence without its trailing `White_Space` characters.
pub open spec fn skip_space_end(s: Seq<char>) -> Seq<char>
    decreases s.len(),
{
    if s.len() > 0 && white_space(s.last()) {
        skip_space_end(s.drop_last())
    } else {
        s
    }
}

/// The sequence without leading and trailing white space, as `str::trim` gives it.
pub open spec fn trimmed(s: Seq<char>) -> Seq<char> {
    skip_space_end(skip_space(s))
}

proof fn lemma_skip_space_end(s: Seq<char>, k: int)
    requires
        0 <= k <= s.len(),
        forall|i: int| k <= i < s.len() ==> white_space(s[i]),
        k > 0 ==> !white_space(s[k - 1]),
    ensures
        skip_space_end(s) == s.take(k),
    decreases s.len() - k,
{
    if k == s.len() {
        assert(s.take(k) == s);
    } else {
        lemma_skip_space_end(s.drop_last(), k);
        assert(s.drop_last().take(k) == s.take(k));
    }
}

/// `s` without leading and trailing white space (see `trimmed`).
pub fn trim(s: &str) -> (r: String)
    ensures
        r@ == trimmed(s@),
{
    let v = chars_of(s);
    let lo = skip_space_from(&v, 0);
    assert(v@.skip(0) == v@);
    let mut hi = v.len();
    while hi > lo && v[hi - 1].is_whitespace()
        invariant
            lo <= hi <= v@.len(),
            forall|i: int| hi <= i < v@.len() ==> white_space(v@[i]),
        decreases hi,
    {
        hi = hi - 1;
    }
    proof {
        let t = v@.skip(lo as int);
        lemma_skip_space_end(t, hi - lo);
        assert(t.take(hi - lo) == v@.subrange(lo as int, hi as int));
    }
    string_from(&v, lo, hi)
}

/// Whether `p` occurs in `s` as a contiguous run.
pub open spec fn occurs_in(p: Seq<char>, s: Seq<char>) -> bool {
    exists|i: int| 0 <= i && i + p.len() <= s.len() && #[trigger] s.subrange(i, i + p.len()) == p
}

/// Whether `p` occurs in `s` (`str::contains` with a string pattern).
pub fn contains(s: &str, p: &str) -> (r: bool)
    ensures
        r == occurs_in(p@, s@),
{
    let sv = chars_of(s);
    let pv = chars_of(p);
    let n = sv.len();
    let k = pv.len();
    if k > n {
        return false;
    }
    let mut i: usize = 0;
    while i <= n - k
        invariant
            sv@ == s@,
            pv@ == p@,
            n == sv@.len(),
            k == pv@.len(),
            k <= n,
            i <= n - k + 1,
            forall|j: int| 0 <= j < i ==> #[trigger] sv@.subrange(j, j + k) != pv@,
        decreases n - i,
    {
        let mut j: usize = 0;
        while j < k && sv[i + j] == pv[j]
            invariant
                i + k <= n,
                n == sv@.len(),
                k == pv@.len(),
                j <= k,
                forall|t: int| 0 <= t < j ==> sv@[i + t] == pv@[t],
            decreases k - j,
        {
            j = j + 1;
        }
        if j == k {
            assert(sv@.subrange(i as int, i + k) =~= pv@);
            assert(s@.subrange(i as int, i + p@.len()) == p@);
            return true;
        }
        assert(sv@.subrange(i as int, i + k)[j as int] != pv@[j as int]);
        i = i + 1;
    }
    assert(!occurs_in(p@, s@)) by {
        assert forall|j: int| 0 <= j && j + p@.len() <= s@.len() implies #[trigger] s@.subrange(j, j + p@.len()) != p@ by {
            assert(j < i);
            assert(sv@.subrange(j, j + k) != pv@);
        }
    }
    false
}

} // verus!

verus! {

/// A decimal numeral is a non-empty run of ASCII digits with the value it
/// was written for.
pub proof fn lemma_decimal(n: nat)
    ensures
        decimal(n).len() > 0,
        ascii_numeral(decimal(n)),
        numeral_value(decimal(n)) == n,
    decreases n,
{
    if n >= 10 {
        lemma_decimal(n / 10);
        let d = decimal(n);
        assert(d.drop_last() == decimal(n / 10));
        assert(d.last() == digit_char((n % 10) as int));
        assert(digit_char((n % 10) as int) as int == (n % 10) + 48);
        assert((n / 10) * 10 + n % 10 == n);
        assert(numeral_value(d) == numeral_value(d.drop_last()) * 10 + (d.last() as int - 48) as nat);
        assert(numeral_value(d.drop_last()) == n / 10);
        assert((d.last() as int - 48) as nat == n % 10);
        assert(numeral_value(d) == n);
        assert forall|i: int| 0 <= i < d.len() implies '0' <= #[trigger] d[i] && d[i] <= '9' by {
            if i < d.len() - 1 {
                assert(d[i] == decimal(n / 10)[i]);
            }
        }
    } else {
        assert(decimal(n) == seq![digit_char(n as int)]);
        assert(digit_char(n as int) as int == n + 48);
        assert(decimal(n).drop_last() =~= Seq::<char>::empty());
        assert(numeral_value(decimal(n).drop_last()) == 0);
        assert(decimal(n).last() as int == n + 48);
        assert(numeral_value(decimal(n)) == n);
    }
}

/// What `parse::<i64>` reads back from the numeral of a value in range is that value.
pub proof fn lemma_parse_decimal(n: nat)
    requires
        n <= i64::MAX,
    ensures
        parsed_i64(decimal(n)) == Some(n as i64),
{
    lemma_decimal(n);
    let d = decimal(n);
    assert('0' <= d[0] && d[0] <= '9');
}

/// Splitting a text that starts with a piece free of the separator.
proof fn lemma_split_on_cons(a: Seq<char>, c: char, rest: Seq<char>)
    requires
        !a.contains(c),
    ensures
        split_on(a + seq![c] + rest, c) == seq![a] + split_on(rest, c),
{
    let s = a + seq![c] + rest;
    assert forall|i: int| 0 <= i < a.len() implies s[i] != c by {
        assert(s[i] == a[i]);
    }
    lemma_till_at(s, c, a.len() as int);
    assert(s.take(a.len() as int) == a);
    assert(s.skip(a.len() + 1 as int) == rest);
}

proof fn lemma_split_on_single(a: Seq<char>, c: char)
    requires
        !a.contains(c),
    ensures
        split_on(a, c) == seq![a],
{
    lemma_till_at(a, c, a.len() as int);
}

/// Joining four pieces free of `|` with `|` and splitting the result at `|`
/// gives back the four pieces.
pub proof fn lemma_split_join4(a: Seq<char>, b: Seq<char>, c: Seq<char>, d: Seq<char>)
    requires
        !a.contains('|'),
        !b.contains('|'),
        !c.contains('|'),
        !d.contains('|'),
    ensures
        split_on(a + seq!['|'] + b + seq!['|'] + c + seq!['|'] + d, '|') == seq![a, b, c, d],
{
    let r3 = d;
    let r2 = c + seq!['|'] + d;
    let r1 = b + seq!['|'] + r2;
    lemma_split_on_single(d, '|');
    lemma_split_on_cons(c, '|', r3);
    lemma_split_on_cons(b, '|', r2);
    lemma_split_on_cons(a, '|', r1);
    assert(a + seq!['|'] + b + seq!['|'] + c + seq!['|'] + d == a + seq!['|'] + r1);
    assert(seq![a] + (seq![b] + (seq![c] + seq![d])) == seq![a, b, c, d]);
}

} // verus!

verus! {

/// The `MM:SS` of a time of zero or more seconds reads back as that time:
/// the minutes are at least two digits, the seconds exactly two and under
/// 60, both plain numerals, the colon the only one, and
/// `60 * minutes + seconds` is the time.
pub proof fn lemma_human_time_reads_back(secs: int)
    requires
        secs >= 0,
    ensures
        ({
            let m = secs / 60;
            let r = secs % 60;
            &&& human_time(secs) == pad2(m) + seq![':'] + pad2(r)
            &&& pad2(m).len() >= 2 && ascii_numeral(pad2(m))
            &&& pad2(r).len() == 2 && ascii_numeral(pad2(r))
            &&& numeral_value(pad2(m)) == m
            &&& numeral_value(pad2(r)) == r
            &&& r < 60
            &&& 60 * numeral_value(pad2(m)) + numeral_value(pad2(r)) == secs
        }),
{
    let m = secs / 60;
    let r = secs % 60;
    assert(trunc_div(secs, 60) == m);
    assert(trunc_rem(secs, 60) == r);
    lemma_pad2_reads_back(m);
    lemma_pad2_reads_back(r);
    if r >= 10 {
        assert(decimal((r / 10) as nat) == seq![digit_char(r / 10)]);
    }
}

/// `pad2` of a non-negative number is a numeral of at least two digits with
/// that value.
proof fn lemma_pad2_reads_back(n: int)
    requires
        n >= 0,
    ensures
        pad2(n).len() >= 2,
        ascii_numeral(pad2(n)),
        numeral_value(pad2(n)) == n,
{
    lemma_decimal(n as nat);
    if n < 10 {
        let p = pad2(n);
        assert(decimal(n as nat) == seq![digit_char(n)]);
        assert(p == seq!['0', digit_char(n)]);
        assert(p.drop_last() == seq!['0']);
        assert(seq!['0'].drop_last() =~= Seq::<char>::empty());
        assert(numeral_value(Seq::<char>::empty()) == 0);
        assert(seq!['0'].last() as int == 48);
        assert(numeral_value(seq!['0']) == 0);
        assert(digit_char(n) as int == n + 48);
    } else {
        lemma_decimal((n / 10) as nat);
    }
}

} // verus!

verus! {

proof fn lemma_skip_space_shape(s: Seq<char>)
    ensures
        exists|k: int| 0 <= k <= s.len() && skip_space(s) == s.skip(k) && (forall|i: int|
            0 <= i < k ==> white_space(#[trigger] s[i])),
        skip_space(s).len() > 0 ==> !white_space(skip_space(s)[0]),
    decreases s.len(),
{
    if s.len() > 0 && white_space(s[0]) {
        lemma_skip_space_shape(s.drop_first());
        let k = choose|k: int| 0 <= k <= s.drop_first().len() && skip_space(s.drop_first())
            == s.drop_first().skip(k) && (forall|i: int| 0 <= i < k ==> white_space(#[trigger] s.drop_first()[i]));
        assert(s.drop_first().skip(k) == s.skip(k + 1));
        assert forall|i: int| 0 <= i < k + 1 implies white_space(#[trigger] s[i]) by {
            if i > 0 {
                assert(s[i] == s.drop_first()[i - 1]);
            }
        }
    } else {
        assert(s.skip(0) == s);
    }
}

proof fn lemma_skip_space_end_shape(s: Seq<char>)
    ensures
        exists|k: int| 0 <= k <= s.len() && skip_space_end(s) == s.take(k) && (forall|i: int|
            k <= i < s.len() ==> white_space(#[trigger] s[i])),
        skip_space_end(s).len() > 0 ==> !white_space(skip_space_end(s).last()),
    decreases s.len(),
{
    if s.len() > 0 && white_space(s.last()) {
        lemma_skip_space_end_shape(s.drop_last());
        let k = choose|k: int| 0 <= k <= s.drop_last().len() && skip_space_end(s.drop_last())
            == s.drop_last().take(k) && (forall|i: int| k <= i < s.drop_last().len() ==> white_space(#[trigger] s.drop_last()[i]));
        assert(s.drop_last().take(k) == s.take(k));
        assert forall|i: int| k <= i < s.len() implies white_space(#[trigger] s[i]) by {
            if i < s.len() - 1 {
                assert(s[i] == s.drop_last()[i]);
            }
        }
    } else {
        assert(s.take(s.len() as int) == s);
    }
}

/// What trimming keeps: a contiguous part of the text, with only white space
/// cut on either side, and neither end of what is kept white space.
pub proof fn lemma_trimmed_shape(s: Seq<char>)
    ensures
        exists|a: int, b: int| 0 <= a <= b <= s.len() && trimmed(s) == s.subrange(a, b) && (forall|i: int|
            0 <= i < a || b <= i < s.len() ==> white_space(#[trigger] s[i])),
        trimmed(s).len() > 0 ==> !white_space(trimmed(s)[0]) && !white_space(trimmed(s).last()),
{
    lemma_skip_space_shape(s);
    let k = choose|k: int| 0 <= k <= s.len() && skip_space(s) == s.skip(k) && (forall|i: int|
        0 <= i < k ==> white_space(#[trigger] s[i]));
    let t = s.skip(k);
    lemma_skip_space_end_shape(t);
    let j = choose|j: int| 0 <= j <= t.len() && skip_space_end(t) == t.take(j) && (forall|i: int|
        j <= i < t.len() ==> white_space(#[trigger] t[i]));
    assert(t.take(j) == s.subrange(k, k + j));
    assert forall|i: int| 0 <= i < k || k + j <= i < s.len() implies white_space(#[trigger] s[i]) by {
        if i >= k + j {
            assert(s[i] == t[i - k]);
        }
    }
    assert(0 <= k <= k + j <= s.len() && trimmed(s) == s.subrange(k, k + j));
    if trimmed(s).len() > 0 {
        assert(trimmed(s)[0] == t.take(j)[0]);
        assert(t.take(j)[0] == skip_space(s)[0]);
    }
}

} // verus!
