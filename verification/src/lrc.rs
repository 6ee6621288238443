//! LRC lyrics: timed lines, the `[mm:ss.xx]` parser and the lookup of the current line.
use vstd::prelude::*;
use crate::text::{
    all_digits, dec_val, find_char, find_in, first_at, is_blank, lemma_find_char_bound,
    lemma_trim_start_suffix, parse_digits, push_range, range_all_digits, skip_ws, skip_ws_back,
    string_of_range, trim, trim_start, chars_of, is_digit, lemma_all_digits_range,
};

verus! {

/// One timed line of lyrics.
#[derive(Debug, Clone, PartialEq, Eq)]
pub struct Line {
    pub time_ms: u64,
    pub text: String,
}

/// A line as the contracts see it.
pub struct LineView {
    pub time_ms: u64,
    pub text: Seq<char>,
}

impl View for Line {
    type V = LineView;

    open spec fn view(&self) -> LineView {
        LineView { time_ms: self.time_ms, text: self.text@ }
    }
}

/// Synced lyrics; `parse_lrc` yields them ordered by time.
#[derive(Debug, Clone, PartialEq, Eq, Default)]
pub struct Lyrics {
    pub lines: Vec<Line>,
}

impl View for Lyrics {
    type V = Seq<LineView>;

    open spec fn view(&self) -> Seq<LineView> {
        line_views(self.lines@)
    }
}

/// The views of a sequence of lines.
pub open spec fn line_views(s: Seq<Line>) -> Seq<LineView> {
    s.map_values(|l: Line| l@)
}

/// Times never decrease along `s`.
pub open spec fn sorted_by_time(s: Seq<LineView>) -> bool {
    forall|i: int, j: int| 0 <= i <= j < s.len() ==> s[i].time_ms <= s[j].time_ms
}

/// The lines at or before `pos` come first in `s` (true of every sorted `s`).
pub open spec fn partitioned_at(s: Seq<LineView>, pos: u64) -> bool {
    forall|i: int, j: int| 0 <= i <= j < s.len() && s[j].time_ms <= pos ==> s[i].time_ms <= pos
}

/// `r` is the index of the last line of `s` whose time is at most `pos`, or `None` when
/// every line comes later.
pub open spec fn is_line_at(s: Seq<LineView>, pos: u64, r: Option<usize>) -> bool {
    match r {
        None => forall|i: int| 0 <= i < s.len() ==> s[i].time_ms > pos,
        Some(i) => {
            &&& i < s.len()
            &&& s[i as int].time_ms <= pos
            &&& forall|j: int| i < j < s.len() ==> s[j].time_ms > pos
        },
    }
}

/// The partition point that a binary search of `s[lo..hi]` for the lines at or before
/// `pos` reaches: it halves the range, keeping the upper half when the middle line is at or
/// before `pos` and the lower half otherwise.
pub open spec fn search_point(s: Seq<LineView>, pos: u64, lo: int, hi: int) -> int
    decreases hi - lo,
{
    if lo >= hi {
        lo
    } else {
        let mid = lo + (hi - lo) / 2;
        if s[mid].time_ms <= pos {
            search_point(s, pos, mid + 1, hi)
        } else {
            search_point(s, pos, lo, mid)
        }
    }
}

/// The line that `Lyrics::line_at` gives: the one before the partition point, `None` when
/// that point is the start. On lines ordered by time it is the last line at or before
/// `pos` (see `is_line_at`).
pub open spec fn line_at_spec(s: Seq<LineView>, pos: u64) -> Option<usize> {
    let p = search_point(s, pos, 0, s.len() as int);
    if p <= 0 {
        None
    } else {
        Some((p - 1) as usize)
    }
}

proof fn lemma_search_point(s: Seq<LineView>, pos: u64, lo: int, hi: int)
    requires
        0 <= lo <= hi <= s.len(),
    ensures
        lo <= search_point(s, pos, lo, hi) <= hi,
        partitioned_at(s, pos) && (forall|i: int| 0 <= i < lo ==> s[i].time_ms <= pos) && (
        forall|i: int| hi <= i < s.len() ==> s[i].time_ms > pos) ==> {
            &&& forall|i: int| 0 <= i < search_point(s, pos, lo, hi) ==> s[i].time_ms <= pos
            &&& forall|i: int| search_point(s, pos, lo, hi) <= i < s.len() ==> s[i].time_ms > pos
        },
    decreases hi - lo,
{
    if lo < hi {
        let mid = lo + (hi - lo) / 2;
        if s[mid].time_ms <= pos {
            lemma_search_point(s, pos, mid + 1, hi);
        } else {
            lemma_search_point(s, pos, lo, mid);
        }
    }
}

/// `line_at_spec` gives an index within the lines, and on lines partitioned at `pos` (such as
/// lines ordered by time) the last line at or before `pos`.
pub proof fn lemma_line_at_spec(s: Seq<LineView>, pos: u64)
    requires
        s.len() <= usize::MAX,
    ensures
        line_at_spec(s, pos) matches Some(i) ==> i < s.len(),
        partitioned_at(s, pos) ==> is_line_at(s, pos, line_at_spec(s, pos)),
{
    let p = search_point(s, pos, 0, s.len() as int);
    lemma_search_point(s, pos, 0, s.len() as int);
    if partitioned_at(s, pos) {
        if p > 0 {
            let i = p - 1;
            assert(s[i].time_ms <= pos);
            assert forall|j: int| i < j < s.len() implies s[j].time_ms > pos by {
                assert(p <= j);
            }
        } else {
            assert forall|j: int| 0 <= j < s.len() implies s[j].time_ms > pos by {
                assert(p <= j);
            }
        }
    }
}

/// The lines of `s` whose time is `t`, in their order in `s`.
pub open spec fn with_time(s: Seq<LineView>, t: u64) -> Seq<LineView>
    decreases s.len(),
{
    if s.len() == 0 {
        s
    } else if s.last().time_ms == t {
        with_time(s.drop_last(), t).push(s.last())
    } else {
        with_time(s.drop_last(), t)
    }
}

/// The texts of the lines of `s`.
pub open spec fn texts_of(s: Seq<LineView>) -> Seq<Seq<char>> {
    s.map_values(|l: LineView| l.text)
}

// ---------------------------------------------------------------------------------------
// What an LRC text means.
/// `l` without one trailing carriage return.
pub open spec fn strip_cr(l: Seq<char>) -> Seq<char> {
    if l.len() > 0 && l.last() == '\r' {
        l.drop_last()
    } else {
        l
    }
}

/// The lines of `s` as `str::lines` yields them: split at `\n`, a `\r` before the `\n`
/// dropped, and no empty line after a final `\n`.
pub open spec fn split_lines(s: Seq<char>) -> Seq<Seq<char>>
    decreases s.len(),
{
    if s.len() == 0 {
        seq![]
    } else {
        match find_char(s, '\n') {
            None => seq![s],
            Some(i) => if 0 <= i < s.len() {
                seq![strip_cr(s.take(i))] + split_lines(s.skip(i + 1))
            } else {
                seq![]
            },
        }
    }
}

/// The number of milliseconds that a fraction of a second written with `len` digits
/// stands for per unit.
pub open spec fn frac_scale(len: nat) -> nat {
    if len == 1 {
        100
    } else if len == 2 {
        10
    } else {
        1
    }
}

/// The fields of a timestamp tag `mm:ss`, `mm:ss.x`, `mm:ss.xx` or `mm:ss.xxx`: minutes
/// (any number of digits), seconds (one or two digits, below 60) and the fraction in
/// milliseconds; `None` for anything else.
pub open spec fn tag_fields(tag: Seq<char>) -> Option<(nat, nat, nat)> {
    match find_char(tag, ':') {
        None => None,
        Some(c) => {
            let min = tag.take(c);
            let rest = tag.skip(c + 1);
            let sec = match find_char(rest, '.') {
                Some(d) => rest.take(d),
                None => rest,
            };
            if !all_digits(min) || !all_digits(sec) || sec.len() > 2 || dec_val(sec) >= 60 {
                None
            } else {
                match find_char(rest, '.') {
                    None => Some((dec_val(min), dec_val(sec), 0nat)),
                    Some(d) => {
                        let f = rest.skip(d + 1);
                        if all_digits(f) && f.len() <= 3 {
                            Some((dec_val(min), dec_val(sec), dec_val(f) * frac_scale(f.len())))
                        } else {
                            None
                        }
                    },
                }
            }
        },
    }
}

/// The time in milliseconds that a tag stands for; `None` when it is no timestamp, or when
/// its time is too large for a `u64` (such a tag is read as malformed).
pub open spec fn tag_ms(tag: Seq<char>) -> Option<int> {
    match tag_fields(tag) {
        None => None,
        Some((m, s, f)) => if m * 60000 + s * 1000 + f > u64::MAX {
            None
        } else {
            Some((m * 60000 + s * 1000 + f) as int)
        },
    }
}

/// Reads the timestamp tags at the start of `rest`: their times, and the text after them.
/// Whitespace may stand before each tag; the first thing that is no timestamp tag ends it.
pub open spec fn scan_tags(rest: Seq<char>) -> (Seq<int>, Seq<char>)
    decreases rest.len(),
{
    let t = trim_start(rest);
    if t.len() == 0 || t[0] != '[' {
        (seq![], rest)
    } else {
        match find_char(t, ']') {
            None => (seq![], rest),
            Some(e) => if 1 <= e < t.len() {
                match tag_ms(t.subrange(1, e)) {
                    None => (seq![], rest),
                    Some(ms) => {
                        proof {
                            lemma_trim_start_suffix(rest);
                        }
                        let (ts, tail) = scan_tags(t.skip(e + 1));
                        (seq![ms] + ts, tail)
                    },
                }
            } else {
                (seq![], rest)
            },
        }
    }
}

/// The timed lines that one line of LRC gives: one per timestamp, all with the trimmed text.
pub open spec fn line_entries(line: Seq<char>) -> Seq<LineView> {
    let (ts, tail) = scan_tags(line);
    Seq::new(ts.len(), |i: int| LineView { time_ms: ts[i] as u64, text: trim(tail) })
}

pub open spec fn entries_of(ls: Seq<Seq<char>>) -> Seq<LineView>
    decreases ls.len(),
{
    if ls.len() == 0 {
        seq![]
    } else {
        line_entries(ls[0]) + entries_of(ls.drop_first())
    }
}

/// The timed lines of an LRC text, in the order in which they are written.
pub open spec fn lrc_entries(input: Seq<char>) -> Seq<LineView> {
    entries_of(split_lines(input))
}


// ---------------------------------------------------------------------------------------
// Lemmas.
pub proof fn lemma_with_time_add(a: Seq<LineView>, b: Seq<LineView>, t: u64)
    ensures
        with_time(a + b, t) == with_time(a, t) + with_time(b, t),
    decreases b.len(),
{
    if b.len() == 0 {
        assert(a + b =~= a);
        assert(with_time(a, t) + with_time(b, t) =~= with_time(a, t));
    } else {
        lemma_with_time_add(a, b.drop_last(), t);
        assert((a + b).drop_last() =~= a + b.drop_last());
        assert((a + b).last() == b.last());
        if b.last().time_ms == t {
            assert(with_time(a, t) + with_time(b.drop_last(), t).push(b.last()) =~= (with_time(
                a,
                t,
            ) + with_time(b.drop_last(), t)).push(b.last()));
        }
    }
}

pub proof fn lemma_with_time_none(b: Seq<LineView>, t: u64)
    requires
        forall|i: int| 0 <= i < b.len() ==> b[i].time_ms != t,
    ensures
        with_time(b, t) == Seq::<LineView>::empty(),
    decreases b.len(),
{
    if b.len() > 0 {
        lemma_with_time_none(b.drop_last(), t);
    }
}

pub proof fn lemma_with_time_single(x: LineView, t: u64)
    ensures
        with_time(seq![x], t) == (if x.time_ms == t {
            seq![x]
        } else {
            Seq::<LineView>::empty()
        }),
{
    let e = Seq::<LineView>::empty();
    assert(seq![x].drop_last() =~= e);
    assert(seq![x].last() == x);
    assert(with_time(e, t) == e);
    assert(e.push(x) =~= seq![x]);
}

proof fn lemma_entries_of_push(ls: Seq<Seq<char>>, l: Seq<char>)
    ensures
        entries_of(seq![l] + ls) == line_entries(l) + entries_of(ls),
{
    assert((seq![l] + ls).drop_first() =~= ls);
    assert((seq![l] + ls)[0] == l);
}

// ---------------------------------------------------------------------------------------
// Executable code.
/// Inserts `x` after every line whose time is at most its own.
fn insert_sorted(lines: &mut Vec<Line>, x: Line)
    requires
        sorted_by_time(line_views(old(lines)@)),
    ensures
        sorted_by_time(line_views(final(lines)@)),
        forall|t: u64|
            #![trigger with_time(line_views(final(lines)@), t)]
            with_time(line_views(final(lines)@), t) == with_time(
                line_views(old(lines)@).push(x@),
                t,
            ),
{
    let ghost old_v = line_views(lines@);
    let mut p = lines.len();
    while p > 0 && lines[p - 1].time_ms > x.time_ms
        invariant
            p <= lines@.len(),
            line_views(lines@) == old_v,
            forall|k: int| p <= k < lines@.len() ==> old_v[k].time_ms > x.time_ms,
        decreases p,
    {
        p = p - 1;
    }
    let ghost xv = x@;
    lines.insert(p, x);
    let ghost new_v = line_views(lines@);
    proof {
        let pre = old_v.take(p as int);
        let post = old_v.skip(p as int);
        assert(new_v =~= pre + seq![xv] + post);
        assert(old_v =~= pre + post);
        assert(old_v.push(xv) =~= pre + post + seq![xv]);
        // every line before p is at most x, every line after is later than x
        assert forall|k: int| 0 <= k < pre.len() implies pre[k].time_ms <= xv.time_ms by {
            if p > 0 {
                assert(old_v[p - 1].time_ms <= xv.time_ms);
                assert(old_v[k].time_ms <= old_v[p - 1].time_ms);
            }
        }
        assert forall|i: int, j: int| 0 <= i <= j < new_v.len() implies new_v[i].time_ms
            <= new_v[j].time_ms by {
            if i < p && j > p {
                assert(new_v[j] == old_v[j - 1]);
            }
            if i > p {
                assert(new_v[i] == old_v[i - 1]);
                assert(new_v[j] == old_v[j - 1]);
            }
            if j < p {
                assert(new_v[i] == old_v[i]);
            }
            if j == p && i < p {
                assert(new_v[i] == pre[i]);
            }
            if i == p && j > p {
                assert(new_v[j] == post[j - p - 1]);
            }
        }
        assert forall|t: u64|
            #![trigger with_time(new_v, t)]
            with_time(new_v, t) == with_time(old_v.push(xv), t) by {
            lemma_with_time_add(pre + seq![xv], post, t);
            lemma_with_time_add(pre, seq![xv], t);
            lemma_with_time_add(pre + post, seq![xv], t);
            lemma_with_time_add(pre, post, t);
            lemma_with_time_single(xv, t);
            if xv.time_ms == t {
                lemma_with_time_none(post, t);
                assert(with_time(pre, t) + with_time(post, t) =~= with_time(pre, t));
                assert(with_time(pre, t) + seq![xv] + with_time(post, t) =~= with_time(pre, t)
                    + seq![xv]);
            } else {
                assert(with_time(pre, t) + Seq::<LineView>::empty() =~= with_time(pre, t));
                assert(with_time(pre + post, t) + Seq::<LineView>::empty() =~= with_time(
                    pre + post,
                    t,
                ));
            }
        }
    }
}


pub open spec fn pow10(n: nat) -> nat
    decreases n,
{
    if n == 0 {
        1
    } else {
        10 * pow10((n - 1) as nat)
    }
}

proof fn lemma_dec_val_bound(s: Seq<char>)
    requires
        forall|i: int| 0 <= i < s.len() ==> is_digit(#[trigger] s[i]),
    ensures
        dec_val(s) < pow10(s.len()),
    decreases s.len(),
{
    if s.len() > 0 {
        assert(is_digit(s[s.len() - 1]));
        lemma_dec_val_bound(s.drop_last());
        assert(pow10(s.len()) == 10 * pow10(s.drop_last().len()));
    }
}

/// The time of the tag `v[lo..hi]`, the text between `[` and `]`; `None` when it is no
/// timestamp or its time does not fit in a `u64`.
fn parse_timestamp(v: &Vec<char>, lo: usize, hi: usize) -> (r: Option<u64>)
    requires
        lo <= hi <= v@.len(),
    ensures
        match tag_ms(v@.subrange(lo as int, hi as int)) {
            None => r is None,
            Some(ms) => r == Some(ms as u64),
        },
{
    let ghost tag = v@.subrange(lo as int, hi as int);
    let c = match find_in(v, lo, hi, ':') {
        None => {
            return None;
        },
        Some(c) => c,
    };
    let ghost min = tag.take(c - lo);
    let ghost rest = tag.skip(c - lo + 1);
    assert(min =~= v@.subrange(lo as int, c as int));
    assert(rest =~= v@.subrange(c + 1, hi as int));
    if !range_all_digits(v, lo, c) {
        return None;
    }
    let dot = find_in(v, c + 1, hi, '.');
    let sec_hi = match dot {
        Some(d) => d,
        None => hi,
    };
    proof {
        if let Some(d) = dot {
            assert(rest.take(d - c - 1) =~= v@.subrange(c + 1, d as int));
            assert(rest.skip(d - c - 1 + 1) =~= v@.subrange(d + 1, hi as int));
        }
    }
    if !range_all_digits(v, c + 1, sec_hi) || sec_hi - (c + 1) > 2 {
        return None;
    }
    proof {
        lemma_all_digits_range(v@, c + 1, sec_hi as int);
        lemma_dec_val_bound(v@.subrange(c + 1, sec_hi as int));
        reveal_with_fuel(pow10, 3);
    }
    let s = match parse_digits(v, c + 1, sec_hi) {
        None => {
            return None;
        },
        Some(s) => s,
    };
    if s >= 60 {
        return None;
    }
    let frac_ms: u64 = match dot {
        None => 0,
        Some(d) => {
            if range_all_digits(v, d + 1, hi) && hi - (d + 1) <= 3 {
                proof {
                    lemma_all_digits_range(v@, d + 1, hi as int);
                    lemma_dec_val_bound(v@.subrange(d + 1, hi as int));
                    reveal_with_fuel(pow10, 4);
                }
                let f = match parse_digits(v, d + 1, hi) {
                    None => {
                        return None;
                    },
                    Some(f) => f,
                };
                let len = hi - (d + 1);
                if len == 1 {
                    f * 100
                } else if len == 2 {
                    f * 10
                } else {
                    f
                }
            } else {
                return None;
            }
        },
    };
    proof {
        lemma_all_digits_range(v@, lo as int, c as int);
    }
    let m = match parse_digits(v, lo, c) {
        None => {
            return None;
        },
        Some(m) => m,
    };
    let total = match m.checked_mul(60000) {
        None => {
            return None;
        },
        Some(x) => match x.checked_add(s * 1000 + frac_ms) {
            None => {
                return None;
            },
            Some(y) => y,
        },
    };
    Some(total)
}


/// Reads the timestamp tags at the start of `v[lo..hi]`: their times and where the text
/// after them starts.
fn scan_line(v: &Vec<char>, lo: usize, hi: usize) -> (r: (Vec<u64>, usize))
    requires
        lo <= hi <= v@.len(),
    ensures
        ({
            let p = r;
            &&& lo <= p.1 <= hi
            &&& p.0@.len() == scan_tags(v@.subrange(lo as int, hi as int)).0.len()
            &&& forall|i: int|
                0 <= i < p.0@.len() ==> p.0@[i] == scan_tags(
                    v@.subrange(lo as int, hi as int),
                ).0[i]
            &&& v@.subrange(p.1 as int, hi as int) == scan_tags(
                v@.subrange(lo as int, hi as int),
            ).1
        }),
{
    let ghost whole = scan_tags(v@.subrange(lo as int, hi as int));
    let mut times: Vec<u64> = Vec::new();
    let mut pos = lo;
    loop
        invariant
            lo <= pos <= hi <= v@.len(),
            whole == scan_tags(v@.subrange(lo as int, hi as int)),
            whole.0 == times@.map_values(|x: u64| x as int) + scan_tags(
                v@.subrange(pos as int, hi as int),
            ).0,
            whole.1 == scan_tags(v@.subrange(pos as int, hi as int)).1,
        ensures
            lo <= pos <= hi,
            whole.0 == times@.map_values(|x: u64| x as int),
            whole.1 == v@.subrange(pos as int, hi as int),
        decreases hi - pos,
    {
        let ghost rest = v@.subrange(pos as int, hi as int);
        let t0 = skip_ws(v, pos, hi);
        let ghost t = v@.subrange(t0 as int, hi as int);
        if t0 == hi || v[t0] != '[' {
            assert(scan_tags(rest).0 =~= Seq::<int>::empty());
            assert(times@.map_values(|x: u64| x as int) + Seq::<int>::empty() =~= times@.map_values(
                |x: u64| x as int,
            ));
            break;
        }
        let e = match find_in(v, t0, hi, ']') {
            None => {
                assert(times@.map_values(|x: u64| x as int) + Seq::<int>::empty()
                    =~= times@.map_values(|x: u64| x as int));
                break;
            },
            Some(e) => e,
        };
        proof {
            lemma_find_char_bound(t, ']');
            assert(t[0] == '[');
        }
        if e == t0 {
            // the first character is '[', so the first ']' comes later
            assert(false);
        }
        assert(t.subrange(1, e - t0) =~= v@.subrange(t0 + 1, e as int));
        assert(t.skip(e - t0 + 1) =~= v@.subrange(e + 1, hi as int));
        match parse_timestamp(v, t0 + 1, e) {
            None => {
                assert(times@.map_values(|x: u64| x as int) + Seq::<int>::empty()
                    =~= times@.map_values(|x: u64| x as int));
                break;
            },
            Some(ms) => {
                let ghost old_ws = times@.map_values(|x: u64| x as int);
                times.push(ms);
                pos = e + 1;
                proof {
                    let tail = scan_tags(v@.subrange(pos as int, hi as int));
                    assert(scan_tags(rest).0 == seq![ms as int] + tail.0);
                    assert(times@.map_values(|x: u64| x as int) =~= old_ws.push(ms as int));
                    assert(old_ws + (seq![ms as int] + tail.0) =~= old_ws.push(ms as int)
                        + tail.0);
                }
            },
        }
    }
    proof {
        let ws = times@.map_values(|x: u64| x as int);
        assert forall|i: int| 0 <= i < times@.len() implies times@[i] == whole.0[i] by {
            assert(ws[i] == times@[i] as int);
        }
    }
    (times, pos)
}

/// Adds the timed lines that `v[lo..hi]` gives to the sorted `lines`.
fn add_line(v: &Vec<char>, lo: usize, hi: usize, lines: &mut Vec<Line>)
    requires
        lo <= hi <= v@.len(),
        sorted_by_time(line_views(old(lines)@)),
    ensures
        sorted_by_time(line_views(final(lines)@)),
        forall|t: u64|
            #![trigger with_time(line_views(final(lines)@), t)]
            with_time(line_views(final(lines)@), t) == with_time(
                line_views(old(lines)@) + line_entries(v@.subrange(lo as int, hi as int)),
                t,
            ),
{
    let ghost line = v@.subrange(lo as int, hi as int);
    let ghost ents = line_entries(line);
    let ghost base = line_views(lines@);
    let (times, pos) = scan_line(v, lo, hi);
    if times.len() == 0 {
        assert(ents =~= Seq::<LineView>::empty());
        assert(base + ents =~= base);
        return;
    }
    let a = skip_ws(v, pos, hi);
    let b = skip_ws_back(v, a, hi);
    let text = string_of_range(v, a, b);
    assert(text@ == trim(scan_tags(line).1));
    let mut k: usize = 0;
    while k < times.len()
        invariant
            k <= times@.len(),
            times@.len() == ents.len(),
            forall|i: int| 0 <= i < times@.len() ==> times@[i] == scan_tags(line).0[i],
            text@ == trim(scan_tags(line).1),
            ents == line_entries(line),
            sorted_by_time(line_views(lines@)),
            forall|t: u64|
                #![trigger with_time(line_views(lines@), t)]
                with_time(line_views(lines@), t) == with_time(base + ents.take(k as int), t),
        decreases times@.len() - k,
    {
        let x = Line { time_ms: times[k], text: text.clone() };
        let ghost before = line_views(lines@);
        insert_sorted(lines, x);
        proof {
            assert(x@ == ents[k as int]);
            assert((base + ents.take(k as int)).push(x@) =~= base + ents.take(k + 1));
            assert forall|t: u64|
                #![trigger with_time(line_views(lines@), t)]
                with_time(line_views(lines@), t) == with_time(base + ents.take(k + 1), t) by {
                lemma_with_time_add(before, seq![x@], t);
                lemma_with_time_add(base + ents.take(k as int), seq![x@], t);
                assert(before.push(x@) =~= before + seq![x@]);
                assert((base + ents.take(k as int)).push(x@) =~= base + ents.take(k as int)
                    + seq![x@]);
            }
        }
        k = k + 1;
    }
    assert(ents.take(k as int) =~= ents);
}

proof fn lemma_split_lines_some(s: Seq<char>, i: int)
    requires
        first_at(s, '\n', i),
    ensures
        split_lines(s) == seq![strip_cr(s.take(i))] + split_lines(s.skip(i + 1)),
{
    crate::text::lemma_find_char_some(s, '\n', i);
}

proof fn lemma_split_lines_none(s: Seq<char>)
    requires
        s.len() > 0,
        find_char(s, '\n') is None,
    ensures
        split_lines(s) == seq![s],
{
}

/// Parses LRC text into timed lines ordered by time. Metadata tags such as `[ar:...]`,
/// lines without a timestamp and malformed timestamps (among them one whose time does not
/// fit in a `u64`) are skipped; a line with several timestamps gives one timed line per
/// timestamp; empty lines are kept. Lines with the same time keep the order in which they
/// are written.
pub fn parse_lrc(input: &str) -> (r: Lyrics)
    ensures
        parses_to(input@, r@),
{
    let v = chars_of(input);
    let n = v.len();
    let mut lines: Vec<Line> = Vec::new();
    let mut start: usize = 0;
    let ghost mut consumed: Seq<LineView> = Seq::empty();
    assert(v@.subrange(0, n as int) =~= input@);
    assert(consumed + entries_of(split_lines(v@.subrange(0, n as int))) =~= lrc_entries(input@));
    while start < n
        invariant
            start <= n == v@.len(),
            v@ == input@,
            sorted_by_time(line_views(lines@)),
            forall|t: u64|
                #![trigger with_time(line_views(lines@), t)]
                with_time(line_views(lines@), t) == with_time(consumed, t),
            consumed + entries_of(split_lines(v@.subrange(start as int, n as int)))
                == lrc_entries(input@),
        decreases n - start,
    {
        let ghost rest = v@.subrange(start as int, n as int);
        let ghost before = line_views(lines@);
        match find_in(&v, start, n, '\n') {
            Some(e) => {
                let lh = if e > start && v[e - 1] == '\r' {
                    e - 1
                } else {
                    e
                };
                proof {
                    lemma_find_char_bound(rest, '\n');
                    lemma_split_lines_some(rest, e - start);
                    assert(rest.take(e - start) =~= v@.subrange(start as int, e as int));
                    assert(strip_cr(v@.subrange(start as int, e as int)) =~= v@.subrange(
                        start as int,
                        lh as int,
                    ));
                    assert(rest.skip(e - start + 1) =~= v@.subrange(e + 1, n as int));
                    assert(split_lines(rest)[0] == v@.subrange(start as int, lh as int));
                }
                add_line(&v, start, lh, &mut lines);
                proof {
                    let l = v@.subrange(start as int, lh as int);
                    let tail = split_lines(v@.subrange(e + 1, n as int));
                    lemma_entries_of_push(tail, l);
                    assert(seq![l] + tail == split_lines(rest));
                    assert forall|t: u64|
                        #![trigger with_time(line_views(lines@), t)]
                        with_time(line_views(lines@), t) == with_time(
                            consumed + line_entries(l),
                            t,
                        ) by {
                        lemma_with_time_add(before, line_entries(l), t);
                        lemma_with_time_add(consumed, line_entries(l), t);
                    }
                    assert(consumed + (line_entries(l) + entries_of(tail)) =~= consumed
                        + line_entries(l) + entries_of(tail));
                    consumed = consumed + line_entries(l);
                }
                start = e + 1;
            },
            None => {
                proof {
                    lemma_split_lines_none(rest);
                    assert(split_lines(rest)[0] == rest);
                }
                add_line(&v, start, n, &mut lines);
                proof {
                    let e = Seq::<Seq<char>>::empty();
                    assert(seq![rest] =~= seq![rest] + e);
                    lemma_entries_of_push(e, rest);
                    assert(entries_of(e) =~= Seq::<LineView>::empty());
                    assert(line_entries(rest) + Seq::<LineView>::empty() =~= line_entries(rest));
                    assert forall|t: u64|
                        #![trigger with_time(line_views(lines@), t)]
                        with_time(line_views(lines@), t) == with_time(
                            consumed + line_entries(rest),
                            t,
                        ) by {
                        lemma_with_time_add(before, line_entries(rest), t);
                        lemma_with_time_add(consumed, line_entries(rest), t);
                    }
                    consumed = consumed + line_entries(rest);
                    assert(v@.subrange(n as int, n as int) =~= Seq::<char>::empty());
                    assert(consumed + entries_of(split_lines(Seq::<char>::empty())) =~= consumed);
                }
                start = n;
            },
        }
    }
    proof {
        assert(v@.subrange(n as int, n as int) =~= Seq::<char>::empty());
        assert(consumed + entries_of(split_lines(Seq::<char>::empty())) =~= consumed);
    }
    Lyrics { lines }
}


impl Lyrics {
    /// Index of the last line whose time is at most `position_ms`; `None` before the first
    /// line. On lines that are not ordered by time, it is the index that the binary search
/// reaches (`line_at_spec`).
    pub fn line_at(&self, position_ms: u64) -> (r: Option<usize>)
        ensures
            r == line_at_spec(self@, position_ms),
            r matches Some(i) ==> i < self@.len(),
            partitioned_at(self@, position_ms) ==> is_line_at(self@, position_ms, r),
    {
        let n = self.lines.len();
        let mut lo: usize = 0;
        let mut hi: usize = n;
        while lo < hi
            invariant
                lo <= hi <= n == self.lines@.len() == self@.len(),
                partitioned_at(self@, position_ms) ==> (forall|i: int|
                    0 <= i < lo ==> self@[i].time_ms <= position_ms),
                partitioned_at(self@, position_ms) ==> (forall|i: int|
                    hi <= i < n ==> self@[i].time_ms > position_ms),
                search_point(self@, position_ms, lo as int, hi as int) == search_point(
                    self@,
                    position_ms,
                    0,
                    n as int,
                ),
            decreases hi - lo,
        {
            let mid = lo + (hi - lo) / 2;
            assert(self@[mid as int] == self.lines@[mid as int]@);
            if self.lines[mid].time_ms <= position_ms {
                lo = mid + 1;
            } else {
                hi = mid;
            }
        }
        if lo == 0 {
            None
        } else {
            Some(lo - 1)
        }
    }

    /// The texts of the lines, in order.
    pub fn texts(&self) -> (r: Vec<String>)
        ensures
            r@.map_values(|s: String| s@) == texts_of(self@),
    {
        let mut out: Vec<String> = Vec::new();
        let mut i: usize = 0;
        while i < self.lines.len()
            invariant
                i <= self.lines@.len(),
                out@.map_values(|s: String| s@) == texts_of(self@).take(i as int),
            decreases self.lines@.len() - i,
        {
            out.push(self.lines[i].text.clone());
            assert(texts_of(self@).take(i + 1) =~= texts_of(self@).take(i as int).push(
                self.lines@[i as int].text@,
            ));
            i = i + 1;
        }
        assert(texts_of(self@).take(i as int) =~= texts_of(self@));
        out
    }
}

/// Parsed lyrics are in time order, so for every position the lines at or before it come
/// first, and `Lyrics::line_at` on them gives the last line at or before the position.
pub proof fn law_parsed_lines_partitioned(input: Seq<char>, l: Seq<LineView>, pos: u64)
    requires
        parses_to(input, l),
    ensures
        partitioned_at(l, pos),
{
}

/// The current line never moves back while the position grows: on lines ordered by time,
/// the line at a later position is the same line or a later one, and once a line is reached
/// there is always one.
pub proof fn law_line_at_monotone(
    s: Seq<LineView>,
    p1: u64,
    p2: u64,
    r1: Option<usize>,
    r2: Option<usize>,
)
    requires
        sorted_by_time(s),
        p1 <= p2,
        is_line_at(s, p1, r1),
        is_line_at(s, p2, r2),
    ensures
        r1 matches Some(i1) ==> (r2 matches Some(i2) && i1 <= i2),
{
    if let Some(i1) = r1 {
        match r2 {
            None => {
                assert(s[i1 as int].time_ms > p2);
            },
            Some(i2) => {
                if i2 < i1 {
                    assert(s[i1 as int].time_ms > p2);
                }
            },
        }
    }
}

/// `l` is what `parse_lrc` gives for `input`: ordered by time, with the same lines at each
/// time, in the order in which they are written.
pub open spec fn parses_to(input: Seq<char>, l: Seq<LineView>) -> bool {
    &&& sorted_by_time(l)
    &&& forall|t: u64| #[trigger] with_time(l, t) == with_time(lrc_entries(input), t)
}

/// Parsing gives lines exactly when the text holds at least one timed line.
pub proof fn lemma_parses_to_empty(input: Seq<char>, l: Seq<LineView>)
    requires
        parses_to(input, l),
    ensures
        (l.len() == 0) == (lrc_entries(input).len() == 0),
{
    let e = lrc_entries(input);
    if l.len() == 0 && e.len() > 0 {
        lemma_with_time_last(e);
        assert(with_time(l, e.last().time_ms) == with_time(e, e.last().time_ms));
    }
    if l.len() > 0 && e.len() == 0 {
        lemma_with_time_last(l);
        assert(with_time(l, l.last().time_ms) == with_time(e, l.last().time_ms));
    }
}

proof fn lemma_with_time_last(s: Seq<LineView>)
    requires
        s.len() > 0,
    ensures
        with_time(s, s.last().time_ms).len() > 0,
{
}

impl Line {
    /// A copy of the line.
    pub fn copied(&self) -> (r: Line)
        ensures
            r@ == self@,
    {
        Line { time_ms: self.time_ms, text: self.text.clone() }
    }
}

impl Lyrics {
    /// A copy of the lyrics.
    pub fn copied(&self) -> (r: Lyrics)
        ensures
            r@ == self@,
    {
        let mut lines: Vec<Line> = Vec::new();
        let mut i: usize = 0;
        while i < self.lines.len()
            invariant
                i <= self.lines@.len(),
                line_views(lines@) == line_views(self.lines@).take(i as int),
            decreases self.lines@.len() - i,
        {
            lines.push(self.lines[i].copied());
            assert(line_views(self.lines@).take(i + 1) =~= line_views(self.lines@).take(
                i as int,
            ).push(self.lines@[i as int]@));
            i = i + 1;
        }
        assert(line_views(self.lines@).take(i as int) =~= line_views(self.lines@));
        Lyrics { lines }
    }
}

} // verus!
