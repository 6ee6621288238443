//! What the media player reports: the playing track, its identity, and the pieces of the
//! macOS and Windows readings that are plain computation.
use vstd::prelude::*;
use crate::text::{
    chars_of, dec_str, find_char, find_in, first_at, is_blank, is_whitespace, lemma_find_char_bound,
    lemma_find_char_some, push_decimal, skip_ws, skip_ws_back, string_of_range, trim, trim_end,
    trim_start,
};

verus! {

/// The track that the player is on.
#[derive(Debug, Clone, PartialEq, Eq)]
pub struct NowPlaying {
    pub title: String,
    pub artist: String,
    pub album: String,
    pub duration_ms: u64,
    pub position_ms: u64,
    pub is_playing: bool,
}

pub struct NowPlayingView {
    pub title: Seq<char>,
    pub artist: Seq<char>,
    pub album: Seq<char>,
    pub duration_ms: u64,
    pub position_ms: u64,
    pub is_playing: bool,
}

impl View for NowPlaying {
    type V = NowPlayingView;

    open spec fn view(&self) -> NowPlayingView {
        NowPlayingView {
            title: self.title@,
            artist: self.artist@,
            album: self.album@,
            duration_ms: self.duration_ms,
            position_ms: self.position_ms,
            is_playing: self.is_playing,
        }
    }
}

/// What identifies a track: artist, title and duration in whole seconds.
#[derive(Debug, Clone, PartialEq, Eq, Hash)]
pub struct TrackKey {
    pub artist: String,
    pub title: String,
    pub duration_s: u64,
}

pub struct TrackKeyView {
    pub artist: Seq<char>,
    pub title: Seq<char>,
    pub duration_s: u64,
}

impl View for TrackKey {
    type V = TrackKeyView;

    open spec fn view(&self) -> TrackKeyView {
        TrackKeyView { artist: self.artist@, title: self.title@, duration_s: self.duration_s }
    }
}

/// A failure to read the player.
#[derive(Debug)]
pub struct PlayerError(pub String);

/// A source of the playing track (the player of the system).
pub trait Player {
    fn now_playing(&self) -> Result<Option<NowPlaying>, PlayerError>;
}

/// The duration in seconds, rounded to the nearest, that the key of a track holds.
pub open spec fn rounded_seconds(duration_ms: u64) -> int {
    (duration_ms + 500) / 1000
}

/// The key of a track.
pub open spec fn key_of(np: NowPlayingView) -> TrackKeyView {
    TrackKeyView {
        artist: np.artist,
        title: np.title,
        duration_s: rounded_seconds(np.duration_ms) as u64,
    }
}

/// `artist|title|seconds`, the text under which offsets and translations are kept.
pub open spec fn id_of(k: TrackKeyView) -> Seq<char> {
    k.artist + seq!['|'] + k.title + seq!['|'] + dec_str(k.duration_s as nat)
}

/// `title — artist`.
pub open spec fn display_title_of(np: NowPlayingView) -> Seq<char> {
    np.title + seq![' ', '\u{2014}', ' '] + np.artist
}

impl TrackKey {
    /// `artist|title|seconds`.
    pub fn id(&self) -> (r: String)
        ensures
            r@ == id_of(self@),
    {
        let mut s = self.artist.clone();
        crate::text::push_char(&mut s, '|');
        s.append(self.title.as_str());
        crate::text::push_char(&mut s, '|');
        push_decimal(&mut s, self.duration_s as u128);
        s
    }

    /// A copy of the key.
    pub fn copied(&self) -> (r: TrackKey)
        ensures
            r@ == self@,
    {
        TrackKey {
            artist: self.artist.clone(),
            title: self.title.clone(),
            duration_s: self.duration_s,
        }
    }

    /// The two keys name the same track.
    pub fn same(&self, other: &TrackKey) -> (r: bool)
        ensures
            r == (self@ == other@),
    {
        self.duration_s == other.duration_s && self.artist == other.artist && self.title
            == other.title
    }
}

impl NowPlaying {
    /// The key of the track: artist, title, and the duration rounded to whole seconds.
    pub fn key(&self) -> (r: TrackKey)
        requires
            self.duration_ms <= u64::MAX - 500,
        ensures
            r@ == key_of(self@),
    {
        TrackKey {
            artist: self.artist.clone(),
            title: self.title.clone(),
            duration_s: (self.duration_ms + 500) / 1000,
        }
    }

    /// `title — artist`.
    pub fn display_title(&self) -> (r: String)
        ensures
            r@ == display_title_of(self@),
    {
        let mut s = self.title.clone();
        crate::text::push_char(&mut s, ' ');
        crate::text::push_char(&mut s, '\u{2014}');
        crate::text::push_char(&mut s, ' ');
        s.append(self.artist.as_str());
        assert(s@ =~= display_title_of(self@));
        s
    }

    /// A copy of the track.
    pub fn copied(&self) -> (r: NowPlaying)
        ensures
            r@ == self@,
    {
        NowPlaying {
            title: self.title.clone(),
            artist: self.artist.clone(),
            album: self.album.clone(),
            duration_ms: self.duration_ms,
            position_ms: self.position_ms,
            is_playing: self.is_playing,
        }
    }
}

// ---------------------------------------------------------------------------------------
// Windows: elapsed time since a WinRT `DateTime`.
/// Milliseconds between 1601-01-01 and 1970-01-01 (UTC).
pub const EPOCH_DIFF_MS: i64 = 11_644_473_600_000;

/// Division of integers rounded toward zero, as Rust's `/` on signed integers.
pub open spec fn div_toward_zero(a: int, b: int) -> int {
    if a >= 0 {
        a / b
    } else {
        -((-a) / b)
    }
}

/// The Unix time in milliseconds of a WinRT `UniversalTime` (100 ns ticks since 1601).
pub open spec fn unix_ms_of_ticks(universal_time: i64) -> int {
    div_toward_zero(universal_time as int, 10_000) - EPOCH_DIFF_MS
}

/// `now_unix_ms` read as an `i64`, as the cast `as i64` does.
pub open spec fn as_i64(x: u64) -> int {
    if x <= i64::MAX {
        x as int
    } else {
        x as int - 0x1_0000_0000_0000_0000
    }
}

/// The difference `now_unix_ms - unix_ms_of_ticks(universal_time)` fits in an `i64`.
pub open spec fn elapsed_fits(universal_time: i64, now_unix_ms: u64) -> bool {
    i64::MIN <= as_i64(now_unix_ms) - unix_ms_of_ticks(universal_time) <= i64::MAX
}

/// Milliseconds from the WinRT time `universal_time` to `now_unix_ms`, or 0 when that time
/// lies ahead.
pub open spec fn elapsed_of(universal_time: i64, now_unix_ms: u64) -> int {
    let d = as_i64(now_unix_ms) - unix_ms_of_ticks(universal_time);
    if d > 0 {
        d
    } else {
        0
    }
}

/// `t / 10_000` on an `i64`: 100 ns ticks to whole milliseconds, rounded toward zero.
fn ticks_to_ms(t: i64) -> (r: i64)
    ensures
        r == div_toward_zero(t as int, 10_000),
{
    if t >= 0 {
        t / 10_000
    } else {
        let p: i64 = if t == i64::MIN {
            // -(i64::MIN / 10_000), written so that no step overflows
            922_337_203_685_477
        } else {
            (-t) / 10_000
        };
        -p
    }
}

/// Milliseconds elapsed from the WinRT time `universal_time` (100 ns ticks since
/// 1601-01-01 UTC) to `now_unix_ms`, never negative.
pub fn smtc_elapsed_ms(universal_time: i64, now_unix_ms: u64) -> (r: u64)
    requires
        elapsed_fits(universal_time, now_unix_ms),
    ensures
        r == elapsed_of(universal_time, now_unix_ms),
{
    let then_unix_ms = ticks_to_ms(universal_time) - EPOCH_DIFF_MS;
    let now: i64 = if now_unix_ms <= i64::MAX as u64 {
        now_unix_ms as i64
    } else {
        let high: u64 = now_unix_ms - 0x8000_0000_0000_0000u64;
        (high as i64) + i64::MIN
    };
    assert(now == as_i64(now_unix_ms));
    let d = now - then_unix_ms;
    if d > 0 {
        d as u64
    } else {
        0
    }
}

/// What `str::to_lowercase` gives for `s`: its Unicode lower case, a function of `s` alone.
pub uninterp spec fn lowercase(s: Seq<char>) -> Seq<char>;

/// `str::to_lowercase`: the contract claims only that the result is a function of the text
/// (`lowercase`); which lower case each character has is not stated.
#[verifier::external_body]
fn to_lowercase(s: &str) -> (r: String)
    ensures
        r@ == lowercase(s@),
{
    s.to_lowercase()
}

/// A Windows media session is Spotify's: its app id, in lower case, contains `spotify`.
pub fn is_spotify_session(app_id: &str) -> (r: bool)
    ensures
        r == crate::text::contains_seq(lowercase(app_id@), "spotify"@),
{
    let low = to_lowercase(app_id);
    let s = chars_of(low.as_str());
    let w = chars_of("spotify");
    crate::text::contains_chars(&s, &w)
}

/// A WinRT `TimeSpan` (100 ns ticks) in whole milliseconds, never negative.
pub open spec fn span_ms(ticks: i64) -> int {
    let q = div_toward_zero(ticks as int, 10_000);
    if q > 0 {
        q
    } else {
        0
    }
}

/// The position that a Windows media session gives: its timeline position, plus the time
/// since the timeline was updated while playing, held to the duration when that is known.
pub open spec fn smtc_position(
    end_ticks: i64,
    position_ticks: i64,
    is_playing: bool,
    updated_ticks: i64,
    now_unix_ms: u64,
) -> int {
    let p = span_ms(position_ticks) + if is_playing {
        elapsed_of(updated_ticks, now_unix_ms)
    } else {
        0
    };
    let d = span_ms(end_ticks);
    if d > 0 && p > d {
        d
    } else {
        p
    }
}

/// The duration and position in milliseconds of a Windows media session, from the end
/// and position of its timeline (100 ns ticks), whether it plays, the time its timeline
/// was last updated (WinRT `UniversalTime`) and the current Unix time.
pub fn smtc_timeline(
    end_ticks: i64,
    position_ticks: i64,
    is_playing: bool,
    updated_ticks: i64,
    now_unix_ms: u64,
) -> (r: (u64, u64))
    requires
        is_playing ==> elapsed_fits(updated_ticks, now_unix_ms),
        is_playing ==> span_ms(position_ticks) + elapsed_of(updated_ticks, now_unix_ms)
            <= u64::MAX,
    ensures
        r.0 == span_ms(end_ticks),
        r.1 == smtc_position(end_ticks, position_ticks, is_playing, updated_ticks, now_unix_ms),
{
    let e = ticks_to_ms(end_ticks);
    let duration_ms: u64 = if e > 0 {
        e as u64
    } else {
        0
    };
    let p = ticks_to_ms(position_ticks);
    let mut position_ms: u64 = if p > 0 {
        p as u64
    } else {
        0
    };
    if is_playing {
        position_ms = position_ms + smtc_elapsed_ms(updated_ticks, now_unix_ms);
    }
    if duration_ms > 0 && position_ms > duration_ms {
        position_ms = duration_ms;
    }
    (duration_ms, position_ms)
}

// ---------------------------------------------------------------------------------------
// macOS: the text that the AppleScript prints.
/// `s` without its trailing `\n` and `\r` characters.
pub open spec fn trim_end_newlines(s: Seq<char>) -> Seq<char>
    decreases s.len(),
{
    if s.len() > 0 && (s.last() == '\n' || s.last() == '\r') {
        trim_end_newlines(s.drop_last())
    } else {
        s
    }
}

/// The pieces of `s` between the occurrences of `c`, as `str::split` yields them.
pub open spec fn split_on(s: Seq<char>, c: char) -> Seq<Seq<char>>
    decreases s.len(),
{
    match find_char(s, c) {
        None => seq![s],
        Some(i) => if 0 <= i < s.len() {
            seq![s.take(i)] + split_on(s.skip(i + 1), c)
        } else {
            seq![s]
        },
    }
}

/// The six fields of a reading of Spotify on macOS, before the numbers are read.
#[derive(Debug)]
pub struct OsaFields {
    pub title: String,
    pub artist: String,
    pub album: String,
    /// Duration of the track in milliseconds, as the script prints it.
    pub duration: String,
    /// Position in seconds, as the script prints it.
    pub position: String,
    /// The player state is `playing`.
    pub is_playing: bool,
}

/// The message of a reading with `n` fields.
pub open spec fn field_count_message(n: nat) -> Seq<char> {
    "saída inesperada do osascript: "@ + dec_str(n) + " campos"@
}

/// Splits the output of the AppleScript: `None` when Spotify plays nothing (blank output),
/// an error naming the field count when there are not exactly six fields.
pub fn split_output(s: &str) -> (r: Result<Option<OsaFields>, PlayerError>)
    ensures
        ({
            let t = trim_end_newlines(s@);
            let ps = split_on(t, '\u{1f}');
            if is_blank(t) {
                r matches Ok(None)
            } else if ps.len() != 6 {
                r matches Err(e) && e.0@ == field_count_message(ps.len())
            } else {
                r matches Ok(Some(f)) && {
                    &&& f.title@ == ps[0]
                    &&& f.artist@ == ps[1]
                    &&& f.album@ == ps[2]
                    &&& f.duration@ == ps[3]
                    &&& f.position@ == ps[4]
                    &&& f.is_playing == (trim(ps[5]) == "playing"@)
                }
            }
        }),
{
    let v = chars_of(s);
    let mut n = v.len();
    assert(v@.subrange(0, v@.len() as int) =~= s@);
    while n > 0 && (v[n - 1] == '\n' || v[n - 1] == '\r')
        invariant
            n <= v@.len(),
            v@ == s@,
            trim_end_newlines(v@.subrange(0, n as int)) == trim_end_newlines(s@),
        decreases n,
    {
        assert(v@.subrange(0, n as int).drop_last() =~= v@.subrange(0, n - 1));
        n = n - 1;
    }
    assert(v@.subrange(0, v@.len() as int) =~= s@);
    let ghost t = v@.subrange(0, n as int);
    assert(trim_end_newlines(t) == t);
    let a = skip_ws(&v, 0, n);
    if a == n {
        proof {
            lemma_blank_of_trim_start(t);
        }
        return Ok(None);
    }
    proof {
        assert(t.subrange(a as int, t.len() as int) =~= v@.subrange(a as int, n as int));
        lemma_not_blank_of_trim_start(t, a as int);
    }
    // the start of each field, then the end of the last one
    let mut bounds: Vec<usize> = Vec::new();
    let mut pos: usize = 0;
    let ghost mut done: Seq<Seq<char>> = Seq::empty();
    loop
        invariant
            pos <= n <= v@.len(),
            t == v@.subrange(0, n as int),
            bounds@.len() == done.len(),
            done + split_on(v@.subrange(pos as int, n as int), '\u{1f}') == split_on(t, '\u{1f}'),
            forall|k: int|
                0 <= k < done.len() ==> {
                    &&& #[trigger] bounds@[k] <= n
                    &&& (k + 1 < done.len() ==> bounds@[k] < bounds@[k + 1])
                    &&& done[k] == v@.subrange(
                        bounds@[k] as int,
                        if k + 1 < done.len() {
                            bounds@[k + 1] - 1
                        } else {
                            pos - 1
                        },
                    )
                },
            done.len() > 0 ==> bounds@[done.len() - 1] < pos,
            done.len() <= pos,
        ensures
            pos <= n,
            done + seq![v@.subrange(pos as int, n as int)] == split_on(t, '\u{1f}'),
            bounds@.len() == done.len(),
            forall|k: int|
                0 <= k < done.len() ==> {
                    &&& #[trigger] bounds@[k] <= n
                    &&& (k + 1 < done.len() ==> bounds@[k] < bounds@[k + 1])
                    &&& done[k] == v@.subrange(
                        bounds@[k] as int,
                        if k + 1 < done.len() {
                            bounds@[k + 1] - 1
                        } else {
                            pos - 1
                        },
                    )
                },
            done.len() > 0 ==> bounds@[done.len() - 1] < pos,
            done.len() <= pos,
        decreases n - pos,
    {
        let ghost rest = v@.subrange(pos as int, n as int);
        match find_in(&v, pos, n, '\u{1f}') {
            None => {
                assert(split_on(rest, '\u{1f}') == seq![rest]);
                break;
            },
            Some(e) => {
                proof {
                    lemma_find_char_bound(rest, '\u{1f}');
                    assert(rest.take(e - pos) =~= v@.subrange(pos as int, e as int));
                    assert(rest.skip(e - pos + 1) =~= v@.subrange(e + 1, n as int));
                    assert(split_on(rest, '\u{1f}') == seq![v@.subrange(pos as int, e as int)]
                        + split_on(v@.subrange(e + 1, n as int), '\u{1f}'));
                    assert(done + (seq![v@.subrange(pos as int, e as int)] + split_on(
                        v@.subrange(e + 1, n as int),
                        '\u{1f}',
                    )) =~= done.push(v@.subrange(pos as int, e as int)) + split_on(
                        v@.subrange(e + 1, n as int),
                        '\u{1f}',
                    ));
                }
                bounds.push(pos);
                proof {
                    done = done.push(v@.subrange(pos as int, e as int));
                }
                pos = e + 1;
            },
        }
    }
    if bounds.len() != 5 {
        let mut msg = String::from_str("saída inesperada do osascript: ");
        push_decimal(&mut msg, bounds.len() as u128 + 1);
        msg.append(" campos");
        return Err(PlayerError(msg));
    }
    let ghost ps = split_on(t, '\u{1f}');
    assert(ps[5] == v@.subrange(pos as int, n as int));
    assert(ps[4] == done[4]);
    assert(ps[0] == done[0]);
    assert(ps[1] == done[1]);
    assert(ps[2] == done[2]);
    assert(ps[3] == done[3]);
    let title = string_of_range(&v, bounds[0], bounds[1] - 1);
    let artist = string_of_range(&v, bounds[1], bounds[2] - 1);
    let album = string_of_range(&v, bounds[2], bounds[3] - 1);
    let duration = string_of_range(&v, bounds[3], bounds[4] - 1);
    let position = string_of_range(&v, bounds[4], pos - 1);
    let sa = skip_ws(&v, pos, n);
    let sb = skip_ws_back(&v, sa, n);
    let state = string_of_range(&v, sa, sb);
    let playing = String::from_str("playing");
    let is_playing = state == playing;
    Ok(Some(OsaFields { title, artist, album, duration, position, is_playing }))
}

proof fn lemma_blank_of_trim_start(s: Seq<char>)
    requires
        trim_start(s).len() == 0,
    ensures
        is_blank(s),
    decreases s.len(),
{
    if s.len() > 0 {
        if crate::text::is_ws(s[0]) {
            lemma_blank_of_trim_start(s.drop_first());
            assert forall|i: int| 0 <= i < s.len() implies crate::text::is_ws(#[trigger] s[i]) by {
                if i > 0 {
                    assert(s[i] == s.drop_first()[i - 1]);
                }
            }
        }
    }
}

proof fn lemma_not_blank_of_trim_start(s: Seq<char>, a: int)
    requires
        0 <= a < s.len(),
        s.subrange(a, s.len() as int) == trim_start(s),
    ensures
        !is_blank(s),
    decreases s.len(),
{
    crate::text::lemma_trim_start_suffix(s);
    assert(trim_start(s)[0] == s[a]);
    lemma_trim_start_head(s);
}

proof fn lemma_trim_start_head(s: Seq<char>)
    ensures
        trim_start(s).len() > 0 ==> !crate::text::is_ws(trim_start(s)[0]),
    decreases s.len(),
{
    if s.len() > 0 && crate::text::is_ws(s[0]) {
        lemma_trim_start_head(s.drop_first());
    }
}

} // verus!
