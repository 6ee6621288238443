//! Fetching lyrics from LRCLIB: the decisions between the two requests, the choice among
//! search results, and the cache of what was found.
use vstd::prelude::*;
use crate::lrc::{lemma_parses_to_empty, lrc_entries, parse_lrc, parses_to, LineView, Lyrics};
use crate::player::{key_of, rounded_seconds, NowPlaying, TrackKey, TrackKeyView};
use crate::text::{dec_str, push_decimal};
use crate::translate::{is_success, status_display, status_message};

verus! {

/// The LRCLIB service.
pub const LRCLIB_URL: &'static str = "https://lrclib.net";

/// Why no lyrics could be fetched.
#[derive(Debug)]
pub enum LyricsError {
    Network(String),
}

impl LyricsError {
    /// `rede: ` and the cause.
    pub fn message(&self) -> (r: String)
        ensures
            match self {
                LyricsError::Network(m) => r@ == "rede: "@ + m@,
            },
    {
        match self {
            LyricsError::Network(m) => {
                let mut s = String::from_str("rede: ");
                s.append(m.as_str());
                s
            },
        }
    }
}

/// The lyrics that LRCLIB text gives: `None` for no text or no timed line.
pub open spec fn parsed_spec(s: Option<Seq<char>>, r: Option<Seq<LineView>>) -> bool {
    match s {
        None => r is None,
        Some(t) => if lrc_entries(t).len() == 0 {
            r is None
        } else {
            r matches Some(l) && parses_to(t, l)
        },
    }
}

/// The synced lyrics of a record, if they hold at least one timed line.
pub fn parsed(s: Option<String>) -> (r: Option<Lyrics>)
    ensures
        parsed_spec(
            match s {
                Some(t) => Some(t@),
                None => None,
            },
            match r {
                Some(l) => Some(l@),
                None => None,
            },
        ),
{
    let t = match s {
        None => {
            return None;
        },
        Some(t) => t,
    };
    let l = parse_lrc(t.as_str());
    proof {
        lemma_parses_to_empty(t@, l@);
    }
    if l.lines.len() > 0 {
        Some(l)
    } else {
        None
    }
}

/// What the answer to `/api/get` leads to.
#[derive(Debug)]
pub enum GetStep {
    /// Synced lyrics were found.
    Found(Lyrics),
    /// Not found, or no synced lyrics: try `/api/search`.
    Search,
    /// The request failed.
    Fail(LyricsError),
}

/// Decides after `/api/get`: a success with synced lyrics is the answer; a success without
/// them, or 404, goes on to the search; any other status is a network error. `synced` is
/// the `syncedLyrics` of the record (read only on success).
pub fn after_get(status: u16, synced: Option<String>) -> (r: GetStep)
    requires
        100 <= status <= 999,
    ensures
        is_success(status) ==> match r {
            GetStep::Found(l) => synced matches Some(t) && lrc_entries(t@).len() > 0 && parses_to(
                t@,
                l@,
            ),
            GetStep::Search => !(synced matches Some(t) && lrc_entries(t@).len() > 0),
            GetStep::Fail(_) => false,
        },
        !is_success(status) && status == 404 ==> r is Search,
        !is_success(status) && status != 404 ==> (r matches GetStep::Fail(LyricsError::Network(m))
            && m@ == "HTTP "@ + status_display(status)),
{
    if 200 <= status && status <= 299 {
        match parsed(synced) {
            Some(l) => GetStep::Found(l),
            None => GetStep::Search,
        }
    } else if status != 404 {
        GetStep::Fail(LyricsError::Network(status_message(status)))
    } else {
        GetStep::Search
    }
}

/// Decides after `/api/search`: any status but a success is a network error.
pub fn after_search(status: u16) -> (r: Result<(), LyricsError>)
    requires
        100 <= status <= 999,
    ensures
        is_success(status) ==> r is Ok,
        !is_success(status) ==> (r matches Err(LyricsError::Network(m)) && m@ == "HTTP "@
            + status_display(status)),
{
    if 200 <= status && status <= 299 {
        Ok(())
    } else {
        Err(LyricsError::Network(status_message(status)))
    }
}

/// A search result: whether its duration is within 3 s of the track's, and its synced
/// lyrics.
pub struct SearchRecord {
    pub near: bool,
    pub synced: Option<String>,
}

/// The record `r` gives lyrics: its duration is near and it has a timed line.
pub open spec fn record_gives(r: SearchRecord) -> bool {
    r.near && (r.synced matches Some(t) && lrc_entries(t@).len() > 0)
}

/// The lyrics of the first search result whose duration is near and which has synced
/// lyrics; `None` when there is none.
pub fn pick_search(recs: Vec<SearchRecord>) -> (r: Option<Lyrics>)
    ensures
        match r {
            None => forall|i: int| 0 <= i < recs@.len() ==> !record_gives(#[trigger] recs@[i]),
            Some(l) => exists|i: int|
                0 <= i < recs@.len() && record_gives(#[trigger] recs@[i]) && (forall|j: int|
                    0 <= j < i ==> !record_gives(#[trigger] recs@[j])) && parses_to(
                    recs@[i].synced->0@,
                    l@,
                ),
        },
{
    let ghost all = recs@;
    for rec in it: recs.into_iter()
        invariant
            it.seq() == all,
            forall|j: int| 0 <= j < it.index() ==> !record_gives(#[trigger] all[j]),
    {
        let ghost k = it.index() as int;
        assert(rec == all[k]);
        if rec.near {
            match parsed(rec.synced) {
                Some(l) => {
                    assert(record_gives(all[k]));
                    return Some(l);
                },
                None => {},
            }
        }
    }
    None
}

/// The `duration` parameter of `/api/get`: the duration in whole seconds, rounded.
pub fn duration_param(duration_ms: u64) -> (r: String)
    requires
        duration_ms <= u64::MAX - 500,
    ensures
        r@ == dec_str(rounded_seconds(duration_ms) as nat),
{
    let mut s = String::new();
    push_decimal(&mut s, ((duration_ms + 500) / 1000) as u128);
    assert(s@ =~= dec_str(rounded_seconds(duration_ms) as nat));
    s
}

// ---------------------------------------------------------------------------------------
/// What was found for each track: lyrics, or "no lyrics"; a later entry for the same track
/// wins.
pub open spec fn found_map(s: Seq<(TrackKey, Option<Lyrics>)>) -> Map<
    TrackKeyView,
    Option<Seq<LineView>>,
>
    decreases s.len(),
{
    if s.len() == 0 {
        Map::empty()
    } else {
        found_map(s.drop_last()).insert(
            s.last().0@,
            match s.last().1 {
                Some(l) => Some(l@),
                None => None,
            },
        )
    }
}

/// The lyrics found so far, per track. Success and "no lyrics" are kept; network errors
/// are not, so that the next request for the track tries again.
pub struct LyricsCache {
    entries: Vec<(TrackKey, Option<Lyrics>)>,
}

impl View for LyricsCache {
    type V = Map<TrackKeyView, Option<Seq<LineView>>>;

    closed spec fn view(&self) -> Map<TrackKeyView, Option<Seq<LineView>>> {
        found_map(self.entries@)
    }
}

impl LyricsCache {
    /// An empty cache.
    pub fn new() -> (r: LyricsCache)
        ensures
            r@ == Map::<TrackKeyView, Option<Seq<LineView>>>::empty(),
    {
        LyricsCache { entries: Vec::new() }
    }

    /// What was found for `key`: `None` when it was never fetched successfully.
    pub fn lookup(&self, key: &TrackKey) -> (r: Option<Option<Lyrics>>)
        ensures
            match r {
                None => !self@.contains_key(key@),
                Some(v) => self@.contains_key(key@) && self@[key@] == match v {
                    Some(l) => Some(l@),
                    None => None,
                },
            },
    {
        let mut i = self.entries.len();
        assert(self.entries@.take(i as int) =~= self.entries@);
        while i > 0
            invariant
                i <= self.entries@.len(),
                found_map(self.entries@).contains_key(key@) == found_map(
                    self.entries@.take(i as int),
                ).contains_key(key@),
                found_map(self.entries@).contains_key(key@) ==> found_map(self.entries@)[key@]
                    == found_map(self.entries@.take(i as int))[key@],
            decreases i,
        {
            let ghost pre = self.entries@.take(i as int);
            assert(pre.drop_last() =~= self.entries@.take(i - 1));
            assert(pre.last() == self.entries@[i - 1]);
            if self.entries[i - 1].0.same(key) {
                let v = match &self.entries[i - 1].1 {
                    Some(l) => Some(l.copied()),
                    None => None,
                };
                return Some(v);
            }
            i = i - 1;
        }
        assert(self.entries@.take(0) =~= Seq::<(TrackKey, Option<Lyrics>)>::empty());
        None
    }

    /// Keeps the result of a fetch for `key`: lyrics or "no lyrics" are kept, an error is not.
    pub fn record(&mut self, key: TrackKey, res: &Result<Option<Lyrics>, LyricsError>)
        ensures
            match res {
                Ok(v) => final(self)@ == old(self)@.insert(
                    key@,
                    match v {
                        Some(l) => Some(l@),
                        None => None,
                    },
                ),
                Err(_) => final(self)@ == old(self)@,
            },
    {
        if let Ok(v) = res {
            let c = match v {
                Some(l) => Some(l.copied()),
                None => None,
            };
            let ghost pre = self.entries@;
            self.entries.push((key, c));
            assert(self.entries@.drop_last() =~= pre);
        }
    }
}

/// What `LyricsCache::record` keeps for a track is what a later `LyricsCache::lookup` of
/// that track gives, and the entries of other tracks stay as they were (`before` is the
/// cache before the fetch result was kept, `after` the cache after it).
pub proof fn law_cache_read_after_write(
    before: Map<TrackKeyView, Option<Seq<LineView>>>,
    after: Map<TrackKeyView, Option<Seq<LineView>>>,
    k: TrackKeyView,
    v: Option<Seq<LineView>>,
    other: TrackKeyView,
)
    requires
        after == before.insert(k, v),
        other != k,
    ensures
        after.contains_key(k),
        after[k] == v,
        after.contains_key(other) == before.contains_key(other),
        before.contains_key(other) ==> after[other] == before[other],
{
}

/// The key under which a track's lyrics are cached is its artist, title and rounded
/// duration: two readings of the same track at other positions share it.
pub proof fn law_cache_key_ignores_position(a: crate::player::NowPlayingView, b: crate::player::NowPlayingView)
    requires
        a.artist == b.artist,
        a.title == b.title,
        a.duration_ms == b.duration_ms,
    ensures
        key_of(a) == key_of(b),
{
}

} // verus!
