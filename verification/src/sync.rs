//! The sync engine: from player readings, loaded lyrics and the clock, which line of the
//! lyrics to show and when to show or hide the overlay. Time is a count of milliseconds on
//! a monotonic clock.
use vstd::prelude::*;
use crate::lrc::{line_at_spec, line_views, texts_of, LineView, Lyrics};
use crate::offsets::Offsets;
use crate::player::{
    as_i64, display_title_of, id_of, key_of, NowPlaying, NowPlayingView, TrackKey, TrackKeyView,
};
use crate::text::{all_blank, is_blank};

verus! {

/// A jump of the reported position by more than this from the estimate is a seek.
pub const SEEK_THRESHOLD_MS: i64 = 1500;

/// One press of the offset shortcuts moves the lyrics by this much.
pub const OFFSET_STEP_MS: i64 = 250;

/// What the engine asks the runtime to do.
#[derive(Debug, Clone, PartialEq)]
pub enum Effect {
    Hide,
    Show,
    LineChanged(i64),
    LyricsLoaded(TrackKey, Vec<String>),
    FetchLyrics(NowPlaying),
    TrackChanged(Option<String>),
}

pub enum EffectView {
    Hide,
    Show,
    LineChanged(i64),
    LyricsLoaded(TrackKeyView, Seq<Seq<char>>),
    FetchLyrics(NowPlayingView),
    TrackChanged(Option<Seq<char>>),
}

impl View for Effect {
    type V = EffectView;

    open spec fn view(&self) -> EffectView {
        match self {
            Effect::Hide => EffectView::Hide,
            Effect::Show => EffectView::Show,
            Effect::LineChanged(i) => EffectView::LineChanged(*i),
            Effect::LyricsLoaded(k, l) => EffectView::LyricsLoaded(
                k@,
                l@.map_values(|s: String| s@),
            ),
            Effect::FetchLyrics(np) => EffectView::FetchLyrics(np@),
            Effect::TrackChanged(t) => EffectView::TrackChanged(
                match t {
                    Some(s) => Some(s@),
                    None => None,
                },
            ),
        }
    }
}

pub open spec fn effects_view(s: Seq<Effect>) -> Seq<EffectView> {
    s.map_values(|e: Effect| e@)
}

/// The position that the player reported at the time `at_ms`, and whether it was playing.
#[derive(Clone, Copy)]
pub struct Anchor {
    pub position_ms: u64,
    pub at_ms: u64,
    pub playing: bool,
}

/// The state of the engine as the contracts see it.
pub struct EngineView {
    pub track: Option<TrackKeyView>,
    pub lyrics: Option<Seq<LineView>>,
    pub anchor: Option<Anchor>,
    pub last_index: Option<i64>,
    pub showing: bool,
    pub offsets: Map<Seq<char>, i64>,
}

/// The current track, with its anchor and its lyrics: the three come and go together.
struct Playing {
    key: TrackKey,
    anchor: Anchor,
    lyrics: Option<Lyrics>,
}

pub struct Engine {
    current: Option<Playing>,
    last_index: Option<i64>,
    showing: bool,
    offsets: Offsets,
}

impl View for Engine {
    type V = EngineView;

    closed spec fn view(&self) -> EngineView {
        EngineView {
            track: match self.current {
                Some(c) => Some(c.key@),
                None => None,
            },
            lyrics: match self.current {
                Some(c) => match c.lyrics {
                    Some(l) => Some(l@),
                    None => None,
                },
                None => None,
            },
            anchor: match self.current {
                Some(c) => Some(c.anchor),
                None => None,
            },
            last_index: self.last_index,
            showing: self.showing,
            offsets: self.offsets@,
        }
    }
}

// ---------------------------------------------------------------------------------------
// The meaning of each step.
/// Ads and podcasts have no lyrics: they come with duration 0 or a blank title or artist.
pub open spec fn is_music(np: NowPlayingView) -> bool {
    np.duration_ms > 0 && !is_blank(np.title) && !is_blank(np.artist)
}

/// Milliseconds from `at` to `now`, 0 when `now` is earlier.
pub open spec fn elapsed(at: u64, now: u64) -> int {
    if now >= at {
        now - at
    } else {
        0
    }
}

/// The position estimated at `now`: the anchored position, moved on by the time elapsed
/// since when playing.
pub open spec fn estimate_of(a: Option<Anchor>, now: u64) -> Option<int> {
    match a {
        None => None,
        Some(a) => Some(
            if a.playing {
                a.position_ms + elapsed(a.at_ms, now)
            } else {
                a.position_ms as int
            },
        ),
    }
}

/// The estimate at `now` fits in a `u64`.
pub open spec fn estimate_fits(a: Option<Anchor>, now: u64) -> bool {
    estimate_of(a, now) matches Some(x) ==> x <= u64::MAX
}

pub open spec fn anchor_of(np: NowPlayingView, now: u64) -> Anchor {
    Anchor { position_ms: np.position_ms, at_ms: now, playing: np.is_playing }
}

/// What every engine keeps: an anchor exactly when there is a track, and lyrics only with a
/// track (the three come and go together).
pub open spec fn engine_wf(e: EngineView) -> bool {
    &&& (e.track is Some) == (e.anchor is Some)
    &&& e.lyrics is Some ==> e.track is Some
}

/// Hides the overlay if it is showing, and forgets the line shown.
pub open spec fn hide_step(e: EngineView) -> (EngineView, Seq<EffectView>) {
    (
        EngineView { showing: false, last_index: None, ..e },
        if e.showing {
            seq![EffectView::Hide]
        } else {
            seq![]
        },
    )
}

/// The estimate used to detect a seek when the same track is reported again.
pub open spec fn poll_estimate(e: EngineView, np: NowPlayingView, now: u64) -> int {
    match estimate_of(e.anchor, now) {
        Some(x) => x,
        None => np.position_ms as int,
    }
}

/// How far the reported position is from the estimate.
pub open spec fn drift_of(e: EngineView, np: NowPlayingView, now: u64) -> int {
    as_i64(np.position_ms) - as_i64(poll_estimate(e, np, now) as u64)
}

/// A reading of the same track starts a new anchor: when playing started or stopped, or when
/// the position jumped by more than the seek threshold.
pub open spec fn resyncs(e: EngineView, np: NowPlayingView, now: u64) -> bool {
    let playing_changed = match e.anchor {
        None => true,
        Some(a) => a.playing != np.is_playing,
    };
    let d = drift_of(e, np, now);
    playing_changed || d > SEEK_THRESHOLD_MS || d < -SEEK_THRESHOLD_MS
}

/// What a reading of the player does.
pub open spec fn poll_step(e: EngineView, np: Option<NowPlayingView>, now: u64) -> (
    EngineView,
    Seq<EffectView>,
) {
    match np {
        Some(np) if is_music(np) => {
            let key = key_of(np);
            if e.track != Some(key) {
                let (h, fx) = hide_step(e);
                (
                    EngineView {
                        track: Some(key),
                        lyrics: None,
                        anchor: Some(anchor_of(np, now)),
                        ..h
                    },
                    fx + seq![
                        EffectView::TrackChanged(Some(display_title_of(np))),
                        EffectView::FetchLyrics(np),
                    ],
                )
            } else {
                let e2 = if resyncs(e, np, now) {
                    EngineView { anchor: Some(anchor_of(np, now)), ..e }
                } else {
                    e
                };
                if !np.is_playing {
                    hide_step(e2)
                } else {
                    (e2, seq![])
                }
            }
        },
        _ => {
            let had = e.track is Some;
            let e1 = if had {
                EngineView { track: None, lyrics: None, anchor: None, ..e }
            } else {
                e
            };
            let (h, fx) = hide_step(e1);
            (h, if had { seq![EffectView::TrackChanged(None)] + fx } else { fx })
        },
    }
}

/// A reading can be handled without overflow: the duration can be rounded, and for the
/// same track the estimate and its distance to the reported position fit.
pub open spec fn poll_fits(e: EngineView, np: Option<NowPlayingView>, now: u64) -> bool {
    match np {
        Some(np) => is_music(np) ==> {
            &&& np.duration_ms <= u64::MAX - 500
            &&& e.track == Some(key_of(np)) ==> {
                &&& estimate_fits(e.anchor, now)
                &&& i64::MIN < drift_of(e, np, now) <= i64::MAX
            }
        },
        None => true,
    }
}

/// What loaded lyrics do.
pub open spec fn lyrics_step(e: EngineView, key: TrackKeyView, lyrics: Option<Seq<LineView>>) -> (
    EngineView,
    Seq<EffectView>,
) {
    if e.track != Some(key) {
        (e, seq![])
    } else {
        match lyrics {
            Some(l) if l.len() > 0 => (
                EngineView { lyrics: Some(l), last_index: None, ..e },
                seq![EffectView::LyricsLoaded(key, texts_of(l))],
            ),
            _ => hide_step(EngineView { lyrics: None, ..e }),
        }
    }
}

/// The offset of the current track, 0 when it has none.
pub open spec fn offset_of(e: EngineView, k: TrackKeyView) -> int {
    if e.offsets.contains_key(id_of(k)) {
        e.offsets[id_of(k)] as int
    } else {
        0
    }
}

/// The position whose line is shown at `now`: the estimate moved by the offset of the
/// track, not below 0; `None` when there are no lyrics, no track, or it is not playing.
pub open spec fn shown_position(e: EngineView, now: u64) -> Option<u64> {
    match (e.lyrics, e.track, e.anchor) {
        (Some(_), Some(k), Some(a)) => if a.playing {
            let p = as_i64(estimate_of(e.anchor, now)->0 as u64) + offset_of(e, k);
            Some(if p > 0 { p as u64 } else { 0 })
        } else {
            None
        },
        _ => None,
    }
}

/// A tick can be handled without overflow.
pub open spec fn tick_fits(e: EngineView, now: u64) -> bool {
    match (e.lyrics, e.track, e.anchor) {
        (Some(_), Some(k), Some(a)) => a.playing ==> {
            &&& estimate_fits(e.anchor, now)
            &&& i64::MIN <= as_i64(estimate_of(e.anchor, now)->0 as u64) + offset_of(e, k)
                <= i64::MAX
        },
        _ => true,
    }
}

/// The index that a line lookup gives: the line when there is one, -1 before the first.
pub open spec fn index_value(r: Option<usize>) -> i64 {
    match r {
        Some(i) => i as i64,
        None => -1i64,
    }
}

/// What a tick shows once the line index `idx` is known.
pub open spec fn tick_apply(e: EngineView, idx: i64) -> (EngineView, Seq<EffectView>) {
    (
        EngineView { showing: true, last_index: Some(idx), ..e },
        (if !e.showing {
            seq![EffectView::Show]
        } else {
            seq![]
        }) + (if e.last_index != Some(idx) {
            seq![EffectView::LineChanged(idx)]
        } else {
            seq![]
        }),
    )
}

pub open spec fn adjust_fits(e: EngineView, delta: i64) -> bool {
    e.track matches Some(k) ==> i64::MIN <= offset_of(e, k) + delta <= i64::MAX
}

// ---------------------------------------------------------------------------------------
/// `np` is music, as the check on title, artist and duration says.
pub fn is_music_track(np: &NowPlaying) -> (r: bool)
    ensures
        r == is_music(np@),
{
    np.duration_ms > 0 && !all_blank(&np.title) && !all_blank(&np.artist)
}

impl Engine {
    /// An engine with no track, keeping the given offsets.
    pub fn new(offsets: Offsets) -> (r: Engine)
        ensures
            r@ == (EngineView {
                track: None,
                lyrics: None,
                anchor: None,
                last_index: None,
                showing: false,
                offsets: offsets@,
            }),
    {
        Engine { current: None, last_index: None, showing: false, offsets }
    }

    /// Every engine keeps `engine_wf`: its track, anchor and lyrics come and go together.
    pub proof fn lemma_wf(&self)
        ensures
            engine_wf(self@),
    {
    }

    /// The offsets of all tracks.
    pub fn offsets(&self) -> (r: &Offsets)
        ensures
            r@ == self@.offsets,
    {
        &self.offsets
    }

    /// The key of the current track.
    pub fn current_track(&self) -> (r: Option<&TrackKey>)
        ensures
            match r {
                Some(k) => self@.track == Some(k@),
                None => self@.track is None,
            },
    {
        match &self.current {
            Some(c) => Some(&c.key),
            None => None,
        }
    }

    fn anchor_ref(&self) -> (r: Option<&Anchor>)
        ensures
            match r {
                Some(a) => self@.anchor == Some(*a),
                None => self@.anchor is None,
            },
    {
        match &self.current {
            Some(c) => Some(&c.anchor),
            None => None,
        }
    }

    fn lyrics_ref(&self) -> (r: Option<&Lyrics>)
        ensures
            match r {
                Some(l) => self@.lyrics == Some(l@),
                None => self@.lyrics is None,
            },
    {
        match &self.current {
            Some(c) => match &c.lyrics {
                Some(l) => Some(l),
                None => None,
            },
            None => None,
        }
    }

    /// The texts of the loaded lyrics.
    pub fn current_lines(&self) -> (r: Option<Vec<String>>)
        ensures
            match r {
                Some(v) => self@.lyrics matches Some(l) && v@.map_values(|s: String| s@) == texts_of(l),
                None => self@.lyrics is None,
            },
    {
        match self.lyrics_ref() {
            Some(l) => Some(l.texts()),
            None => None,
        }
    }

    fn conceal(&mut self, fx: &mut Vec<Effect>)
        ensures
            final(self)@ == hide_step(old(self)@).0,
            effects_view(final(fx)@) == effects_view(old(fx)@) + hide_step(old(self)@).1,
    {
        let ghost before = effects_view(fx@);
        if self.showing {
            self.showing = false;
            fx.push(Effect::Hide);
            assert(effects_view(fx@) =~= before + seq![EffectView::Hide]);
        } else {
            assert(effects_view(fx@) =~= before + Seq::<EffectView>::empty());
        }
        self.last_index = None;
    }

    fn tracks(&self, key: &TrackKey) -> (r: bool)
        ensures
            r == (self@.track == Some(key@)),
    {
        match self.current_track() {
            Some(t) => t.same(key),
            None => false,
        }
    }

    /// Handles a reading of the player at `now_ms`: a new track hides the overlay and asks
    /// for its lyrics; nothing playing (or an ad) clears the track; for the same track, a
    /// seek or a change between playing and paused re-anchors the clock, and a pause hides.
    pub fn on_poll(&mut self, np: Option<NowPlaying>, now_ms: u64) -> (r: Vec<Effect>)
        requires
            poll_fits(
                old(self)@,
                match np {
                    Some(p) => Some(p@),
                    None => None,
                },
                now_ms,
            ),
        ensures
            (final(self)@, effects_view(r@)) == poll_step(
                old(self)@,
                match np {
                    Some(p) => Some(p@),
                    None => None,
                },
                now_ms,
            ),
    {
        let mut fx: Vec<Effect> = Vec::new();
        let music = match &np {
            Some(p) => is_music_track(p),
            None => false,
        };
        if !music {
            let had = self.current.is_some();
            if had {
                self.current = None;
                fx.push(Effect::TrackChanged(None));
            }
            let ghost before = effects_view(fx@);
            self.conceal(&mut fx);
            proof {
                if had {
                    assert(before =~= seq![EffectView::TrackChanged(None)]);
                } else {
                    assert(before =~= Seq::<EffectView>::empty());
                }
                assert(effects_view(fx@) =~= before + hide_step(
                    if had {
                        EngineView { track: None, lyrics: None, anchor: None, ..old(self)@ }
                    } else {
                        old(self)@
                    },
                ).1);
            }
            return fx;
        }
        let np = match np {
            Some(p) => p,
            None => {
                return fx;
            },
        };
        let key = np.key();
        if !self.tracks(&key) {
            self.conceal(&mut fx);
            let anchor = Anchor { position_ms: np.position_ms, at_ms: now_ms, playing: np.is_playing };
            self.current = Some(Playing { key, anchor, lyrics: None });
            let title = np.display_title();
            let ghost before = effects_view(fx@);
            fx.push(Effect::TrackChanged(Some(title)));
            let ghost npv = np@;
            fx.push(Effect::FetchLyrics(np));
            assert(effects_view(fx@) =~= before + seq![
                EffectView::TrackChanged(Some(display_title_of(npv))),
                EffectView::FetchLyrics(npv),
            ]);
            return fx;
        }
        let est: u64 = match self.estimate(now_ms) {
            Some(x) => x,
            None => np.position_ms,
        };
        let drift: i64 = to_i64(np.position_ms) - to_i64(est);
        let playing_changed = match self.anchor_ref() {
            None => true,
            Some(a) => a.playing != np.is_playing,
        };
        if playing_changed || drift > SEEK_THRESHOLD_MS || drift < -SEEK_THRESHOLD_MS {
            let anchor = Anchor { position_ms: np.position_ms, at_ms: now_ms, playing: np.is_playing };
            if let Some(c) = self.current.take() {
                self.current = Some(Playing { key: c.key, anchor, lyrics: c.lyrics });
            }
        }
        if !np.is_playing {
            self.conceal(&mut fx);
            assert(effects_view(fx@) =~= Seq::<EffectView>::empty() + hide_step(
                if playing_changed || drift > SEEK_THRESHOLD_MS || drift < -SEEK_THRESHOLD_MS {
                    EngineView { anchor: Some(anchor_of(np@, now_ms)), ..old(self)@ }
                } else {
                    old(self)@
                },
            ).1);
        } else {
            assert(effects_view(fx@) =~= Seq::<EffectView>::empty());
        }
        fx
    }

    /// The position estimated at `now_ms`: the anchored position, moved on by the time
    /// elapsed since when playing; `None` before the first reading of the track.
    pub fn estimate(&self, now_ms: u64) -> (r: Option<u64>)
        requires
            estimate_fits(self@.anchor, now_ms),
        ensures
            match estimate_of(self@.anchor, now_ms) {
                Some(x) => r == Some(x as u64),
                None => r is None,
            },
            r is None <==> self@.track is None,
    {
        match self.anchor_ref() {
            None => None,
            Some(a) => {
                if a.playing {
                    let el = if now_ms >= a.at_ms {
                        now_ms - a.at_ms
                    } else {
                        0
                    };
                    Some(a.position_ms + el)
                } else {
                    Some(a.position_ms)
                }
            },
        }
    }

    /// Takes the lyrics fetched for `key`: ignored when another track is playing by now; no
    /// lyrics, or empty ones, hide the overlay.
    pub fn on_lyrics(&mut self, key: &TrackKey, lyrics: Option<Lyrics>) -> (r: Vec<Effect>)
        ensures
            (final(self)@, effects_view(r@)) == lyrics_step(
                old(self)@,
                key@,
                match lyrics {
                    Some(l) => Some(l@),
                    None => None,
                },
            ),
    {
        if !self.tracks(key) {
            let fx: Vec<Effect> = Vec::new();
            assert(effects_view(fx@) =~= Seq::<EffectView>::empty());
            return fx;
        }
        match lyrics {
            Some(l) => {
                if l.lines.len() > 0 {
                    let texts = l.texts();
                    let ghost lv = l@;
                    if let Some(c) = self.current.take() {
                        self.current = Some(Playing { key: c.key, anchor: c.anchor, lyrics: Some(l) });
                    }
                    self.last_index = None;
                    let k = key.copied();
                    let mut fx: Vec<Effect> = Vec::new();
                    fx.push(Effect::LyricsLoaded(k, texts));
                    assert(effects_view(fx@) =~= seq![EffectView::LyricsLoaded(key@, texts_of(lv))]);
                    return fx;
                }
                if let Some(c) = self.current.take() {
                    self.current = Some(Playing { key: c.key, anchor: c.anchor, lyrics: None });
                }
                let mut fx = Vec::new();
                self.conceal(&mut fx);
                assert(effects_view(fx@) =~= Seq::<EffectView>::empty() + hide_step(
                    EngineView { lyrics: None, ..old(self)@ },
                ).1);
                fx
            },
            None => {
                if let Some(c) = self.current.take() {
                    self.current = Some(Playing { key: c.key, anchor: c.anchor, lyrics: None });
                }
                let mut fx = Vec::new();
                self.conceal(&mut fx);
                assert(effects_view(fx@) =~= Seq::<EffectView>::empty() + hide_step(
                    EngineView { lyrics: None, ..old(self)@ },
                ).1);
                fx
            },
        }
    }

    fn current_index(&self, now_ms: u64) -> (r: Option<i64>)
        requires
            tick_fits(self@, now_ms),
        ensures
            match shown_position(self@, now_ms) {
                None => r is None,
                Some(pos) => r == Some(index_value(line_at_spec(self@.lyrics->0, pos))),
            },
    {
        let lyrics = match self.lyrics_ref() {
            Some(l) => l,
            None => {
                return None;
            },
        };
        let key = match self.current_track() {
            Some(k) => k,
            None => {
                return None;
            },
        };
        let playing = match self.anchor_ref() {
            Some(a) => a.playing,
            None => {
                return None;
            },
        };
        if !playing {
            return None;
        }
        let id = key.id();
        let offset: i64 = match self.offsets.get(&id) {
            Some(o) => *o,
            None => 0,
        };
        let est = match self.estimate(now_ms) {
            Some(x) => x,
            None => {
                return None;
            },
        };
        let p: i64 = to_i64(est) + offset;
        let pos: u64 = if p > 0 {
            p as u64
        } else {
            0
        };
        let li = lyrics.line_at(pos);
        let idx: i64 = match li {
            Some(i) => i as i64,
            None => -1,
        };
        assert(key@ == self@.track->0);
        assert(shown_position(self@, now_ms) == Some(pos));
        Some(idx)
    }

    /// Handles a tick of the clock at `now_ms`: while playing with lyrics, shows the overlay
    /// and reports the line at the estimated position (moved by the track's offset) when it
    /// changed; -1 stands for "before the first line".
    pub fn on_tick(&mut self, now_ms: u64) -> (r: Vec<Effect>)
        requires
            tick_fits(old(self)@, now_ms),
        ensures
            match shown_position(old(self)@, now_ms) {
                None => final(self)@ == old(self)@ && r@.len() == 0,
                Some(pos) => (final(self)@, effects_view(r@)) == tick_apply(
                    old(self)@,
                    index_value(line_at_spec(old(self)@.lyrics->0, pos)),
                ),
            },
    {
        let idx = match self.current_index(now_ms) {
            None => {
                return Vec::new();
            },
            Some(i) => i,
        };
        let mut fx: Vec<Effect> = Vec::new();
        if !self.showing {
            self.showing = true;
            fx.push(Effect::Show);
        }
        let ghost mid = effects_view(fx@);
        let changed = match self.last_index {
            Some(l) => l != idx,
            None => true,
        };
        if changed {
            self.last_index = Some(idx);
            fx.push(Effect::LineChanged(idx));
            assert(effects_view(fx@) =~= mid + seq![EffectView::LineChanged(idx)]);
        } else {
            assert(effects_view(fx@) =~= mid + Seq::<EffectView>::empty());
        }
        proof {
            if !old(self)@.showing {
                assert(mid =~= seq![EffectView::Show]);
            } else {
                assert(mid =~= Seq::<EffectView>::empty());
            }
        }
        fx
    }

    /// Moves the offset of the current track by `delta` ms and returns the new offset; an
    /// offset that comes back to 0 is dropped. `None`, with nothing changed, without a track.
    pub fn adjust_offset(&mut self, delta: i64) -> (r: Option<i64>)
        requires
            adjust_fits(old(self)@, delta),
        ensures
            match old(self)@.track {
                None => r is None && final(self)@ == old(self)@,
                Some(k) => {
                    let v = offset_of(old(self)@, k) + delta;
                    &&& r == Some(v as i64)
                    &&& final(self)@ == (EngineView {
                        offsets: if v == 0 {
                            old(self)@.offsets.remove(id_of(k))
                        } else {
                            old(self)@.offsets.insert(id_of(k), v as i64)
                        },
                        ..old(self)@
                    })
                },
            },
    {
        let id = match self.current_track() {
            Some(k) => k.id(),
            None => {
                return None;
            },
        };
        let cur: i64 = match self.offsets.get(&id) {
            Some(o) => *o,
            None => 0,
        };
        let v = cur + delta;
        if v == 0 {
            self.offsets.remove(&id);
        } else {
            self.offsets.insert(id, v);
        }
        Some(v)
    }

    /// The estimate at `now_ms` as a wide integer, without overflow.
    fn estimate_wide(&self, now_ms: u64) -> (r: Option<u128>)
        ensures
            match estimate_of(self@.anchor, now_ms) {
                Some(x) => r == Some(x as u128),
                None => r is None,
            },
    {
        match self.anchor_ref() {
            None => None,
            Some(a) => {
                if a.playing {
                    let el: u128 = if now_ms >= a.at_ms {
                        (now_ms - a.at_ms) as u128
                    } else {
                        0
                    };
                    Some(a.position_ms as u128 + el)
                } else {
                    Some(a.position_ms as u128)
                }
            },
        }
    }

    /// `on_poll` can handle this reading at `now_ms` (no arithmetic overflows).
    pub fn poll_ok(&self, np: &Option<NowPlaying>, now_ms: u64) -> (r: bool)
        ensures
            r == poll_fits(
                self@,
                match np {
                    Some(p) => Some(p@),
                    None => None,
                },
                now_ms,
            ),
    {
        let p = match np {
            None => {
                return true;
            },
            Some(p) => p,
        };
        if !is_music_track(p) {
            return true;
        }
        if p.duration_ms > u64::MAX - 500 {
            return false;
        }
        let key = p.key();
        if !self.tracks(&key) {
            return true;
        }
        let est: u64 = match self.estimate_wide(now_ms) {
            None => p.position_ms,
            Some(x) => {
                if x > u64::MAX as u128 {
                    return false;
                }
                x as u64
            },
        };
        let d: i128 = to_i64(p.position_ms) as i128 - to_i64(est) as i128;
        (i64::MIN as i128) < d && d <= (i64::MAX as i128)
    }

    /// `on_tick` can handle a tick at `now_ms` (no arithmetic overflows).
    pub fn tick_ok(&self, now_ms: u64) -> (r: bool)
        ensures
            r == tick_fits(self@, now_ms),
    {
        if self.lyrics_ref().is_none() {
            return true;
        }
        let key = match self.current_track() {
            None => {
                return true;
            },
            Some(k) => k,
        };
        let playing = match self.anchor_ref() {
            None => {
                return true;
            },
            Some(a) => a.playing,
        };
        if !playing {
            return true;
        }
        let est: u64 = match self.estimate_wide(now_ms) {
            None => {
                return true;
            },
            Some(x) => {
                if x > u64::MAX as u128 {
                    return false;
                }
                x as u64
            },
        };
        let id = key.id();
        let offset: i64 = match self.offsets.get(&id) {
            Some(o) => *o,
            None => 0,
        };
        let p: i128 = to_i64(est) as i128 + offset as i128;
        (i64::MIN as i128) <= p && p <= (i64::MAX as i128)
    }

    /// `adjust_offset(delta)` can add `delta` without overflow.
    pub fn adjust_ok(&self, delta: i64) -> (r: bool)
        ensures
            r == adjust_fits(self@, delta),
    {
        let id = match self.current_track() {
            Some(k) => k.id(),
            None => {
                return true;
            },
        };
        let cur: i64 = match self.offsets.get(&id) {
            Some(o) => *o,
            None => 0,
        };
        let v: i128 = cur as i128 + delta as i128;
        (i64::MIN as i128) <= v && v <= (i64::MAX as i128)
    }

    /// Drops the offset of the current track and returns 0; `None` without a track.
    pub fn reset_offset(&mut self) -> (r: Option<i64>)
        ensures
            match old(self)@.track {
                None => r is None && final(self)@ == old(self)@,
                Some(k) => r == Some(0i64) && final(self)@ == (EngineView {
                    offsets: old(self)@.offsets.remove(id_of(k)),
                    ..old(self)@
                }),
            },
    {
        let id = match self.current_track() {
            Some(k) => k.id(),
            None => {
                return None;
            },
        };
        self.offsets.remove(&id);
        Some(0)
    }
}

/// `x as i64`.
fn to_i64(x: u64) -> (r: i64)
    ensures
        r == as_i64(x),
{
    if x <= i64::MAX as u64 {
        x as i64
    } else {
        let high: u64 = x - 0x8000_0000_0000_0000u64;
        (high as i64) + i64::MIN
    }
}


// ---------------------------------------------------------------------------------------
// Laws.
/// A second tick at the same time changes nothing and reports nothing: the overlay only
/// hears about a line when it changes.
pub proof fn law_repeated_tick_is_quiet(e: EngineView, now: u64, pos: u64)
    requires
        shown_position(e, now) == Some(pos),
        e.lyrics->0.len() <= usize::MAX,
        e.lyrics->0.len() <= i64::MAX,
    ensures
        ({
            let e1 = tick_apply(e, index_value(line_at_spec(e.lyrics->0, pos))).0;
            &&& shown_position(e1, now) == Some(pos)
            &&& tick_apply(e1, index_value(line_at_spec(e1.lyrics->0, pos))) == (
                e1,
                Seq::<EffectView>::empty(),
            )
            &&& -1 <= index_value(line_at_spec(e.lyrics->0, pos)) < e.lyrics->0.len()
        }),
{
    crate::lrc::lemma_line_at_spec(e.lyrics->0, pos);
    let e1 = tick_apply(e, index_value(line_at_spec(e.lyrics->0, pos))).0;
    assert(tick_apply(e1, index_value(line_at_spec(e1.lyrics->0, pos))).1 =~= Seq::<
        EffectView,
    >::empty());
}

/// A pause hides the overlay, and no tick shows it again until playing resumes.
pub proof fn law_pause_hides(e: EngineView, np: NowPlayingView, now: u64, later: u64)
    requires
        is_music(np),
        !np.is_playing,
        e.track == Some(key_of(np)),
    ensures
        !poll_step(e, Some(np), now).0.showing,
        shown_position(poll_step(e, Some(np), now).0, later) is None,
{
}

/// A new track hides the overlay, forgets the old lyrics and asks for the new ones; ticks
/// stay quiet until they arrive.
pub proof fn law_new_track_fetches(e: EngineView, np: NowPlayingView, now: u64, later: u64)
    requires
        is_music(np),
        e.track != Some(key_of(np)),
    ensures
        poll_step(e, Some(np), now).0.track == Some(key_of(np)),
        poll_step(e, Some(np), now).0.lyrics is None,
        !poll_step(e, Some(np), now).0.showing,
        poll_step(e, Some(np), now).1.last() == EffectView::FetchLyrics(np),
        shown_position(poll_step(e, Some(np), now).0, later) is None,
{
}

/// Lyrics that arrive for a track other than the current one change nothing.
pub proof fn law_stale_lyrics_ignored(
    e: EngineView,
    key: TrackKeyView,
    lyrics: Option<Seq<LineView>>,
)
    requires
        e.track != Some(key),
    ensures
        lyrics_step(e, key, lyrics) == (e, Seq::<EffectView>::empty()),
{
}

/// Lyrics that are missing (or hold no line) for the current track hide the overlay, and
/// ticks stay quiet until other lyrics arrive.
pub proof fn law_missing_lyrics_hides(
    e: EngineView,
    key: TrackKeyView,
    lyrics: Option<Seq<LineView>>,
    later: u64,
)
    requires
        e.track == Some(key),
        !(lyrics matches Some(l) && l.len() > 0),
    ensures
        !lyrics_step(e, key, lyrics).0.showing,
        lyrics_step(e, key, lyrics).0.lyrics is None,
        shown_position(lyrics_step(e, key, lyrics).0, later) is None,
{
}

/// The steps of the engine keep `engine_wf`.
pub proof fn law_steps_keep_wf(
    e: EngineView,
    np: Option<NowPlayingView>,
    now: u64,
    key: TrackKeyView,
    lyrics: Option<Seq<LineView>>,
    idx: i64,
)
    requires
        engine_wf(e),
    ensures
        engine_wf(poll_step(e, np, now).0),
        engine_wf(lyrics_step(e, key, lyrics).0),
        engine_wf(tick_apply(e, idx).0),
        engine_wf(hide_step(e).0),
{
}

/// There is an estimate exactly when there is a track.
pub proof fn law_estimate_iff_track(e: EngineView, now: u64)
    requires
        engine_wf(e),
    ensures
        (estimate_of(e.anchor, now) is None) == (e.track is None),
{
}

/// An ad or a podcast is read as nothing playing: the same state and effects as no reading,
/// and afterwards no track, no lyrics and no estimate.
pub proof fn law_ad_is_nothing_playing(e: EngineView, np: NowPlayingView, now: u64, later: u64)
    requires
        engine_wf(e),
        !is_music(np),
    ensures
        poll_step(e, Some(np), now) == poll_step(e, None, now),
        poll_step(e, Some(np), now).0.track is None,
        poll_step(e, Some(np), now).0.lyrics is None,
        estimate_of(poll_step(e, Some(np), now).0.anchor, later) is None,
        !(poll_step(e, Some(np), now).1.contains(EffectView::FetchLyrics(np))),
{
    let fx = poll_step(e, Some(np), now).1;
    if fx.contains(EffectView::FetchLyrics(np)) {
        let i = choose|i: int| 0 <= i < fx.len() && fx[i] == EffectView::FetchLyrics(np);
        if e.track is Some {
            assert(fx[i] == EffectView::TrackChanged(None) || fx[i] == EffectView::Hide);
        } else {
            assert(fx[i] == EffectView::Hide);
        }
    }
}

/// While playing, the estimate never goes back as time passes.
pub proof fn law_estimate_grows(a: Anchor, t1: u64, t2: u64)
    requires
        a.playing,
        t1 <= t2,
    ensures
        estimate_of(Some(a), t1)->0 <= estimate_of(Some(a), t2)->0,
{
}

/// With nothing playing (or an ad), there is no track and the overlay is hidden.
pub proof fn law_nothing_playing_clears(e: EngineView, np: Option<NowPlayingView>, now: u64)
    requires
        !(np matches Some(p) && is_music(p)),
    ensures
        poll_step(e, np, now).0.track is None,
        !poll_step(e, np, now).0.showing,
        poll_step(e, np, now).0.last_index is None,
{
}

/// A seek (a jump of more than the threshold) re-anchors the clock on the reported position;
/// a smaller drift while the playing state is unchanged keeps the estimate.
pub proof fn law_seek_resyncs(e: EngineView, np: NowPlayingView, now: u64)
    requires
        is_music(np),
        e.track == Some(key_of(np)),
    ensures
        resyncs(e, np, now) ==> estimate_of(poll_step(e, Some(np), now).0.anchor, now) == Some(
            np.position_ms as int,
        ),
        !resyncs(e, np, now) ==> poll_step(e, Some(np), now).0.anchor == e.anchor,
        np.is_playing ==> poll_step(e, Some(np), now).1 == Seq::<EffectView>::empty(),
{
}

/// While paused, the estimate stays on the anchored position whatever the time.
pub proof fn law_paused_estimate_constant(a: Anchor, t1: u64, t2: u64)
    requires
        !a.playing,
    ensures
        estimate_of(Some(a), t1) == estimate_of(Some(a), t2),
{
}

/// Moving the offset by `d` and back by `-d` restores the offsets (an entry that held 0 is
/// dropped on the way).
pub proof fn law_offset_round_trip(e: EngineView, k: TrackKeyView, d: i64)
    requires
        e.track == Some(k),
        i64::MIN <= offset_of(e, k) + d <= i64::MAX,
        i64::MIN <= -d,
    ensures
        ({
            let v = offset_of(e, k) + d;
            let e1 = EngineView {
                offsets: if v == 0 {
                    e.offsets.remove(id_of(k))
                } else {
                    e.offsets.insert(id_of(k), v as i64)
                },
                ..e
            };
            let w = offset_of(e1, k) + (-d);
            let e2_offsets = if w == 0 {
                e1.offsets.remove(id_of(k))
            } else {
                e1.offsets.insert(id_of(k), w as i64)
            };
            e2_offsets == (if e.offsets.contains_key(id_of(k)) && e.offsets[id_of(k)] == 0 {
                e.offsets.remove(id_of(k))
            } else {
                e.offsets
            })
        }),
{
    let id = id_of(k);
    let v = offset_of(e, k) + d;
    let e1 = EngineView {
        offsets: if v == 0 {
            e.offsets.remove(id)
        } else {
            e.offsets.insert(id, v as i64)
        },
        ..e
    };
    let w = offset_of(e1, k) + (-d);
    assert(w == offset_of(e, k));
    let e2_offsets = if w == 0 {
        e1.offsets.remove(id)
    } else {
        e1.offsets.insert(id, w as i64)
    };
    if w == 0 {
        assert(e2_offsets =~= (if e.offsets.contains_key(id) && e.offsets[id] == 0 {
            e.offsets.remove(id)
        } else {
            e.offsets
        }));
    } else {
        assert(e2_offsets =~= e.offsets);
    }
}

/// After a reset the current track has no offset, whatever it had.
pub proof fn law_reset_clears_offset(e: EngineView, k: TrackKeyView)
    requires
        e.track == Some(k),
    ensures
        offset_of(EngineView { offsets: e.offsets.remove(id_of(k)), ..e }, k) == 0,
{
}

/// On the same track, a reported position more than `SEEK_THRESHOLD_MS` away from the
/// estimate, ahead of it or behind it, re-anchors the clock on the reported position,
/// wherever that position lies; within the threshold, with the playing state unchanged, the
/// anchor stays.
pub proof fn law_seek_either_way(e: EngineView, np: NowPlayingView, now: u64)
    requires
        engine_wf(e),
        is_music(np),
        e.track == Some(key_of(np)),
    ensures
        ({
            let est = estimate_of(e.anchor, now)->0;
            let d = as_i64(np.position_ms) - as_i64(est as u64);
            let after = poll_step(e, Some(np), now).0;
            &&& (d > SEEK_THRESHOLD_MS || d < -SEEK_THRESHOLD_MS) ==> {
                &&& after.anchor == Some(
                    Anchor { position_ms: np.position_ms, at_ms: now, playing: np.is_playing },
                )
                &&& estimate_of(after.anchor, now) == Some(np.position_ms as int)
            }
            &&& (-SEEK_THRESHOLD_MS <= d <= SEEK_THRESHOLD_MS && e.anchor->0.playing
                == np.is_playing) ==> after.anchor == e.anchor
        }),
{
}

/// The position whose line a tick shows is the estimate moved by the track's offset, a
/// negative offset included, and never below 0.
pub proof fn law_shown_position_with_offset(e: EngineView, now: u64)
    requires
        e.lyrics is Some,
        e.track is Some,
        e.anchor matches Some(a) && a.playing,
    ensures
        ({
            let id = id_of(e.track->0);
            let o: int = if e.offsets.contains_key(id) {
                e.offsets[id] as int
            } else {
                0
            };
            let p = as_i64(estimate_of(e.anchor, now)->0 as u64) + o;
            shown_position(e, now) == Some(
                if p > 0 {
                    p as u64
                } else {
                    0u64
                },
            )
        }),
{
}

/// Lowering the offset of the track never shows a later line position, and while the
/// position shown is above 0 it moves it earlier by the whole difference (as far as 0).
pub proof fn law_lower_offset_shows_earlier(e: EngineView, o1: i64, o2: i64, now: u64)
    requires
        e.lyrics is Some,
        e.track is Some,
        e.anchor matches Some(a) && a.playing,
        o2 <= o1,
    ensures
        ({
            let id = id_of(e.track->0);
            let s1 = shown_position(EngineView { offsets: e.offsets.insert(id, o1), ..e }, now)->0;
            let s2 = shown_position(EngineView { offsets: e.offsets.insert(id, o2), ..e }, now)->0;
            &&& s2 <= s1
            &&& s1 > 0 && o2 < o1 ==> s2 < s1
            &&& s2 > 0 ==> s1 - s2 == o1 - o2
        }),
{
}

} // verus!
