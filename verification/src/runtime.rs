//! The decisions of the sync loop: what each effect of the engine, each command and each
//! finished translation asks the runtime to do. The runtime itself (timers, tasks, the
//! player, the network) lives outside the library and performs these actions.
use vstd::prelude::*;
use crate::lrc::texts_of;
use crate::offsets::Offsets;
use crate::player::{NowPlaying, NowPlayingView, TrackKey, TrackKeyView};
use crate::sync::{adjust_fits, effects_view, offset_of, Effect, EffectView, Engine};
use crate::text::{copy_strings, strings_view};

verus! {

/// What the overlay window is told.
#[derive(Debug, Clone, PartialEq)]
pub enum OverlayEvent {
    LyricsLoaded(Vec<String>),
    TranslationLoaded(Vec<String>),
    LineChanged(i64),
    Hide,
    Show,
    OffsetChanged(i64),
}

pub enum OverlayEventView {
    LyricsLoaded(Seq<Seq<char>>),
    TranslationLoaded(Seq<Seq<char>>),
    LineChanged(i64),
    Hide,
    Show,
    OffsetChanged(i64),
}

impl View for OverlayEvent {
    type V = OverlayEventView;

    open spec fn view(&self) -> OverlayEventView {
        match self {
            OverlayEvent::LyricsLoaded(l) => OverlayEventView::LyricsLoaded(strings_view(l@)),
            OverlayEvent::TranslationLoaded(l) => OverlayEventView::TranslationLoaded(
                strings_view(l@),
            ),
            OverlayEvent::LineChanged(i) => OverlayEventView::LineChanged(*i),
            OverlayEvent::Hide => OverlayEventView::Hide,
            OverlayEvent::Show => OverlayEventView::Show,
            OverlayEvent::OffsetChanged(o) => OverlayEventView::OffsetChanged(*o),
        }
    }
}

/// Where the engine's news go: the overlay, the tray title, the saved offsets.
pub trait Sink {
    fn emit(&self, ev: OverlayEvent);

    fn track_changed(&self, title: Option<String>);

    fn offsets_changed(&self, offsets: &Offsets);
}

/// How often the loop reads the player and advances the estimate, in milliseconds.
pub struct Timing {
    pub poll_ms: u64,
    pub tick_ms: u64,
}

impl Default for Timing {
    /// A poll each second and a tick each 100 ms.
    fn default() -> (r: Timing)
        ensures
            r.poll_ms == 1000,
            r.tick_ms == 100,
    {
        Timing { poll_ms: 1000, tick_ms: 100 }
    }
}

/// Commands from the shortcuts and the menu.
#[derive(Debug)]
pub enum SyncCmd {
    AdjustOffset(i64),
    ResetOffset,
    Retranslate,
}

/// What the runtime does for the engine.
#[derive(Debug)]
pub enum Action {
    /// Tell the overlay.
    Emit(OverlayEvent),
    /// Show a new track title (or none) in the tray.
    TrackChanged(Option<String>),
    /// Fetch the lyrics of the track in the background.
    FetchLyrics(NowPlaying),
    /// Translate the lines of the track in the background.
    Translate(TrackKey, Vec<String>),
    /// Save the offsets of the engine.
    SaveOffsets,
}

pub enum ActionView {
    Emit(OverlayEventView),
    TrackChanged(Option<Seq<char>>),
    FetchLyrics(NowPlayingView),
    Translate(TrackKeyView, Seq<Seq<char>>),
    SaveOffsets,
}

impl View for Action {
    type V = ActionView;

    open spec fn view(&self) -> ActionView {
        match self {
            Action::Emit(e) => ActionView::Emit(e@),
            Action::TrackChanged(t) => ActionView::TrackChanged(
                match t {
                    Some(s) => Some(s@),
                    None => None,
                },
            ),
            Action::FetchLyrics(np) => ActionView::FetchLyrics(np@),
            Action::Translate(k, l) => ActionView::Translate(k@, strings_view(l@)),
            Action::SaveOffsets => ActionView::SaveOffsets,
        }
    }
}

pub open spec fn actions_view(s: Seq<Action>) -> Seq<ActionView> {
    s.map_values(|a: Action| a@)
}

/// The actions for one effect: loaded lyrics go to the overlay and to the translator.
pub open spec fn actions_of_effect(e: EffectView) -> Seq<ActionView> {
    match e {
        EffectView::Hide => seq![ActionView::Emit(OverlayEventView::Hide)],
        EffectView::Show => seq![ActionView::Emit(OverlayEventView::Show)],
        EffectView::LineChanged(i) => seq![ActionView::Emit(OverlayEventView::LineChanged(i))],
        EffectView::TrackChanged(t) => seq![ActionView::TrackChanged(t)],
        EffectView::FetchLyrics(np) => seq![ActionView::FetchLyrics(np)],
        EffectView::LyricsLoaded(k, l) => seq![
            ActionView::Emit(OverlayEventView::LyricsLoaded(l)),
            ActionView::Translate(k, l),
        ],
    }
}

/// The actions for a list of effects, in order.
pub open spec fn actions_of(fx: Seq<EffectView>) -> Seq<ActionView>
    decreases fx.len(),
{
    if fx.len() == 0 {
        seq![]
    } else {
        actions_of(fx.drop_last()) + actions_of_effect(fx.last())
    }
}

/// The actions that carry out the effects `fx`, in order.
pub fn actions_for(fx: Vec<Effect>) -> (r: Vec<Action>)
    ensures
        actions_view(r@) == actions_of(effects_view(fx@)),
{
    let mut out: Vec<Action> = Vec::new();
    let ghost all = effects_view(fx@);
    let n = fx.len();
    assert(all.take(0) =~= Seq::<EffectView>::empty());
    for e in it: fx.into_iter()
        invariant
            n == all.len(),
            it.seq().map_values(|e: Effect| e@) == all,
            actions_view(out@) == actions_of(all.take(it.index() as int)),
    {
        let ghost ev = e@;
        let ghost before = actions_view(out@);
        match e {
            Effect::Hide => out.push(Action::Emit(OverlayEvent::Hide)),
            Effect::Show => out.push(Action::Emit(OverlayEvent::Show)),
            Effect::LineChanged(i) => out.push(Action::Emit(OverlayEvent::LineChanged(i))),
            Effect::TrackChanged(t) => out.push(Action::TrackChanged(t)),
            Effect::FetchLyrics(np) => out.push(Action::FetchLyrics(np)),
            Effect::LyricsLoaded(k, lines) => {
                let copy = copy_strings(&lines);
                out.push(Action::Emit(OverlayEvent::LyricsLoaded(copy)));
                out.push(Action::Translate(k, lines));
            },
        }
        proof {
            let k = it.index() as int;
            assert(all.take(k + 1).drop_last() =~= all.take(k));
            assert(all.take(k + 1).last() == ev);
            assert(actions_view(out@) =~= before + actions_of_effect(ev));
        }
    }
    assert(all.take(n as int) =~= all);
    out
}

/// What a command does: an offset change is shown and saved when there is a track; a new
/// translation is asked for the current track when its lyrics are loaded.
pub fn on_command(engine: &mut Engine, cmd: SyncCmd) -> (r: Vec<Action>)
    requires
        cmd matches SyncCmd::AdjustOffset(d) ==> adjust_fits(old(engine)@, d),
    ensures
        match cmd {
            SyncCmd::AdjustOffset(d) => match old(engine)@.track {
                None => final(engine)@ == old(engine)@ && r@.len() == 0,
                Some(k) => {
                    let v = offset_of(old(engine)@, k) + d;
                    &&& final(engine)@.offsets == (if v == 0 {
                        old(engine)@.offsets.remove(crate::player::id_of(k))
                    } else {
                        old(engine)@.offsets.insert(crate::player::id_of(k), v as i64)
                    })
                    &&& actions_view(r@) == seq![
                        ActionView::Emit(OverlayEventView::OffsetChanged(v as i64)),
                        ActionView::SaveOffsets,
                    ]
                },
            },
            SyncCmd::ResetOffset => match old(engine)@.track {
                None => final(engine)@ == old(engine)@ && r@.len() == 0,
                Some(k) => {
                    &&& final(engine)@.offsets == old(engine)@.offsets.remove(
                        crate::player::id_of(k),
                    )
                    &&& actions_view(r@) == seq![
                        ActionView::Emit(OverlayEventView::OffsetChanged(0)),
                        ActionView::SaveOffsets,
                    ]
                },
            },
            SyncCmd::Retranslate => final(engine)@ == old(engine)@ && match (
                old(engine)@.track,
                old(engine)@.lyrics,
            ) {
                (Some(k), Some(l)) => actions_view(r@) == seq![ActionView::Translate(k, texts_of(l))],
                _ => r@.len() == 0,
            },
        },
{
    let mut out: Vec<Action> = Vec::new();
    match cmd {
        SyncCmd::AdjustOffset(d) => {
            if let Some(o) = engine.adjust_offset(d) {
                out.push(Action::Emit(OverlayEvent::OffsetChanged(o)));
                out.push(Action::SaveOffsets);
                assert(actions_view(out@) =~= seq![
                    ActionView::Emit(OverlayEventView::OffsetChanged(o)),
                    ActionView::SaveOffsets,
                ]);
            }
        },
        SyncCmd::ResetOffset => {
            if let Some(o) = engine.reset_offset() {
                out.push(Action::Emit(OverlayEvent::OffsetChanged(o)));
                out.push(Action::SaveOffsets);
                assert(actions_view(out@) =~= seq![
                    ActionView::Emit(OverlayEventView::OffsetChanged(0)),
                    ActionView::SaveOffsets,
                ]);
            }
        },
        SyncCmd::Retranslate => {
            let key = match engine.current_track() {
                Some(k) => Some(k.copied()),
                None => None,
            };
            if let Some(k) = key {
                if let Some(lines) = engine.current_lines() {
                    out.push(Action::Translate(k, lines));
                    assert(actions_view(out@) =~= seq![
                        ActionView::Translate(old(engine)@.track->0, texts_of(old(engine)@.lyrics->0)),
                    ]);
                }
            }
        },
    }
    out
}

/// A finished translation of `key` goes to the overlay only if `key` is still the current
/// track; a failed one shows as no translation.
pub fn on_translation(engine: &Engine, key: &TrackKey, lines: Option<Vec<String>>) -> (r: Option<
    OverlayEvent,
>)
    ensures
        engine@.track == Some(key@) ==> (r matches Some(ev) && ev@
            == OverlayEventView::TranslationLoaded(
            match lines {
                Some(l) => strings_view(l@),
                None => Seq::<Seq<char>>::empty(),
            },
        )),
        engine@.track != Some(key@) ==> r is None,
{
    let current = match engine.current_track() {
        Some(k) => k.same(key),
        None => false,
    };
    if !current {
        return None;
    }
    match lines {
        Some(l) => Some(OverlayEvent::TranslationLoaded(l)),
        None => {
            let v: Vec<String> = Vec::new();
            assert(strings_view(v@) =~= Seq::<Seq<char>>::empty());
            Some(OverlayEvent::TranslationLoaded(v))
        },
    }
}

/// The overlay events among `acts`, in order.
pub open spec fn emitted(acts: Seq<ActionView>) -> Seq<OverlayEventView>
    decreases acts.len(),
{
    if acts.len() == 0 {
        seq![]
    } else {
        emitted(acts.drop_last()) + match acts.last() {
            ActionView::Emit(ev) => seq![ev],
            _ => seq![],
        }
    }
}

/// The actions among `acts` that are not overlay events, in order.
pub open spec fn tasks(acts: Seq<ActionView>) -> Seq<ActionView>
    decreases acts.len(),
{
    if acts.len() == 0 {
        seq![]
    } else {
        tasks(acts.drop_last()) + match acts.last() {
            ActionView::Emit(_) => seq![],
            a => seq![a],
        }
    }
}

/// What the overlay is told of the effects `fx`: hiding, showing, the line changes and the
/// texts of loaded lyrics, in order.
pub open spec fn overlay_events(fx: Seq<EffectView>) -> Seq<OverlayEventView>
    decreases fx.len(),
{
    if fx.len() == 0 {
        seq![]
    } else {
        overlay_events(fx.drop_last()) + match fx.last() {
            EffectView::Hide => seq![OverlayEventView::Hide],
            EffectView::Show => seq![OverlayEventView::Show],
            EffectView::LineChanged(i) => seq![OverlayEventView::LineChanged(i)],
            EffectView::LyricsLoaded(_, l) => seq![OverlayEventView::LyricsLoaded(l)],
            _ => seq![],
        }
    }
}

/// The work that the effects `fx` start outside the overlay: tray titles, lyrics fetches,
/// and a translation for each loaded lyrics, in order.
pub open spec fn background_work(fx: Seq<EffectView>) -> Seq<ActionView>
    decreases fx.len(),
{
    if fx.len() == 0 {
        seq![]
    } else {
        background_work(fx.drop_last()) + match fx.last() {
            EffectView::TrackChanged(t) => seq![ActionView::TrackChanged(t)],
            EffectView::FetchLyrics(np) => seq![ActionView::FetchLyrics(np)],
            EffectView::LyricsLoaded(k, l) => seq![ActionView::Translate(k, l)],
            _ => seq![],
        }
    }
}

proof fn lemma_emitted_add(a: Seq<ActionView>, b: Seq<ActionView>)
    ensures
        emitted(a + b) == emitted(a) + emitted(b),
        tasks(a + b) == tasks(a) + tasks(b),
    decreases b.len(),
{
    if b.len() == 0 {
        assert(a + b =~= a);
        assert(emitted(a) + emitted(b) =~= emitted(a));
        assert(tasks(a) + tasks(b) =~= tasks(a));
    } else {
        lemma_emitted_add(a, b.drop_last());
        assert((a + b).drop_last() =~= a + b.drop_last());
        assert((a + b).last() == b.last());
        assert(emitted(a + b) =~= emitted(a) + emitted(b));
        assert(tasks(a + b) =~= tasks(a) + tasks(b));
    }
}

/// Every effect is carried out: the overlay is told exactly the hides, shows, line changes
/// and loaded texts of the effects, in their order, and the other work (tray title, lyrics
/// fetch, a translation per loaded lyrics) is started for exactly the effects that ask for
/// it, in their order.
pub proof fn law_effects_carried_out(fx: Seq<EffectView>)
    ensures
        emitted(actions_of(fx)) == overlay_events(fx),
        tasks(actions_of(fx)) == background_work(fx),
    decreases fx.len(),
{
    if fx.len() > 0 {
        law_effects_carried_out(fx.drop_last());
        let one = actions_of_effect(fx.last());
        lemma_emitted_add(actions_of(fx.drop_last()), one);
        match fx.last() {
            EffectView::LyricsLoaded(k, l) => {
                let a0 = ActionView::Emit(OverlayEventView::LyricsLoaded(l));
                let a1 = ActionView::Translate(k, l);
                assert(one.drop_last() =~= seq![a0]);
                assert(seq![a0].drop_last() =~= Seq::<ActionView>::empty());
                assert(seq![a0].last() == a0);
                assert(one.last() == a1);
                assert(emitted(Seq::<ActionView>::empty()) =~= Seq::<OverlayEventView>::empty());
                assert(tasks(Seq::<ActionView>::empty()) =~= Seq::<ActionView>::empty());
                assert(emitted(seq![a0]) =~= seq![OverlayEventView::LyricsLoaded(l)]);
                assert(tasks(seq![a0]) =~= Seq::<ActionView>::empty());
                assert(emitted(one) =~= seq![OverlayEventView::LyricsLoaded(l)]);
                assert(tasks(one) =~= seq![a1]);
            },
            _ => {
                assert(one.drop_last() =~= Seq::<ActionView>::empty());
                assert(one.len() == 1);
                assert(emitted(Seq::<ActionView>::empty()) =~= Seq::<OverlayEventView>::empty());
                assert(tasks(Seq::<ActionView>::empty()) =~= Seq::<ActionView>::empty());
                assert(emitted(one) =~= match fx.last() {
                    EffectView::Hide => seq![OverlayEventView::Hide],
                    EffectView::Show => seq![OverlayEventView::Show],
                    EffectView::LineChanged(i) => seq![OverlayEventView::LineChanged(i)],
                    _ => Seq::<OverlayEventView>::empty(),
                });
                assert(tasks(one) =~= match fx.last() {
                    EffectView::TrackChanged(t) => seq![ActionView::TrackChanged(t)],
                    EffectView::FetchLyrics(np) => seq![ActionView::FetchLyrics(np)],
                    _ => Seq::<ActionView>::empty(),
                });
            },
        }
    }
}

} // verus!
