use verso::lrc::{parse_lrc, Lyrics};
use verso::offsets::Offsets;
use verso::player::NowPlaying;
use verso::sync::{Effect, Engine, OFFSET_STEP_MS};

const T0: u64 = 1_000_000;

fn np(title: &str, pos: u64, playing: bool) -> NowPlaying {
    NowPlaying {
        title: title.into(),
        artist: "Banda Fictícia".into(),
        album: "Álbum Inventado".into(),
        duration_ms: 180_000,
        position_ms: pos,
        is_playing: playing,
    }
}

fn lyrics() -> Lyrics {
    parse_lrc("[00:01.00]um\n[00:05.00]dois\n[00:09.00]\n[00:12.00]três")
}

/// An engine with track "A" playing from `pos` and its lyrics loaded.
fn loaded(pos: u64, t0: u64) -> Engine {
    let mut e = Engine::new(Offsets::new());
    e.on_poll(Some(np("A", pos, true)), t0);
    e.on_lyrics(&np("A", 0, true).key(), Some(lyrics()));
    e
}

#[test]
fn new_track_requests_lyrics() {
    let mut e = Engine::new(Offsets::new());
    let fx = e.on_poll(Some(np("A", 0, true)), T0);
    assert_eq!(
        fx,
        vec![Effect::TrackChanged(Some("A — Banda Fictícia".into())), Effect::FetchLyrics(np("A", 0, true))]
    );
}

#[test]
fn lyrics_loaded_then_tick_shows_current_line() {
    let t0 = T0;
    let mut e = Engine::new(Offsets::new());
    e.on_poll(Some(np("A", 6000, true)), t0);
    let key = np("A", 0, true).key();
    assert_eq!(
        e.on_lyrics(&key, Some(lyrics())),
        vec![Effect::LyricsLoaded(key.clone(), vec!["um".into(), "dois".into(), "".into(), "três".into()])]
    );
    assert_eq!(e.on_tick(t0), vec![Effect::Show, Effect::LineChanged(1)]);
    assert_eq!(e.on_tick(t0 + 100), vec![]);
}

#[test]
fn estimates_between_polls() {
    let t0 = T0;
    let mut e = loaded(4000, t0);
    assert_eq!(e.on_tick(t0), vec![Effect::Show, Effect::LineChanged(0)]);
    assert_eq!(e.estimate(t0 + 1500), Some(5500));
    assert_eq!(e.on_tick(t0 + 1500), vec![Effect::LineChanged(1)]);
}

#[test]
fn before_first_line_is_minus_one() {
    let t0 = T0;
    let mut e = loaded(200, t0);
    assert_eq!(e.on_tick(t0), vec![Effect::Show, Effect::LineChanged(-1)]);
}

#[test]
fn pause_hides_and_resume_shows() {
    let t0 = T0;
    let mut e = loaded(6000, t0);
    e.on_tick(t0);
    assert_eq!(e.on_poll(Some(np("A", 6000, false)), t0 + 1000), vec![Effect::Hide]);
    assert_eq!(e.on_tick(t0 + 1100), vec![]);
    assert_eq!(e.estimate(t0 + 5000), Some(6000));
    e.on_poll(Some(np("A", 6000, true)), t0 + 2000);
    assert_eq!(e.on_tick(t0 + 2000), vec![Effect::Show, Effect::LineChanged(1)]);
}

#[test]
fn seek_resyncs() {
    let t0 = T0;
    let mut e = loaded(2000, t0);
    e.on_tick(t0);
    e.on_poll(Some(np("A", 13_000, true)), t0 + 1000);
    assert_eq!(e.estimate(t0 + 1000), Some(13_000));
    assert_eq!(e.on_tick(t0 + 1000), vec![Effect::LineChanged(3)]);
}

#[test]
fn small_drift_keeps_estimate() {
    let t0 = T0;
    let mut e = loaded(2000, t0);
    e.on_poll(Some(np("A", 3800, true)), t0 + 1000); // estimate 3000, off by 800
    assert_eq!(e.estimate(t0 + 1000), Some(3000));
}

#[test]
fn replay_of_same_track_resyncs_without_refetch() {
    let t0 = T0;
    let mut e = loaded(179_000, t0);
    e.on_tick(t0);
    let fx = e.on_poll(Some(np("A", 500, true)), t0 + 1000);
    assert!(!fx.iter().any(|f| matches!(f, Effect::FetchLyrics(_))));
    assert_eq!(e.on_tick(t0 + 1000), vec![Effect::LineChanged(-1)]);
}

#[test]
fn track_change_hides_and_ignores_stale_lyrics() {
    let t0 = T0;
    let mut e = loaded(6000, t0);
    e.on_tick(t0);
    let fx = e.on_poll(Some(np("B", 0, true)), t0 + 1000);
    assert_eq!(
        fx,
        vec![
            Effect::Hide,
            Effect::TrackChanged(Some("B — Banda Fictícia".into())),
            Effect::FetchLyrics(np("B", 0, true)),
        ]
    );
    // the lyrics of track A arrive late: ignored
    assert_eq!(e.on_lyrics(&np("A", 0, true).key(), Some(lyrics())), vec![]);
    assert_eq!(e.on_tick(t0 + 1100), vec![]);
}

#[test]
fn nothing_playing_clears_track() {
    let t0 = T0;
    let mut e = loaded(6000, t0);
    e.on_tick(t0);
    assert_eq!(e.on_poll(None, t0 + 1000), vec![Effect::TrackChanged(None), Effect::Hide]);
    assert_eq!(e.current_track(), None);
}

#[test]
fn ads_and_podcasts_are_treated_as_nothing() {
    let mut e = Engine::new(Offsets::new());
    let mut ad = np("Anúncio", 0, true);
    ad.duration_ms = 0;
    assert_eq!(e.on_poll(Some(ad), T0), vec![]);
    let mut no_artist = np("Episódio", 0, true);
    no_artist.artist = "  ".into();
    assert_eq!(e.on_poll(Some(no_artist), T0), vec![]);
    assert_eq!(e.current_track(), None);
}

#[test]
fn missing_lyrics_keeps_hidden() {
    let t0 = T0;
    let mut e = Engine::new(Offsets::new());
    e.on_poll(Some(np("A", 6000, true)), t0);
    assert_eq!(e.on_lyrics(&np("A", 0, true).key(), None), vec![]);
    assert_eq!(e.on_tick(t0), vec![]);
}

#[test]
fn offset_shifts_line_and_clamps_at_zero() {
    let t0 = T0;
    let mut e = loaded(4800, t0);
    assert_eq!(e.on_tick(t0), vec![Effect::Show, Effect::LineChanged(0)]);
    assert_eq!(e.adjust_offset(OFFSET_STEP_MS), Some(250));
    assert_eq!(e.on_tick(t0), vec![Effect::LineChanged(1)]);
    assert_eq!(e.offsets().get(&np("A", 0, true).key().id()), Some(&250));
    assert_eq!(e.reset_offset(), Some(0));
    assert!(e.offsets().is_empty());

    let mut e = loaded(100, t0);
    e.adjust_offset(-500);
    assert_eq!(e.on_tick(t0), vec![Effect::Show, Effect::LineChanged(-1)]);
}

#[test]
fn offset_without_track_is_none() {
    let mut e = Engine::new(Offsets::new());
    assert_eq!(e.adjust_offset(250), None);
}
