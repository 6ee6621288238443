use std::path::PathBuf;
use verso::cache::{file_name, fnv1a, CachedTranslation, DiskCache};
use verso::config::{is_hex, normalize_colors, Mode, TargetLang, WindowPos};
use verso::geometry::{bottom_center, keep_center, restored_position, Rect};
use verso::lrc::parse_lrc;
use verso::lyrics::{
    after_get, after_search, duration_param, parsed, pick_search, GetStep, LyricsCache, LyricsError,
    SearchRecord,
};
use verso::offsets::Offsets;
use verso::secrets::key_to_store;
use verso::player::{is_spotify_session, smtc_timeline, split_output, NowPlaying, TrackKey};
use verso::runtime::{actions_for, on_command, on_translation, Action, OverlayEvent, SyncCmd, Timing};
use verso::service::{Decision, TranslateSettings, TranslateStatus, TranslationGate, QUOTA_RETRY_MS};
use verso::sync::{Effect, Engine};
use verso::translate::{check, proxy_check, same_language, status_message, BatchJob, TranslateError, Translated};

fn key() -> TrackKey {
    TrackKey { artist: "Banda Fictícia".into(), title: "Canção Teste".into(), duration_s: 180 }
}

fn track() -> NowPlaying {
    NowPlaying {
        title: "Canção Teste".into(),
        artist: "Banda Fictícia".into(),
        album: "Álbum Inventado".into(),
        duration_ms: 180_400,
        position_ms: 0,
        is_playing: true,
    }
}

fn strs(v: &[&str]) -> Vec<String> {
    v.iter().map(|s| s.to_string()).collect()
}

// ----- player -----

#[test]
fn key_rounds_duration_and_joins_fields() {
    let k = track().key();
    assert_eq!(k, key());
    assert_eq!(k.id(), "Banda Fictícia|Canção Teste|180");
    let mut t = track();
    t.duration_ms = 180_500;
    assert_eq!(t.key().duration_s, 181);
    assert_eq!(track().display_title(), "Canção Teste — Banda Fictícia");
}

#[test]
fn split_output_reads_six_fields() {
    let f = split_output("Canção Teste\u{1f}Banda Fictícia\u{1f}Álbum Inventado\u{1f}180400\u{1f}12.5\u{1f}playing\n")
        .unwrap()
        .unwrap();
    assert_eq!(f.title, "Canção Teste");
    assert_eq!(f.artist, "Banda Fictícia");
    assert_eq!(f.album, "Álbum Inventado");
    assert_eq!(f.duration, "180400");
    assert_eq!(f.position, "12.5");
    assert!(f.is_playing);
    let f = split_output("a\u{1f}b\u{1f}c\u{1f}1000\u{1f}0\u{1f}paused").unwrap().unwrap();
    assert!(!f.is_playing);
    let f = split_output("Parte 1 | Parte 2\u{1f}b\u{1f}c\u{1f}1000\u{1f}0\u{1f}playing\r\n").unwrap().unwrap();
    assert_eq!(f.title, "Parte 1 | Parte 2");
}

#[test]
fn split_output_empty_and_wrong_count() {
    assert!(split_output("").unwrap().is_none());
    assert!(split_output("\n").unwrap().is_none());
    let e = split_output("só um campo").unwrap_err();
    assert_eq!(e.0, "saída inesperada do osascript: 1 campos");
}

const UNIX_MS: u64 = 1_767_225_600_000;
const WIN_TICKS: i64 = (1_767_225_600_000 + 11_644_473_600_000) * 10_000;

#[test]
fn smtc_timeline_adds_elapsed_and_clamps() {
    assert_eq!(smtc_timeline(180_000 * 10_000, 12_000 * 10_000, true, WIN_TICKS, UNIX_MS + 2_500), (180_000, 14_500));
    assert_eq!(smtc_timeline(180_000 * 10_000, 12_000 * 10_000, false, WIN_TICKS, UNIX_MS + 2_500), (180_000, 12_000));
    assert_eq!(smtc_timeline(180_000 * 10_000, 179_000 * 10_000, true, WIN_TICKS, UNIX_MS + 5_000), (180_000, 180_000));
    assert_eq!(smtc_timeline(0, 5_000 * 10_000, true, WIN_TICKS, UNIX_MS + 5_000), (0, 10_000));
    assert_eq!(smtc_timeline(-10_000, -10_000, false, 0, 0), (0, 0));
}

// ----- geometry -----

const FHD: Rect = Rect { x: 0, y: 0, w: 1920, h: 1080 };

#[test]
fn bottom_center_positions() {
    assert_eq!(bottom_center(FHD, (900, 130), 120), (510, 830));
    let second = Rect { x: 1920, y: -200, w: 1920, h: 1080 };
    assert_eq!(bottom_center(second, (900, 130), 120), (2430, 630));
    assert_eq!(bottom_center(Rect { w: 3840, h: 2160, ..FHD }, (1800, 260), 240), (1020, 1660));
}

#[test]
fn saved_position_is_kept_only_when_visible() {
    let mons = [FHD, Rect { x: -1280, y: 0, w: 1280, h: 1024 }];
    assert_eq!(restored_position(Some(WindowPos { x: 510, y: 830 }), (900, 130), &mons), Some((510, 830)));
    assert_eq!(restored_position(Some(WindowPos { x: -1000, y: 100 }), (900, 130), &mons), Some((-1000, 100)));
    assert_eq!(restored_position(Some(WindowPos { x: 5000, y: 100 }), (900, 130), &mons), None);
    assert_eq!(restored_position(None, (900, 130), &mons), None);
}

#[test]
fn resizing_keeps_the_center() {
    let (x, y) = keep_center((510, 830), (900, 130), (1124, 164));
    assert_eq!(x + 1124 / 2, 510 + 900 / 2);
    assert_eq!(y + 164 / 2, 830 + 130 / 2);
    // shrinking moves the corner the other way
    assert_eq!(keep_center((398, 814), (1125, 163), (900, 130)), (510, 830));
}

// ----- config -----

#[test]
fn hex_colors() {
    assert!(is_hex("#ffe066"));
    assert!(is_hex("#0B1D3A"));
    assert!(!is_hex("red"));
    assert!(!is_hex("#12"));
    assert!(!is_hex("#12345g"));
    assert!(!is_hex("#ffe0666"));
}

#[test]
fn invalid_colors_and_opacity_fall_back() {
    assert_eq!(normalize_colors("red".into(), Some("#12".into()), 5), ("#ffffff".to_string(), None, 60));
    assert_eq!(
        normalize_colors("#ffe066".into(), Some("#0b1d3a".into()), 80),
        ("#ffe066".to_string(), Some("#0b1d3a".to_string()), 80)
    );
    assert_eq!(normalize_colors("#ffe066".into(), None, 101), ("#ffe066".to_string(), None, 60));
    assert_eq!(normalize_colors("#ffe066".into(), None, 10), ("#ffe066".to_string(), None, 10));
}

#[test]
fn normalizing_twice_changes_nothing() {
    let once = normalize_colors("azul".into(), Some("x".into()), 0);
    let twice = normalize_colors(once.0.clone(), once.1.clone(), once.2);
    assert_eq!(once, twice);
}

#[test]
fn language_codes() {
    assert_eq!(TargetLang::PtBr.code(), "PT-BR");
    assert_eq!(TargetLang::EnUs.code(), "EN-US");
    assert_eq!(TargetLang::Es.code(), "ES");
    assert_eq!(TargetLang::PtBr.azure_code(), "pt");
    assert_eq!(TargetLang::EnUs.azure_code(), "en");
    assert_eq!(TargetLang::Es.azure_code(), "es");
    assert_eq!(TargetLang::default(), TargetLang::PtBr);
    assert_eq!(Mode::default(), Mode::Both);
}

#[test]
fn same_language_either_way() {
    assert_eq!(same_language("PT-BR", "pt"), same_language("pt", "PT-BR"));
    assert!(same_language("pt", "PT-BR"));
    assert!(!same_language("es", "EN-US"));
}

// ----- lyrics -----

const LRC: &str = "[00:01.00]verso inventado um\n[00:04.00]verso inventado dois";

#[test]
fn get_with_synced_lyrics_is_found() {
    match after_get(200, Some(LRC.to_string())) {
        GetStep::Found(l) => assert_eq!(l.texts(), strs(&["verso inventado um", "verso inventado dois"])),
        other => panic!("{other:?}"),
    }
}

#[test]
fn get_without_lyrics_or_404_goes_to_search() {
    assert!(matches!(after_get(200, None), GetStep::Search));
    assert!(matches!(after_get(200, Some("texto sem tempo".into())), GetStep::Search));
    assert!(matches!(after_get(404, None), GetStep::Search));
}

#[test]
fn server_error_is_network_error() {
    match after_get(500, None) {
        GetStep::Fail(LyricsError::Network(m)) => assert_eq!(m, "HTTP 500 Internal Server Error"),
        other => panic!("{other:?}"),
    }
    match after_search(503) {
        Err(LyricsError::Network(m)) => assert_eq!(m, "HTTP 503 Service Unavailable"),
        other => panic!("{other:?}"),
    }
    assert!(after_search(200).is_ok());
    assert_eq!(LyricsError::Network("timeout".into()).message(), "rede: timeout");
}

#[test]
fn search_picks_first_near_record_with_lyrics() {
    let recs = vec![
        SearchRecord { near: false, synced: Some("[00:01.00]duração errada".into()) },
        SearchRecord { near: true, synced: None },
        SearchRecord { near: true, synced: Some("[00:02.00]escolhida".into()) },
        SearchRecord { near: true, synced: Some("[00:03.00]depois".into()) },
    ];
    assert_eq!(pick_search(recs).unwrap().texts(), strs(&["escolhida"]));
    assert!(pick_search(vec![]).is_none());
    assert!(pick_search(vec![SearchRecord { near: false, synced: Some(LRC.into()) }]).is_none());
}

#[test]
fn lyrics_without_timed_lines_are_none() {
    assert!(parsed(None).is_none());
    assert!(parsed(Some("só texto".into())).is_none());
    assert_eq!(parsed(Some(LRC.into())).unwrap().lines.len(), 2);
}

#[test]
fn duration_is_rounded_to_seconds() {
    assert_eq!(duration_param(180_400), "180");
    assert_eq!(duration_param(180_500), "181");
    assert_eq!(duration_param(0), "0");
}

#[test]
fn lyrics_cache_keeps_results_not_errors() {
    let mut c = LyricsCache::new();
    assert!(c.lookup(&key()).is_none());
    c.record(key(), &Err(LyricsError::Network("timeout".into())));
    assert!(c.lookup(&key()).is_none());
    c.record(key(), &Ok(Some(parse_lrc(LRC))));
    assert_eq!(c.lookup(&key()).unwrap().unwrap().texts(), strs(&["verso inventado um", "verso inventado dois"]));
    let other = TrackKey { duration_s: 200, ..key() };
    c.record(other.clone(), &Ok(None));
    assert_eq!(c.lookup(&other), Some(None));
    assert!(c.lookup(&key()).unwrap().is_some());
}

// ----- translation -----

#[test]
fn deepl_statuses() {
    assert_eq!(check(200), Ok(()));
    assert_eq!(check(403), Err(TranslateError::InvalidKey));
    assert_eq!(check(456), Err(TranslateError::QuotaExceeded));
    assert_eq!(check(500), Err(TranslateError::Unexpected("HTTP 500 Internal Server Error".into())));
}

#[test]
fn proxy_statuses() {
    assert_eq!(proxy_check(200), Ok(()));
    assert_eq!(proxy_check(503), Err(TranslateError::QuotaExceeded));
    assert_eq!(proxy_check(429), Err(TranslateError::Network("HTTP 429".into())));
    assert_eq!(proxy_check(502), Err(TranslateError::Network("HTTP 502".into())));
}

#[test]
fn status_messages() {
    assert_eq!(status_message(404), "HTTP 404 Not Found");
    assert_eq!(status_message(599), "HTTP 599 <unknown status code>");
}

fn run_job(lines: &[String], batch: usize) -> (Translated, Vec<usize>) {
    let mut job = BatchJob::new(&lines.to_vec(), batch);
    let mut sizes = Vec::new();
    while let Some(req) = job.next_request() {
        sizes.push(req.len());
        let tr: Vec<String> = req.iter().map(|l| format!("tr:{l}")).collect();
        job = job.accept(tr, vec!["JA".into()], "proxy").unwrap();
    }
    assert!(job.is_done());
    (job.finish(), sizes)
}

#[test]
fn batch_job_keeps_blank_lines_and_indices() {
    let (t, sizes) = run_job(&strs(&["um", "", "dois", "  ", "três"]), 2);
    assert_eq!(t.lines, strs(&["tr:um", "", "tr:dois", "", "tr:três"]));
    assert_eq!(t.source_lang, "JA");
    assert_eq!(sizes, vec![2, 1]);
}

#[test]
fn batch_job_splits_into_batches() {
    let lines: Vec<String> = (0..120).map(|i| format!("l{i}")).collect();
    let (t, sizes) = run_job(&lines, 50);
    assert_eq!(sizes, vec![50, 50, 20]);
    assert_eq!(t.lines[119], "tr:l119");
}

#[test]
fn batch_job_all_blank_makes_no_request() {
    let job = BatchJob::new(&strs(&["", "  "]), 50);
    assert!(job.is_done());
    assert!(job.next_request().is_none());
    assert_eq!(job.finish().lines, strs(&["", ""]));
}

#[test]
fn batch_job_count_mismatch_is_error() {
    let job = BatchJob::new(&strs(&["um", "dois"]), 50);
    match job.accept(strs(&["só uma"]), vec![], "DeepL") {
        Err(e) => assert_eq!(e, TranslateError::Unexpected("DeepL devolveu 1 de 2 linhas".into())),
        Ok(_) => panic!("accepted"),
    }
}

#[test]
fn batch_job_keeps_first_language() {
    let job = BatchJob::new(&strs(&["um"]), 50);
    let job = job.accept(strs(&["tr"]), strs(&["", "EN", "JA"]), "DeepL").unwrap();
    assert_eq!(job.finish().source_lang, "EN");
}

// ----- translation service -----

fn settings(mode: Mode) -> TranslateSettings {
    TranslateSettings { mode, target: TargetLang::PtBr }
}

#[test]
fn original_mode_asks_nothing() {
    let g = TranslationGate::new(QUOTA_RETRY_MS);
    assert!(matches!(g.decide(settings(Mode::Original), None, 2, 0), Decision::Answer(None)));
    assert!(matches!(g.decide(settings(Mode::Both), None, 2, 0), Decision::Request));
}

#[test]
fn cached_translation_answers_even_when_blocked() {
    let mut g = TranslationGate::new(QUOTA_RETRY_MS);
    let s = g.settle(Err(TranslateError::QuotaExceeded), TargetLang::PtBr, 1_000);
    assert_eq!(s.notify, Some(TranslateStatus::QuotaExceeded));
    assert_eq!(g.status, TranslateStatus::QuotaExceeded);
    let hit = CachedTranslation { source_lang: "JA".into(), lines: Some(strs(&["tr:um", ""])) };
    match g.decide(settings(Mode::Both), Some(hit), 2, 2_000) {
        Decision::Answer(Some(l)) => assert_eq!(l, strs(&["tr:um", ""])),
        other => panic!("{other:?}"),
    }
    // a hit for other lyrics of the track is stale
    let stale = CachedTranslation { source_lang: "JA".into(), lines: Some(strs(&["tr:um"])) };
    assert!(matches!(g.decide(settings(Mode::Both), Some(stale), 2, 2_000), Decision::Answer(None)));
}

#[test]
fn quota_blocks_until_retry_time() {
    let mut g = TranslationGate::new(QUOTA_RETRY_MS);
    g.settle(Err(TranslateError::QuotaExceeded), TargetLang::PtBr, 1_000);
    assert_eq!(g.retry_at_ms, Some(1_000 + 3_600_000));
    assert!(g.blocked(2_000));
    assert!(matches!(g.decide(settings(Mode::Both), None, 2, 2_000), Decision::Answer(None)));
    assert!(matches!(g.decide(settings(Mode::Both), None, 2, 3_601_000), Decision::Request));
    // a second quota error does not notify again
    let s = g.settle(Err(TranslateError::QuotaExceeded), TargetLang::PtBr, 3_601_000);
    assert_eq!(s.notify, None);
    // a translation reopens the network and notifies
    let t = Translated { lines: strs(&["tr:um"]), source_lang: "JA".into() };
    let s = g.settle(Ok(t), TargetLang::PtBr, 7_300_000);
    assert_eq!(s.notify, Some(TranslateStatus::Available));
    assert_eq!(g.retry_at_ms, None);
    assert_eq!(s.answer, Some(strs(&["tr:um"])));
    assert_eq!(s.store.unwrap().lines, Some(strs(&["tr:um"])));
}

#[test]
fn same_language_is_kept_as_not_needed() {
    let mut g = TranslationGate::new(QUOTA_RETRY_MS);
    let t = Translated { lines: strs(&["um"]), source_lang: "pt".into() };
    let s = g.settle(Ok(t), TargetLang::PtBr, 0);
    assert_eq!(s.answer, None);
    assert_eq!(s.notify, None);
    assert_eq!(s.store, Some(CachedTranslation { source_lang: "pt".into(), lines: None }));
}

#[test]
fn network_errors_keep_nothing() {
    let mut g = TranslationGate::new(QUOTA_RETRY_MS);
    let s = g.settle(Err(TranslateError::Network("timeout".into())), TargetLang::PtBr, 0);
    assert_eq!(s.answer, None);
    assert_eq!(s.store, None);
    assert_eq!(s.notify, None);
    assert_eq!(g.status, TranslateStatus::Available);
    assert_eq!(g.retry_at_ms, None);
}

// ----- translation cache -----

#[test]
fn cache_file_is_named_by_hash_of_key_and_target() {
    let h = fnv1a(format!("{}#{}", key().id(), "PT-BR").as_bytes());
    let want = format!("{h:016x}.json");
    assert_eq!(file_name(&key(), "PT-BR"), want);
    assert_ne!(file_name(&key(), "ES"), want);
    let c = DiskCache::new(PathBuf::from("/tmp/verso-cache"));
    assert_eq!(c.path(&key(), "PT-BR"), PathBuf::from("/tmp/verso-cache").join(want));
}

// ----- offsets and the sync runtime -----

#[test]
fn offsets_map() {
    let mut o = Offsets::new();
    assert!(o.is_empty());
    o.insert("a".into(), 250);
    o.insert("a".into(), 500);
    o.insert("b".into(), -250);
    assert_eq!(o.get(&"a".to_string()), Some(&500));
    o.remove(&"a".to_string());
    assert_eq!(o.get(&"a".to_string()), None);
    let back = Offsets::from_pairs(o.to_pairs());
    assert_eq!(back.get(&"b".to_string()), Some(&-250));
    assert_eq!(back.to_pairs().len(), 1);
}

#[test]
fn effects_become_actions() {
    let k = key();
    let acts = actions_for(vec![
        Effect::Hide,
        Effect::LineChanged(3),
        Effect::LyricsLoaded(k.clone(), strs(&["um"])),
        Effect::TrackChanged(None),
    ]);
    assert_eq!(acts.len(), 5);
    assert!(matches!(&acts[0], Action::Emit(OverlayEvent::Hide)));
    assert!(matches!(&acts[1], Action::Emit(OverlayEvent::LineChanged(3))));
    assert!(matches!(&acts[2], Action::Emit(OverlayEvent::LyricsLoaded(l)) if *l == strs(&["um"])));
    assert!(matches!(&acts[3], Action::Translate(kk, l) if *kk == k && *l == strs(&["um"])));
    assert!(matches!(&acts[4], Action::TrackChanged(None)));
}

#[test]
fn commands_change_offsets_and_retranslate() {
    let mut e = Engine::new(Offsets::new());
    assert!(on_command(&mut e, SyncCmd::AdjustOffset(250)).is_empty());
    let mut np = track();
    np.position_ms = 2000;
    e.on_poll(Some(np.clone()), 10_000);
    e.on_lyrics(&np.key(), Some(parse_lrc(LRC)));
    let acts = on_command(&mut e, SyncCmd::AdjustOffset(250));
    assert!(matches!(&acts[0], Action::Emit(OverlayEvent::OffsetChanged(250))));
    assert!(matches!(&acts[1], Action::SaveOffsets));
    let acts = on_command(&mut e, SyncCmd::ResetOffset);
    assert!(matches!(&acts[0], Action::Emit(OverlayEvent::OffsetChanged(0))));
    assert!(e.offsets().is_empty());
    let acts = on_command(&mut e, SyncCmd::Retranslate);
    assert!(matches!(&acts[0], Action::Translate(k, l) if *k == np.key() && l.len() == 2));
}

#[test]
fn late_translation_of_other_track_is_dropped() {
    let mut e = Engine::new(Offsets::new());
    e.on_poll(Some(track()), 10_000);
    assert_eq!(
        on_translation(&e, &track().key(), None),
        Some(OverlayEvent::TranslationLoaded(vec![]))
    );
    assert_eq!(
        on_translation(&e, &track().key(), Some(strs(&["tr"]))),
        Some(OverlayEvent::TranslationLoaded(strs(&["tr"])))
    );
    let other = TrackKey { title: "Outra".into(), ..key() };
    assert_eq!(on_translation(&e, &other, Some(strs(&["tr"]))), None);
}

#[test]
fn default_timing() {
    let t = Timing::default();
    assert_eq!((t.poll_ms, t.tick_ms), (1000, 100));
}

#[test]
fn line_index_never_goes_back_as_time_passes() {
    let l = parse_lrc("[00:01.00]a\n[00:05.00]b\n[00:05.00]c\n[00:09.00]d");
    let mut last: Option<usize> = None;
    for t in (0..12_000).step_by(250) {
        let i = l.line_at(t);
        assert!(i >= last);
        last = i;
    }
}

#[test]
fn offset_round_trip_leaves_nothing() {
    let mut e = Engine::new(Offsets::new());
    e.on_poll(Some(track()), 10_000);
    assert_eq!(e.adjust_offset(250), Some(250));
    assert_eq!(e.adjust_offset(-250), Some(0));
    assert!(e.offsets().is_empty());
    assert_eq!(e.adjust_offset(-250), Some(-250));
    assert_eq!(e.offsets().get(&key().id()), Some(&-250));
}

#[test]
fn key_ignores_position_and_state() {
    let mut later = track();
    later.position_ms = 90_000;
    later.is_playing = false;
    later.album = "Outro Álbum".into();
    assert_eq!(later.key(), track().key());
}

#[test]
fn spotify_sessions_are_recognised() {
    assert!(is_spotify_session("Spotify.exe"));
    assert!(is_spotify_session("SpotifyAB.SpotifyMusic_zpdnekdrzrea0!Spotify"));
    assert!(is_spotify_session("sPoTiFy"));
    assert!(!is_spotify_session("Chrome"));
    assert!(!is_spotify_session("spotif"));
    assert!(!is_spotify_session(""));
}

#[test]
fn keys_are_trimmed_and_blank_deletes() {
    assert_eq!(key_to_store("  abc:fx \n"), Some("abc:fx".to_string()));
    assert_eq!(key_to_store("abc"), Some("abc".to_string()));
    assert_eq!(key_to_store("   "), None);
    assert_eq!(key_to_store(""), None);
}

#[test]
fn batch_sizes() {
    assert_eq!(verso::translate::DEEPL_BATCH, 50);
    assert_eq!(verso::translate::PROXY_BATCH, 400);
}

#[test]
fn estimate_is_none_without_track() {
    let mut e = Engine::new(Offsets::new());
    assert_eq!(e.estimate(10_000), None);
    e.on_poll(Some(track()), 10_000);
    assert_eq!(e.estimate(11_000), Some(1_000));
    let mut ad = track();
    ad.duration_ms = 0;
    assert!(e.on_poll(Some(ad), 12_000).contains(&Effect::TrackChanged(None)));
    assert_eq!(e.estimate(13_000), None);
    assert_eq!(e.current_lines(), None);
}

#[test]
fn repeated_tick_is_quiet_even_on_unordered_lyrics() {
    let mut e = Engine::new(Offsets::new());
    let mut np = track();
    np.position_ms = 3000;
    e.on_poll(Some(np.clone()), 10_000);
    let lines = vec![
        verso::lrc::Line { time_ms: 5000, text: "b".into() },
        verso::lrc::Line { time_ms: 1000, text: "a".into() },
        verso::lrc::Line { time_ms: 2000, text: "c".into() },
    ];
    e.on_lyrics(&np.key(), Some(verso::lrc::Lyrics { lines }));
    let first = e.on_tick(10_000);
    assert_eq!(first[0], Effect::Show);
    assert_eq!(e.on_tick(10_000), vec![]);
}
