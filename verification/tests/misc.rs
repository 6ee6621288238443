use verso::cache::fnv1a;
use verso::geometry::{center_on_any, keep_center, Rect};
use verso::links::{url, Link};
use verso::player::smtc_elapsed_ms;
use verso::runtime::OverlayEvent;
use verso::state::Snapshot;
use verso::translate::same_language;

const FHD: Rect = Rect { x: 0, y: 0, w: 1920, h: 1080 };

#[test]
fn keep_center_on_resize() {
    assert_eq!(keep_center((510, 830), (900, 130), (1125, 163)), (398, 814));
}

#[test]
fn detects_offscreen() {
    let mons = [FHD, Rect { x: -1280, y: 0, w: 1280, h: 1024 }];
    assert!(center_on_any((510, 830), (900, 130), &mons));
    assert!(center_on_any((-1000, 100), (900, 130), &mons));
    assert!(!center_on_any((5000, 100), (900, 130), &mons));
    assert!(!center_on_any((510, 1100), (900, 130), &mons));
}

// 2026-01-01T00:00:00Z in Unix ms and in 100 ns ticks since 1601.
const UNIX_MS: u64 = 1_767_225_600_000;
const WIN_TICKS: i64 = (1_767_225_600_000 + 11_644_473_600_000) * 10_000;

#[test]
fn smtc_elapsed() {
    assert_eq!(smtc_elapsed_ms(WIN_TICKS, UNIX_MS), 0);
    assert_eq!(smtc_elapsed_ms(WIN_TICKS, UNIX_MS + 2_500), 2_500);
    // the clock went back: never negative
    assert_eq!(smtc_elapsed_ms(WIN_TICKS, UNIX_MS - 1_000), 0);
}

#[test]
fn snapshot_follows_events() {
    let mut s = Snapshot::default();
    assert_eq!(s.index, -1);
    s.apply(&OverlayEvent::LyricsLoaded(vec!["um".into(), "dois".into()]));
    s.apply(&OverlayEvent::TranslationLoaded(vec!["tr:um".into(), "tr:dois".into()]));
    s.apply(&OverlayEvent::Show);
    s.apply(&OverlayEvent::LineChanged(1));
    assert_eq!(s.lines.len(), 2);
    assert_eq!(s.translation.as_ref().unwrap()[1], "tr:dois");
    assert!(s.visible);
    assert_eq!(s.index, 1);

    s.apply(&OverlayEvent::TranslationLoaded(vec![]));
    assert_eq!(s.translation, None);
    s.apply(&OverlayEvent::Hide);
    assert!(!s.visible);
    s.apply(&OverlayEvent::LyricsLoaded(vec!["novo".into()]));
    assert_eq!(s.index, -1);
}

#[test]
fn fnv_known_vectors() {
    assert_eq!(fnv1a(b""), 0xcbf29ce484222325);
    assert_eq!(fnv1a(b"a"), 0xaf63dc4c8601ec8c);
}

#[test]
fn same_language_compares_base() {
    assert!(same_language("PT", "PT-BR"));
    assert!(same_language("en", "EN-US"));
    assert!(!same_language("JA", "PT-BR"));
    assert!(!same_language("", "PT-BR"));
}

#[test]
fn urls() {
    assert_eq!(url(Link::Support), "https://buymeacoffee.com/luizfbalves");
    assert_eq!(url(Link::DeeplSignup), "https://www.deepl.com/pro-api");
    assert_eq!(url(Link::DeeplKeys), "https://www.deepl.com/your-account/keys");
}
