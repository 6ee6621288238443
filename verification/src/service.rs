//! The decisions of the translation service: when a cached translation answers, when the
//! network is asked, and what a response changes. The service itself (the disk cache, the
//! HTTP client and the lock) lives outside the library and follows these decisions.
use vstd::prelude::*;
use crate::cache::{CachedTranslation, CachedTranslationView};
use crate::config::{lang_code, Mode, TargetLang};
use crate::text::{copy_strings, strings_view};
use crate::translate::{same_lang, same_language, TranslateError, TranslateErrorView, Translated};

verus! {

/// Whether the monthly quota of the translation proxy is exhausted (`Available` when not).
#[derive(Debug, Clone, Copy, PartialEq, Eq, Structural)]
pub enum TranslateStatus {
    Available,
    QuotaExceeded,
}

/// What to show and into which language.
#[derive(Debug, Clone, Copy, PartialEq, Eq, Structural)]
pub struct TranslateSettings {
    pub mode: Mode,
    pub target: TargetLang,
}

/// With the quota exhausted, the network is left alone this long (one hour).
pub const QUOTA_RETRY_MS: u64 = 3_600_000;

/// The state that decides when the network may be asked.
pub struct TranslationGate {
    pub status: TranslateStatus,
    /// Until when the network is blocked after the quota ran out.
    pub retry_at_ms: Option<u64>,
    /// How long a quota error blocks the network.
    pub quota_retry_ms: u64,
}

/// What to do for a request for the translation of a track.
#[derive(Debug)]
pub enum Decision {
    /// Answer without the network.
    Answer(Option<Vec<String>>),
    /// Ask the translation service.
    Request,
}

pub enum DecisionView {
    Answer(Option<Seq<Seq<char>>>),
    Request,
}

impl View for Decision {
    type V = DecisionView;

    open spec fn view(&self) -> DecisionView {
        match self {
            Decision::Answer(a) => DecisionView::Answer(
                match a {
                    Some(l) => Some(strings_view(l@)),
                    None => None,
                },
            ),
            Decision::Request => DecisionView::Request,
        }
    }
}

/// What a response of the service leads to: the answer, the entry to keep on disk, and the
/// new status to announce (only when it changed).
#[derive(Debug)]
pub struct Settled {
    pub answer: Option<Vec<String>>,
    pub store: Option<CachedTranslation>,
    pub notify: Option<TranslateStatus>,
}

/// The network is blocked at `now`.
pub open spec fn is_blocked(retry_at: Option<u64>, now: u64) -> bool {
    retry_at matches Some(t) && now < t
}

/// A cached entry answers when its line count matches the lyrics (an entry for other lyrics
/// of the same track is stale); "no translation needed" always answers.
pub open spec fn usable(c: CachedTranslationView, n_lines: nat) -> bool {
    match c.lines {
        Some(l) => l.len() == n_lines,
        None => true,
    }
}

/// The decision for a request.
pub open spec fn decide_spec(
    retry_at: Option<u64>,
    mode: Mode,
    cached: Option<CachedTranslationView>,
    n_lines: nat,
    now: u64,
) -> DecisionView {
    if mode == Mode::Original {
        DecisionView::Answer(None)
    } else if cached matches Some(c) && usable(c, n_lines) {
        DecisionView::Answer(cached->0.lines)
    } else if is_blocked(retry_at, now) {
        DecisionView::Answer(None)
    } else {
        DecisionView::Request
    }
}

/// The entry kept for a translation: no lines when the lyrics already were in the target
/// language.
pub open spec fn entry_for(lines: Seq<Seq<char>>, source: Seq<char>, target: TargetLang) -> CachedTranslationView {
    CachedTranslationView {
        source_lang: source,
        lines: if same_lang(source, lang_code(target)) {
            None
        } else {
            Some(lines)
        },
    }
}

impl TranslationGate {
    /// Status `Available`, network open.
    pub fn new(quota_retry_ms: u64) -> (r: TranslationGate)
        ensures
            r.status == TranslateStatus::Available,
            r.retry_at_ms is None,
            r.quota_retry_ms == quota_retry_ms,
    {
        TranslationGate { status: TranslateStatus::Available, retry_at_ms: None, quota_retry_ms }
    }

    /// The network is blocked at `now_ms` (the quota ran out less than the retry time ago).
    pub fn blocked(&self, now_ms: u64) -> (r: bool)
        ensures
            r == is_blocked(self.retry_at_ms, now_ms),
    {
        match self.retry_at_ms {
            Some(t) => now_ms < t,
            None => false,
        }
    }

    /// Decides a request for the translation of lyrics of `n_lines` lines: nothing in the
    /// original mode; a usable cached entry answers even while the quota blocks the
    /// network; otherwise the network is asked unless it is blocked.
    pub fn decide(
        &self,
        settings: TranslateSettings,
        cached: Option<CachedTranslation>,
        n_lines: usize,
        now_ms: u64,
    ) -> (r: Decision)
        ensures
            r@ == decide_spec(
                self.retry_at_ms,
                settings.mode,
                match cached {
                    Some(c) => Some(c@),
                    None => None,
                },
                n_lines as nat,
                now_ms,
            ),
    {
        if settings.mode == Mode::Original {
            return Decision::Answer(None);
        }
        if let Some(hit) = cached {
            let stale = match &hit.lines {
                Some(l) => l.len() != n_lines,
                None => false,
            };
            if !stale {
                return Decision::Answer(hit.lines);
            }
        }
        if self.blocked(now_ms) {
            return Decision::Answer(None);
        }
        Decision::Request
    }

    /// Takes the response of the translation service, made at `now_ms`. A translation
    /// reopens the network and is kept (as "not needed" when the lyrics already were in the
    /// target language); a quota error blocks the network for the retry time; any other
    /// error changes nothing and keeps nothing, so the next track tries again.
    pub fn settle(
        &mut self,
        result: Result<Translated, TranslateError>,
        target: TargetLang,
        now_ms: u64,
    ) -> (r: Settled)
        requires
            result matches Err(TranslateError::QuotaExceeded) ==> now_ms + old(self).quota_retry_ms
                <= u64::MAX,
        ensures
            final(self).quota_retry_ms == old(self).quota_retry_ms,
            match result {
                Ok(t) => {
                    let e = entry_for(strings_view(t.lines@), t.source_lang@, target);
                    &&& final(self).status == TranslateStatus::Available
                    &&& final(self).retry_at_ms is None
                    &&& r.store matches Some(s) && s@ == e
                    &&& match r.answer {
                        Some(a) => e.lines == Some(strings_view(a@)),
                        None => e.lines is None,
                    }
                    &&& r.notify == (if old(self).status != TranslateStatus::Available {
                        Some(TranslateStatus::Available)
                    } else {
                        None
                    })
                },
                Err(TranslateError::QuotaExceeded) => {
                    &&& final(self).status == TranslateStatus::QuotaExceeded
                    &&& final(self).retry_at_ms == Some((now_ms + old(self).quota_retry_ms) as u64)
                    &&& r.answer is None
                    &&& r.store is None
                    &&& r.notify == (if old(self).status != TranslateStatus::QuotaExceeded {
                        Some(TranslateStatus::QuotaExceeded)
                    } else {
                        None
                    })
                },
                Err(_) => {
                    &&& final(self).status == old(self).status
                    &&& final(self).retry_at_ms == old(self).retry_at_ms
                    &&& r.answer is None
                    &&& r.store is None
                    &&& r.notify is None
                },
            },
    {
        match result {
            Ok(t) => {
                self.retry_at_ms = None;
                let notify = if self.status != TranslateStatus::Available {
                    Some(TranslateStatus::Available)
                } else {
                    None
                };
                self.status = TranslateStatus::Available;
                let same = same_language(t.source_lang.as_str(), target.code());
                let lines = if same {
                    None
                } else {
                    Some(t.lines)
                };
                let answer = match &lines {
                    Some(l) => Some(copy_strings(l)),
                    None => None,
                };
                let entry = CachedTranslation { source_lang: t.source_lang, lines };
                Settled { answer, store: Some(entry), notify }
            },
            Err(TranslateError::QuotaExceeded) => {
                self.retry_at_ms = Some(now_ms + self.quota_retry_ms);
                let notify = if self.status != TranslateStatus::QuotaExceeded {
                    Some(TranslateStatus::QuotaExceeded)
                } else {
                    None
                };
                self.status = TranslateStatus::QuotaExceeded;
                Settled { answer: None, store: None, notify }
            },
            Err(_) => Settled { answer: None, store: None, notify: None },
        }
    }
}

/// A usable cached translation answers whatever the state of the quota: a quota error only
/// keeps the network away.
pub proof fn law_cache_survives_quota_block(
    a: Option<u64>,
    b: Option<u64>,
    mode: Mode,
    c: CachedTranslationView,
    n: nat,
    t1: u64,
    t2: u64,
)
    requires
        mode != Mode::Original,
        usable(c, n),
    ensures
        decide_spec(a, mode, Some(c), n, t1) == decide_spec(b, mode, Some(c), n, t2),
        decide_spec(a, mode, Some(c), n, t1) == DecisionView::Answer(c.lines),
{
}

/// After a quota error at `now`, requests without a usable cached entry get no translation
/// and no network call until the retry time; from then on the network is asked again.
pub proof fn law_quota_blocks_until_retry(
    now: u64,
    wait: u64,
    mode: Mode,
    cached: Option<CachedTranslationView>,
    n: nat,
    t: u64,
)
    requires
        now + wait <= u64::MAX,
        mode != Mode::Original,
        !(cached matches Some(c) && usable(c, n)),
        now <= t,
    ensures
        t < now + wait ==> decide_spec(Some((now + wait) as u64), mode, cached, n, t)
            == DecisionView::Answer(None),
        t >= now + wait ==> decide_spec(Some((now + wait) as u64), mode, cached, n, t)
            == DecisionView::Request,
{
}

/// The original mode never asks for a translation.
pub proof fn law_original_mode_skips(
    a: Option<u64>,
    cached: Option<CachedTranslationView>,
    n: nat,
    t: u64,
)
    ensures
        decide_spec(a, Mode::Original, cached, n, t) == DecisionView::Answer(None),
{
}

/// Lyrics already in the target language are kept as "not needed" and answer nothing.
pub proof fn law_same_language_not_needed(
    lines: Seq<Seq<char>>,
    source: Seq<char>,
    target: TargetLang,
)
    requires
        same_lang(source, lang_code(target)),
    ensures
        entry_for(lines, source, target).lines is None,
        usable(entry_for(lines, source, target), lines.len()),
{
}

/// A translation taken from the cache always has as many lines as the lyrics; an entry
/// whose line count differs (kept for other lyrics of the track) is a miss, and the network
/// is asked when it is open.
pub proof fn law_cached_lines_match_lyrics(
    retry_at: Option<u64>,
    mode: Mode,
    c: CachedTranslationView,
    n: nat,
    now: u64,
)
    ensures
        decide_spec(retry_at, mode, Some(c), n, now) matches DecisionView::Answer(Some(l)) ==> l.len()
            == n,
        (mode != Mode::Original && retry_at is None && (c.lines matches Some(l) && l.len() != n))
            ==> decide_spec(retry_at, mode, Some(c), n, now) == DecisionView::Request,
        (mode != Mode::Original && (c.lines matches Some(l) && l.len() == n)) ==> decide_spec(
            retry_at,
            mode,
            Some(c),
            n,
            now,
        ) == DecisionView::Answer(c.lines),
{
}

} // verus!
