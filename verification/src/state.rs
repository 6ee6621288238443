//! What the overlay shows, kept so that a window opened later starts from the same state.
use vstd::prelude::*;
use crate::runtime::{OverlayEvent, OverlayEventView};
use crate::text::{copy_strings, strings_view};

verus! {

/// The lines, the translation, the current line (-1 before the first) and whether the
/// overlay is visible.
#[derive(Debug, Clone, PartialEq)]
pub struct Snapshot {
    pub lines: Vec<String>,
    pub translation: Option<Vec<String>>,
    pub index: i64,
    pub visible: bool,
}

pub struct SnapshotView {
    pub lines: Seq<Seq<char>>,
    pub translation: Option<Seq<Seq<char>>>,
    pub index: i64,
    pub visible: bool,
}

impl View for Snapshot {
    type V = SnapshotView;

    open spec fn view(&self) -> SnapshotView {
        SnapshotView {
            lines: strings_view(self.lines@),
            translation: match self.translation {
                Some(t) => Some(strings_view(t@)),
                None => None,
            },
            index: self.index,
            visible: self.visible,
        }
    }
}

/// The snapshot after the event `ev`.
pub open spec fn apply_event(s: SnapshotView, ev: OverlayEventView) -> SnapshotView {
    match ev {
        OverlayEventView::LyricsLoaded(l) => SnapshotView {
            lines: l,
            translation: None,
            index: -1i64,
            ..s
        },
        OverlayEventView::TranslationLoaded(l) => SnapshotView {
            translation: if l.len() > 0 {
                Some(l)
            } else {
                None
            },
            ..s
        },
        OverlayEventView::LineChanged(i) => SnapshotView { index: i, ..s },
        OverlayEventView::Hide => SnapshotView { visible: false, ..s },
        OverlayEventView::Show => SnapshotView { visible: true, ..s },
        OverlayEventView::OffsetChanged(_) => s,
    }
}

impl Default for Snapshot {
    /// No lines, no translation, index -1, hidden.
    fn default() -> (r: Snapshot)
        ensures
            r@ == (SnapshotView {
                lines: Seq::empty(),
                translation: None,
                index: -1i64,
                visible: false,
            }),
    {
        let r = Snapshot { lines: Vec::new(), translation: None, index: -1, visible: false };
        assert(strings_view(r.lines@) =~= Seq::<Seq<char>>::empty());
        r
    }
}

impl Snapshot {
    /// Follows an event of the overlay: new lyrics drop the translation and go back before
    /// the first line; an empty translation counts as none.
    pub fn apply(&mut self, ev: &OverlayEvent)
        ensures
            final(self)@ == apply_event(old(self)@, ev@),
    {
        match ev {
            OverlayEvent::LyricsLoaded(l) => {
                self.lines = copy_strings(l);
                self.translation = None;
                self.index = -1;
            },
            OverlayEvent::TranslationLoaded(l) => {
                if l.len() > 0 {
                    self.translation = Some(copy_strings(l));
                } else {
                    self.translation = None;
                }
            },
            OverlayEvent::LineChanged(i) => {
                self.index = *i;
            },
            OverlayEvent::Hide => {
                self.visible = false;
            },
            OverlayEvent::Show => {
                self.visible = true;
            },
            OverlayEvent::OffsetChanged(_) => {},
        }
    }
}

/// New lyrics start over: whatever came before, the snapshot holds the new lines, no
/// translation and no current line, and keeps its visibility.
pub proof fn law_new_lyrics_reset(s: SnapshotView, l: Seq<Seq<char>>)
    ensures
        apply_event(s, OverlayEventView::LyricsLoaded(l)).lines == l,
        apply_event(s, OverlayEventView::LyricsLoaded(l)).translation is None,
        apply_event(s, OverlayEventView::LyricsLoaded(l)).index == -1,
        apply_event(s, OverlayEventView::LyricsLoaded(l)).visible == s.visible,
{
}

/// Visibility follows the last of `Show` and `Hide`; line changes and translations leave
/// it alone.
pub proof fn law_visibility_follows_last(s: SnapshotView, i: i64, t: Seq<Seq<char>>)
    ensures
        apply_event(apply_event(s, OverlayEventView::Hide), OverlayEventView::Show).visible,
        !apply_event(apply_event(s, OverlayEventView::Show), OverlayEventView::Hide).visible,
        apply_event(s, OverlayEventView::LineChanged(i)).visible == s.visible,
        apply_event(s, OverlayEventView::TranslationLoaded(t)).visible == s.visible,
{
}

} // verus!
