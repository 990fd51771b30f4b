//! One frame of a page view: where it scrolls to, and what the pointer did in it.
use crate::annotation::{editor_view, AnnotationEditor, EditorView};
use crate::document::{DocumentState, DocumentTab, DocumentView};
use crate::view::{
    adjacent_page_index, page_reached, PageAnchor, PointBits, ViewState, MIDDLE_BITS,
};
use vstd::prelude::*;

verus! {

/// The bit pattern of one.
pub const ONE_BITS: u32 = 0x3F80_0000;

/// What may say where a frame scrolls to.
#[derive(Clone, Copy, Debug, PartialEq, Eq, Structural)]
pub struct ScrollSources {
    /// The top of a page.
    pub page: Option<usize>,
    /// A point to bring to the middle.
    pub anchor: Option<PageAnchor>,
    pub pan: Option<PointBits>,
    pub autoscroll: Option<PointBits>,
}

impl ViewState {
    /// What may say where the next frame of the continuous view scrolls to. A page to turn to
    /// comes before a point to come back to.
    pub open spec fn scroll_sources(self) -> ScrollSources {
        ScrollSources {
            page: self.scroll_to_page,
            anchor: if self.scroll_to_page is Some {
                None
            } else {
                self.restore_anchor
            },
            pan: self.pan_requested_offset,
            autoscroll: match self.autoscroll {
                None => None,
                Some(autoscroll) => autoscroll.requested_offset,
            },
        }
    }

    /// Takes what says where the next frame of the continuous view scrolls to; each counts
    /// once.
    pub fn take_scroll_sources(&mut self) -> (res: ScrollSources)
        ensures
            res == old(self).scroll_sources(),
            *final(self) == (ViewState {
                scroll_to_page: None,
                restore_anchor: None,
                pan_requested_offset: None,
                ..*old(self)
            }),
    {
        let page = self.scroll_to_page;
        let anchor = if page.is_some() {
            None
        } else {
            self.restore_anchor
        };
        let pan = self.pan_requested_offset;
        let autoscroll = match &self.autoscroll {
            None => None,
            Some(autoscroll) => autoscroll.requested_offset,
        };
        self.scroll_to_page = None;
        self.restore_anchor = None;
        self.pan_requested_offset = None;
        ScrollSources { page, anchor, pan, autoscroll }
    }

    /// Takes what says where the next frame of the single page view scrolls to: a point to
    /// come back to, and an offset that was panned to.
    pub fn take_single_sources(&mut self) -> (res: (Option<PointBits>, Option<PointBits>))
        ensures
            res == (old(self).restore_single_anchor, old(self).pan_requested_offset),
            *final(self) == (ViewState {
                restore_single_anchor: None,
                pan_requested_offset: None,
                ..*old(self)
            }),
    {
        let anchor = self.restore_single_anchor;
        let pan = self.pan_requested_offset;
        self.restore_single_anchor = None;
        self.pan_requested_offset = None;
        (anchor, pan)
    }

    /// Notes where the continuous view came to: the page at its top, if there is one, and the
    /// point in its middle.
    pub fn note_continuous_position(&mut self, top_page: Option<usize>, center: Option<PageAnchor>)
        ensures
            *final(self) == (ViewState {
                current_page: match top_page {
                    None => old(self).current_page,
                    Some(page) => page,
                },
                center_anchor: center,
                ..*old(self)
            }),
    {
        if let Some(page) = top_page {
            self.current_page = page;
        }
        self.center_anchor = center;
    }
}

/// The offset of a frame: a jump comes before a pan, and a pan before autoscrolling.
pub fn first_offset(
    jump: Option<PointBits>,
    pan: Option<PointBits>,
    autoscroll: Option<PointBits>,
) -> (res: Option<PointBits>)
    ensures
        res == (if jump is Some {
            jump
        } else if pan is Some {
            pan
        } else {
            autoscroll
        }),
        res is None == (jump is None && pan is None && autoscroll is None),
        jump is Some ==> res == jump,
        jump is None && pan is Some ==> res == pan,
{
    if jump.is_some() {
        jump
    } else if pan.is_some() {
        pan
    } else {
        autoscroll
    }
}

/// What a pane shows of a document.
#[derive(Clone, Copy, Debug, PartialEq, Eq, Structural)]
pub enum PaneContent {
    Waiting,
    Failed,
    Nothing,
    Pages,
}

/// Whether annotations under the pointer are left alone.
pub open spec fn hover_suppressed(
    document: DocumentView,
    editor: Option<EditorView>,
    picker_document: Option<u64>,
) -> bool {
    ||| document.view.autoscroll is Some
    ||| (editor is Some && editor->0.document_id == document.document_id)
    ||| picker_document == Some(document.document_id)
}

impl DocumentTab {
    /// What a pane shows of the document.
    pub fn pane_content(&self) -> (res: PaneContent)
        ensures
            res == (match self@.state {
                DocumentState::Opening => PaneContent::Waiting,
                DocumentState::Error => PaneContent::Failed,
                _ => if self@.info is Some {
                    PaneContent::Pages
                } else {
                    PaneContent::Nothing
                },
            }),
    {
        match self.state {
            DocumentState::Opening => PaneContent::Waiting,
            DocumentState::Error => PaneContent::Failed,
            _ => if self.info.is_some() {
                PaneContent::Pages
            } else {
                PaneContent::Nothing
            },
        }
    }

    /// Whether annotations under the pointer are left alone: while the view scrolls by itself,
    /// and while an editor or a choice is open.
    pub fn suppress_annotation_hover(
        &self,
        editor: &Option<AnnotationEditor>,
        picker_document: Option<u64>,
    ) -> (res: bool)
        ensures
            res == hover_suppressed(self@, editor_view(*editor), picker_document),
    {
        let editing = match editor {
            None => false,
            Some(editor) => editor.document_id == self.document_id,
        };
        let choosing = match picker_document {
            None => false,
            Some(document_id) => document_id == self.document_id,
        };
        self.view.autoscroll.is_some() || editing || choosing
    }

    /// Turns pages with the wheel, in single page mode: forwards to the top of a page, and
    /// backwards to the bottom, at the same distance from its side.
    pub fn turn_page_by_wheel(&mut self, delta: isize)
        ensures
            ({
                let before = old(self)@;
                let target = page_reached(
                    before.view.current_page as int,
                    before.page_count() as int,
                    delta as int,
                );
                let x_bits = match before.view.single_center_anchor {
                    None => MIDDLE_BITS,
                    Some(point) => point.x_bits,
                };
                let y_bits = if delta > 0 {
                    0u32
                } else {
                    ONE_BITS
                };
                final(self)@ == (if delta != 0 && before.page_count() > 0 && target
                    != before.view.current_page && target < before.page_count() {
                    before.showing(
                        before.view.at_page_edge(target as usize, PointBits { x_bits, y_bits }),
                    )
                } else {
                    before
                })
            }),
            final(self)@.view.current_page < old(self)@.page_count() || final(self)@ == old(self)@,
            delta > 0 && final(self)@ != old(self)@
                ==> final(self)@.view.single_center_anchor->0.y_bits == 0,
            delta < 0 && final(self)@ != old(self)@
                ==> final(self)@.view.single_center_anchor->0.y_bits == 0x3F80_0000,
            delta == 0 ==> final(self)@ == old(self)@,
            0 <= old(self)@.view.current_page + delta < old(self)@.page_count()
                ==> final(self)@.view.current_page == old(self)@.view.current_page + delta,
    {
        if delta == 0 {
            return;
        }
        let page_count: usize = self.page_count();
        let target = adjacent_page_index(self.view.current_page, page_count, delta);
        if let Some(target) = target {
            let x_bits: u32 = match self.view.single_center_anchor {
                None => MIDDLE_BITS,
                Some(point) => point.x_bits,
            };
            let y_bits: u32 = if delta > 0 {
                0
            } else {
                ONE_BITS
            };
            self.jump_to_single_page_edge(target, PointBits { x_bits, y_bits });
        }
    }

    /// Takes what a drag or a click did to the selection: a drag that ended starts a new one,
    /// and a click beside the text drops it. Returns the generation of a new one.
    pub fn finish_pointer(&mut self, drag_ended: bool, clears: bool) -> (res: Option<u64>)
        ensures
            res == (if drag_ended {
                Some(old(self)@.selection_generation.wrapping_add(1))
            } else {
                None
            }),
            final(self)@ == (if drag_ended {
                DocumentView {
                    selection_generation: old(self)@.selection_generation.wrapping_add(1),
                    ..old(self)@
                }
            } else if clears {
                old(self)@.without_selection()
            } else {
                old(self)@
            }),
    {
        if drag_ended {
            return Some(self.request_selection());
        }
        if clears {
            self.clear_selection();
        }
        None
    }
}

/// What the pointer did on one page, or beside the pages.
#[derive(Clone, Copy, Debug, PartialEq, Eq, Structural)]
pub struct PointerReport {
    /// Which of the caller's drags ended.
    pub drag: Option<usize>,
    /// Which of the caller's actions was chosen.
    pub action: Option<usize>,
    pub pan: Option<PointBits>,
    /// Which of the caller's targets is under the pointer.
    pub target: Option<usize>,
    pub clears_selection: bool,
}

/// The last report of several that says something.
pub open spec fn later<T>(earlier: Option<T>, last: Option<T>) -> Option<T> {
    if last is Some {
        last
    } else {
        earlier
    }
}

impl PointerReport {
    /// This report and a later one of the same frame.
    pub open spec fn with(self, next: PointerReport) -> PointerReport {
        PointerReport {
            drag: later(self.drag, next.drag),
            action: later(self.action, next.action),
            pan: later(self.pan, next.pan),
            target: later(self.target, next.target),
            clears_selection: self.clears_selection || next.clears_selection,
        }
    }

    /// This report and the one of the ground beside the pages, which comes after all pages.
    pub open spec fn over(self, ground: PointerReport) -> PointerReport {
        PointerReport {
            pan: later(ground.pan, self.pan),
            target: later(ground.target, self.target),
            clears_selection: self.clears_selection || ground.clears_selection,
            ..self
        }
    }

    /// Nothing was done.
    pub fn nothing() -> (res: PointerReport)
        ensures
            res == (PointerReport {
                drag: None,
                action: None,
                pan: None,
                target: None,
                clears_selection: false,
            }),
    {
        PointerReport { drag: None, action: None, pan: None, target: None, clears_selection: false }
    }

    /// Adds what was done on another page.
    pub fn add_page(&mut self, next: PointerReport)
        ensures
            *final(self) == old(self).with(next),
    {
        if next.drag.is_some() {
            self.drag = next.drag;
        }
        if next.action.is_some() {
            self.action = next.action;
        }
        if next.pan.is_some() {
            self.pan = next.pan;
        }
        if next.target.is_some() {
            self.target = next.target;
        }
        self.clears_selection = self.clears_selection || next.clears_selection;
    }

    /// Adds what was done beside the pages.
    pub fn add_ground(&mut self, ground: PointerReport)
        ensures
            *final(self) == old(self).over(ground),
    {
        if self.pan.is_none() {
            self.pan = ground.pan;
        }
        if self.target.is_none() {
            self.target = ground.target;
        }
        self.clears_selection = self.clears_selection || ground.clears_selection;
    }
}

/// A page to turn to is turned to once: the frame after it scrolls nowhere by itself.
pub proof fn each_target_counts_once(view: ViewState)
    requires
        view.autoscroll is None,
    ensures
        ({
            let after = ViewState {
                scroll_to_page: None,
                restore_anchor: None,
                pan_requested_offset: None,
                ..view
            };
            let sources = after.scroll_sources();
            sources.page is None && sources.anchor is None && sources.pan is None
                && sources.autoscroll is None
        }),
{
}

/// What the page under the pointer reports comes before what was reported earlier; what was reported
/// and not reported again stays.
pub proof fn the_last_page_reports(earlier: PointerReport, next: PointerReport)
    ensures
        next.drag is Some ==> earlier.with(next).drag == next.drag,
        next.drag is None ==> earlier.with(next).drag == earlier.drag,
        next.action is Some ==> earlier.with(next).action == next.action,
        next.action is None ==> earlier.with(next).action == earlier.action,
        next.pan is Some ==> earlier.with(next).pan == next.pan,
        next.pan is None ==> earlier.with(next).pan == earlier.pan,
        next.target is Some ==> earlier.with(next).target == next.target,
        next.target is None ==> earlier.with(next).target == earlier.target,
        earlier.with(next).clears_selection == (earlier.clears_selection || next.clears_selection),
{
}

/// What the ground around the pages reports counts where no page reported; it starts no drag and
/// opens nothing.
pub proof fn pages_come_before_the_ground(pages: PointerReport, ground: PointerReport)
    ensures
        pages.over(ground).drag == pages.drag,
        pages.over(ground).action == pages.action,
        pages.pan is Some ==> pages.over(ground).pan == pages.pan,
        pages.pan is None ==> pages.over(ground).pan == ground.pan,
        pages.target is Some ==> pages.over(ground).target == pages.target,
        pages.target is None ==> pages.over(ground).target == ground.target,
        pages.over(ground).clears_selection == (pages.clears_selection || ground.clears_selection),
{
}

/// A page that is still being scrolled to comes before a point to bring back.
pub proof fn a_page_comes_before_a_point(view: ViewState)
    ensures
        view.scroll_sources().page == view.scroll_to_page,
        view.scroll_to_page is Some ==> view.scroll_sources().anchor is None,
        view.scroll_to_page is None ==> view.scroll_sources().anchor == view.restore_anchor,
        view.scroll_sources().pan == view.pan_requested_offset,
        view.autoscroll is Some ==> view.scroll_sources().autoscroll
            == view.autoscroll->0.requested_offset,
        view.autoscroll is None ==> view.scroll_sources().autoscroll is None,
{
}

/// Nothing is shown under the pointer while the view scrolls by itself, or an annotation of the
/// document is edited or chosen; another document's editor or choice does not matter.
pub proof fn hovering_rests_while_something_is_open(
    document: DocumentView,
    editor: Option<EditorView>,
    picker_document: Option<u64>,
)
    ensures
        document.view.autoscroll is Some ==> hover_suppressed(document, editor, picker_document),
        editor is Some && editor->0.document_id == document.document_id ==> hover_suppressed(
            document,
            editor,
            picker_document,
        ),
        picker_document == Some(document.document_id) ==> hover_suppressed(
            document,
            editor,
            picker_document,
        ),
        document.view.autoscroll is None && (editor is None || editor->0.document_id
            != document.document_id) && picker_document != Some(document.document_id)
            ==> !hover_suppressed(document, editor, picker_document),
{
}

} // verus!
