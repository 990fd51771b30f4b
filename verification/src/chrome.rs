//! What the menus, the toolbar and the tabs offer and say.
use crate::annotation::{blocks_document, editor_blocks_document, editor_view, AnnotationEditor};
use crate::document::{DocumentTab, DocumentView};
use crate::search::{all_matches, search_match_ordinal, SearchPage, SearchState, SearchView};
use crate::session::{DisplayMode, ZoomMode};
use crate::text::{decimal, decimal_text, with_text};
use vstd::prelude::*;

verus! {

proof fn one_more_page(pages: Seq<SearchPage>, index: int)
    requires
        0 <= index < pages.len(),
    ensures
        all_matches(pages.take(index + 1)).len() == all_matches(pages.take(index)).len()
            + pages[index].match_count,
{
    assert(pages.take(index + 1).drop_last() =~= pages.take(index));
}

proof fn fewer_pages_fewer_hits(pages: Seq<SearchPage>, index: int)
    requires
        0 <= index <= pages.len(),
    ensures
        all_matches(pages.take(index)).len() <= all_matches(pages).len(),
    decreases pages.len() - index,
{
    if index < pages.len() {
        one_more_page(pages, index);
        fewer_pages_fewer_hits(pages, index + 1);
    } else {
        assert(pages.take(index) =~= pages);
    }
}

/// How many hits there are.
pub fn match_count(pages: &Vec<SearchPage>) -> (res: usize)
    requires
        all_matches(pages@).len() <= usize::MAX,
    ensures
        res == all_matches(pages@).len(),
{
    let mut count: usize = 0;
    let mut i: usize = 0;
    while i < pages.len()
        invariant
            i <= pages.len(),
            all_matches(pages@).len() <= usize::MAX,
            count == all_matches(pages@.take(i as int)).len(),
        decreases pages.len() - i,
    {
        proof {
            one_more_page(pages@, i as int);
            fewer_pages_fewer_hits(pages@, i + 1);
        }
        count = count + pages[i].match_count;
        i += 1;
    }
    assert(pages@.take(i as int) =~= pages@);
    count
}

/// What is said of a search: the number of the hit shown, of how many, and how far it came.
pub open spec fn search_progress(search: SearchView, page_count: usize) -> Seq<char> {
    let matches = all_matches(search.pages);
    let ordinal = if search.selected is Some && matches.contains(search.selected->0) {
        (matches.index_of(search.selected->0) + 1) as nat
    } else {
        0
    };
    let count = decimal(ordinal) + " / "@ + decimal(matches.len());
    if search.in_progress {
        count + " · "@ + decimal(search.completed_pages as nat) + "/"@ + decimal(page_count as nat)
    } else {
        count
    }
}

/// What the toolbar says of a search.
pub fn search_label(search: &SearchState, page_count: usize) -> (res: String)
    requires
        search@.wf(),
        all_matches(search@.pages).len() <= usize::MAX,
    ensures
        res@ == search_progress(search@, page_count),
{
    let total: usize = match_count(&search.pages);
    let ordinal: usize = match search.selected {
        None => 0,
        Some(cursor) => match search_match_ordinal(&search.pages, cursor) {
            None => 0,
            Some(ordinal) => ordinal,
        },
    };
    let number = decimal_text(ordinal as u64);
    let all = decimal_text(total as u64);
    let mut label = with_text(number.as_str(), " / ");
    label.append(all.as_str());
    if search.in_progress {
        let completed = decimal_text(search.completed_pages as u64);
        let pages = decimal_text(page_count as u64);
        label.append(" · ");
        label.append(completed.as_str());
        label.append("/");
        label.append(pages.as_str());
    }
    label
}

/// What the toolbar offers for a document.
#[derive(Clone, Copy, Debug, PartialEq, Eq, Structural)]
pub struct ToolbarOffer {
    pub sidebar: bool,
    pub print: bool,
    pub previous_page: bool,
    pub next_page: bool,
    pub fits_width: bool,
    pub fits_page: bool,
    pub continuous: bool,
    pub highlight: bool,
}

/// What the toolbar offers for a document.
pub open spec fn toolbar_for(document: DocumentView, closing: bool) -> ToolbarOffer {
    ToolbarOffer {
        sidebar: document.info is Some,
        print: document.printable() && !closing,
        previous_page: document.view.current_page > 0,
        next_page: document.view.current_page + 1 < document.page_count(),
        fits_width: document.view.zoom_mode is FitWidth,
        fits_page: document.view.zoom_mode is FitPage,
        continuous: document.view.display_mode is Continuous,
        highlight: document.info is Some && document.info->0.highlight_capability is Allowed
            && !document.print_in_flight && document.selection is Some
            && document.selection->0.quad_count > 0,
    }
}

/// What the menus offer for the active document, if there is one.
#[derive(Clone, Copy, Debug, PartialEq, Eq, Structural)]
pub struct MenuOffer {
    pub print: bool,
    pub close_current: bool,
    pub close_all: bool,
    pub undo: bool,
    pub copy: bool,
    pub highlight: bool,
}

impl DocumentTab {
    /// What the toolbar offers for the document.
    pub fn toolbar_offer(&self, closing: bool) -> (res: ToolbarOffer)
        ensures
            res == toolbar_for(self@, closing),
    {
        let page_count: usize = self.page_count();
        ToolbarOffer {
            sidebar: self.info.is_some(),
            print: self.can_print(closing),
            previous_page: self.view.current_page > 0,
            next_page: self.view.current_page < page_count && page_count - self.view.current_page
                > 1,
            fits_width: self.view.zoom_mode == ZoomMode::FitWidth,
            fits_page: self.view.zoom_mode == ZoomMode::FitPage,
            continuous: self.view.display_mode == DisplayMode::Continuous,
            highlight: self.can_create_highlight(),
        }
    }

    /// What is said of the highlight button.
    pub fn highlight_tooltip(&self) -> (res: &'static str)
        ensures
            res@ == (if self@.info is Some && self@.info->0.highlight_capability.reason() is Some {
                self@.info->0.highlight_capability.reason()->0
            } else {
                "選択範囲をハイライト (H)"@
            }),
    {
        match &self.info {
            None => "選択範囲をハイライト (H)",
            Some(info) => match info.highlight_capability.restriction() {
                None => "選択範囲をハイライト (H)",
                Some(restriction) => restriction,
            },
        }
    }

    /// What is shown in the tab: a mark before the name where something is not saved.
    pub fn tab_title(&self, name: &str, editor: &Option<AnnotationEditor>) -> (res: String)
        ensures
            res@ == (if self@.unsaved() || blocks_document(
                editor_view(*editor),
                self@.document_id,
            ) {
                "● "@ + name@
            } else {
                name@
            }),
    {
        if self.has_unsaved_changes() || editor_blocks_document(editor, self.document_id) {
            with_text("● ", name)
        } else {
            name.to_owned()
        }
    }

    /// Whether a copy of the edits can be saved so that someone else's state of the file can
    /// be read.
    pub fn offers_conflict_copy(&self) -> (res: bool)
        ensures
            res == (self@.external_conflict_reported && self@.unsaved()),
    {
        self.external_conflict_reported && self.has_unsaved_changes()
    }
}

/// What the menus offer.
pub fn menu_offer(
    active: Option<&DocumentTab>,
    document_count: usize,
    editor: &Option<AnnotationEditor>,
    closing: bool,
) -> (res: MenuOffer)
    ensures
        res.close_all == (document_count > 0),
        match active {
            None => !res.print && !res.close_current && !res.undo && !res.copy && !res.highlight,
            Some(document) => {
                &&& res.print == (document@.printable() && !closing)
                &&& res.close_current == !document@.print_in_flight
                &&& res.undo == (!closing && !blocks_document(
                    editor_view(*editor),
                    document@.document_id,
                ) && document@.undoable())
                &&& res.copy == (document@.selection is Some)
                &&& res.highlight == toolbar_for(document@, closing).highlight
            },
        },
{
    match active {
        None => MenuOffer {
            print: false,
            close_current: false,
            close_all: document_count > 0,
            undo: false,
            copy: false,
            highlight: false,
        },
        Some(document) => MenuOffer {
            print: document.can_print(closing),
            close_current: !document.is_printing(),
            close_all: document_count > 0,
            undo: document.can_undo(editor, closing),
            copy: document.can_copy_selection(),
            highlight: document.can_create_highlight(),
        },
    }
}

} // verus!
