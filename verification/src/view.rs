//! Where a document is looked at, and how the user moves in it.
//!
//! Positions and zooms are bit patterns of floating point numbers: they are stored,
//! handed over and compared here, and computed elsewhere.
use crate::session::{DisplayMode, SessionView, ZoomMode};
use vstd::prelude::*;

verus! {

/// The bit pattern of 0.5, the middle of a page.
pub const MIDDLE_BITS: u32 = 0x3F00_0000;

/// The bit pattern of 1.0, the natural zoom.
pub const NATURAL_ZOOM_BITS: u32 = 0x3F80_0000;

/// A point or an offset.
#[derive(Clone, Copy, Debug, PartialEq, Eq, Structural)]
pub struct PointBits {
    pub x_bits: u32,
    pub y_bits: u32,
}

/// A point of a page, relative to its size.
#[derive(Clone, Copy, Debug, PartialEq, Eq, Structural)]
pub struct PageAnchor {
    pub page_index: usize,
    pub x_bits: u32,
    pub y_bits: u32,
}

/// Scrolling that follows the pointer, as a browser does it.
#[derive(Clone, Copy, Debug, PartialEq, Eq, Structural)]
pub struct AutoscrollState {
    pub anchor: PointBits,
    pub requested_offset: Option<PointBits>,
}

/// The direction of a wheel gesture.
#[derive(Clone, Copy, Debug, PartialEq, Eq, Structural)]
pub enum WheelDirection {
    /// Towards earlier pages.
    Up,
    /// Towards later pages.
    Down,
}

/// A wheel gesture in single page mode.
#[derive(Clone, Copy, Debug, PartialEq, Eq, Structural)]
pub struct SinglePageWheelState {
    /// The distance so far, as the bit pattern of a number of points.
    pub accumulated_bits: u32,
    /// The gesture has turned a page already.
    pub latched: bool,
    pub direction: Option<WheelDirection>,
    /// The time of the last input, as a bit pattern.
    pub last_input_time_bits: Option<u64>,
}

/// No gesture.
pub open spec fn idle_wheel() -> SinglePageWheelState {
    SinglePageWheelState {
        accumulated_bits: 0,
        latched: false,
        direction: None,
        last_input_time_bits: None,
    }
}

/// The state of a view on a document.
#[derive(Clone, Copy, Debug, PartialEq, Eq, Structural)]
pub struct ViewState {
    pub display_mode: DisplayMode,
    pub zoom_mode: ZoomMode,
    pub zoom_bits: u32,
    pub current_page: usize,
    /// A page to scroll to, not yet reached.
    pub scroll_to_page: Option<usize>,
    /// The point in the middle of the continuous view.
    pub center_anchor: Option<PageAnchor>,
    /// A point to bring back to the middle of the continuous view.
    pub restore_anchor: Option<PageAnchor>,
    /// The point in the middle of the single page view.
    pub single_center_anchor: Option<PointBits>,
    /// A point to bring back to the middle of the single page view.
    pub restore_single_anchor: Option<PointBits>,
    pub single_wheel: SinglePageWheelState,
    pub autoscroll: Option<AutoscrollState>,
    pub pan_requested_offset: Option<PointBits>,
    pub render_pixels_per_point_bits: Option<u32>,
    /// Counts the changes after which rendered tiles are out of date.
    pub generation: u64,
}

/// The page reached from `current` by `delta` pages, within the document.
pub open spec fn page_reached(current: int, page_count: int, delta: int) -> int {
    let last = if page_count > 0 {
        page_count - 1
    } else {
        0
    };
    let moved = current + delta;
    if moved < 0 {
        0
    } else if moved > last {
        last
    } else {
        moved
    }
}

fn reach_page(current: usize, page_count: usize, delta: isize) -> (res: usize)
    ensures
        res == page_reached(current as int, page_count as int, delta as int),
{
    let last: usize = if page_count > 0 {
        page_count - 1
    } else {
        0
    };
    let moved: usize = match current.checked_add_signed(delta) {
        Some(moved) => moved,
        None => if delta < 0 {
            0
        } else {
            last
        },
    };
    if moved < last {
        moved
    } else {
        last
    }
}

/// The page to turn to, if `delta` pages lead to another page of the document.
pub fn adjacent_page_index(current: usize, page_count: usize, delta: isize) -> (res: Option<usize>)
    ensures
        ({
            let target = page_reached(current as int, page_count as int, delta as int);
            match res {
                None => page_count == 0 || target == current,
                Some(page) => page_count > 0 && target != current && page == target,
            }
        }),
        res is Some ==> res->0 < page_count && res->0 != current,
        current < page_count && res is Some ==> (delta > 0) == (res->0 > current),
        0 <= current + delta < page_count && delta != 0 ==> res is Some && res->0 == current + delta,
{
    if page_count == 0 {
        return None;
    }
    let target: usize = reach_page(current, page_count, delta);
    if target != current {
        Some(target)
    } else {
        None
    }
}

/// The point that a session names, in continuous mode.
pub open spec fn session_anchor(saved: SessionView) -> PageAnchor {
    PageAnchor { page_index: saved.page_index, x_bits: saved.page_x_bits, y_bits: saved.page_y_bits }
}

/// The point that a session names, in single page mode.
pub open spec fn session_point(saved: SessionView) -> PointBits {
    PointBits { x_bits: saved.page_x_bits, y_bits: saved.page_y_bits }
}

/// The middle of a page.
pub open spec fn middle_of(page_index: usize) -> PageAnchor {
    PageAnchor { page_index, x_bits: MIDDLE_BITS, y_bits: MIDDLE_BITS }
}

/// The middle of the page shown.
pub open spec fn middle_point() -> PointBits {
    PointBits { x_bits: MIDDLE_BITS, y_bits: MIDDLE_BITS }
}

/// A page index within a document.
pub open spec fn clamped_page(page: usize, page_count: int) -> usize {
    if page_count <= 0 {
        0
    } else if page < page_count {
        page
    } else {
        (page_count - 1) as usize
    }
}

/// An anchor within a document.
pub open spec fn clamped_anchor(anchor: Option<PageAnchor>, page_count: int) -> Option<PageAnchor> {
    match anchor {
        None => None,
        Some(anchor) => Some(
            PageAnchor { page_index: clamped_page(anchor.page_index, page_count), ..anchor },
        ),
    }
}

impl ViewState {
    /// The view of a document that is opened for the first time.
    pub open spec fn fresh() -> ViewState {
        ViewState {
            display_mode: DisplayMode::Continuous,
            zoom_mode: ZoomMode::FitWidth,
            zoom_bits: NATURAL_ZOOM_BITS,
            current_page: 0,
            scroll_to_page: Some(0),
            center_anchor: None,
            restore_anchor: None,
            single_center_anchor: None,
            restore_single_anchor: None,
            single_wheel: idle_wheel(),
            autoscroll: None,
            pan_requested_offset: None,
            render_pixels_per_point_bits: None,
            generation: 1,
        }
    }

    /// The view that a session describes.
    pub open spec fn restored(saved: SessionView) -> ViewState {
        let continuous = saved.display is Continuous;
        ViewState {
            display_mode: saved.display,
            zoom_mode: saved.zoom_mode,
            zoom_bits: saved.zoom_bits,
            current_page: saved.page_index,
            scroll_to_page: None,
            center_anchor: if continuous {
                Some(session_anchor(saved))
            } else {
                None
            },
            restore_anchor: if continuous {
                Some(session_anchor(saved))
            } else {
                None
            },
            single_center_anchor: if continuous {
                None
            } else {
                Some(session_point(saved))
            },
            restore_single_anchor: if continuous {
                None
            } else {
                Some(session_point(saved))
            },
            ..ViewState::fresh()
        }
    }

    /// What a session remembers of the view. A page that is still being scrolled to counts
    /// as reached.
    pub open spec fn remembered(self) -> SessionView {
        let anchor = match self.display_mode {
            DisplayMode::Continuous => match self.scroll_to_page {
                Some(page_index) => middle_of(page_index),
                None => match self.center_anchor {
                    Some(anchor) => anchor,
                    None => match self.restore_anchor {
                        Some(anchor) => anchor,
                        None => middle_of(self.current_page),
                    },
                },
            },
            DisplayMode::SinglePage => {
                let point = match self.single_center_anchor {
                    Some(point) => point,
                    None => match self.restore_single_anchor {
                        Some(point) => point,
                        None => middle_point(),
                    },
                };
                PageAnchor {
                    page_index: self.current_page,
                    x_bits: point.x_bits,
                    y_bits: point.y_bits,
                }
            },
        };
        SessionView {
            page_index: anchor.page_index,
            page_x_bits: anchor.x_bits,
            page_y_bits: anchor.y_bits,
            display: self.display_mode,
            zoom_mode: self.zoom_mode,
            zoom_bits: self.zoom_bits,
        }
    }

    /// The view within a document of `page_count` pages.
    pub open spec fn clamped(self, page_count: int) -> ViewState {
        ViewState {
            current_page: clamped_page(self.current_page, page_count),
            scroll_to_page: match self.scroll_to_page {
                None => None,
                Some(page) => Some(clamped_page(page, page_count)),
            },
            center_anchor: clamped_anchor(self.center_anchor, page_count),
            restore_anchor: clamped_anchor(self.restore_anchor, page_count),
            ..self
        }
    }

    /// The view in the other display mode, at the same point of the document.
    pub open spec fn switched(self, mode: DisplayMode) -> ViewState {
        if self.display_mode == mode {
            self
        } else if mode is SinglePage {
            let anchor = match self.center_anchor {
                Some(anchor) => anchor,
                None => middle_of(self.current_page),
            };
            let point = PointBits { x_bits: anchor.x_bits, y_bits: anchor.y_bits };
            ViewState {
                display_mode: mode,
                current_page: anchor.page_index,
                single_center_anchor: Some(point),
                restore_single_anchor: Some(point),
                scroll_to_page: None,
                autoscroll: None,
                pan_requested_offset: None,
                ..self
            }
        } else {
            let point = match self.single_center_anchor {
                Some(point) => point,
                None => middle_point(),
            };
            let anchor = PageAnchor {
                page_index: self.current_page,
                x_bits: point.x_bits,
                y_bits: point.y_bits,
            };
            ViewState {
                display_mode: mode,
                center_anchor: Some(anchor),
                restore_anchor: Some(anchor),
                scroll_to_page: None,
                autoscroll: None,
                pan_requested_offset: None,
                ..self
            }
        }
    }

    /// The view that will come back to the point in its middle.
    pub open spec fn holding_center(self) -> ViewState {
        match self.display_mode {
            DisplayMode::Continuous => ViewState { restore_anchor: self.center_anchor, ..self },
            DisplayMode::SinglePage => ViewState {
                restore_single_anchor: self.single_center_anchor,
                ..self
            },
        }
    }

    /// The view at another page.
    pub open spec fn at_page(self, page_index: usize) -> ViewState {
        match self.display_mode {
            DisplayMode::Continuous => ViewState {
                current_page: page_index,
                scroll_to_page: Some(page_index),
                restore_anchor: None,
                ..self
            },
            DisplayMode::SinglePage => ViewState {
                current_page: page_index,
                single_center_anchor: Some(middle_point()),
                restore_single_anchor: Some(middle_point()),
                ..self
            },
        }
    }

    /// The view at a point of another page, in single page mode.
    pub open spec fn at_page_edge(self, page_index: usize, point: PointBits) -> ViewState {
        ViewState {
            current_page: page_index,
            single_center_anchor: Some(point),
            restore_single_anchor: Some(point),
            ..self
        }
    }

    /// The view with a search hit in its middle.
    pub open spec fn at_match(self, anchor: PageAnchor) -> ViewState {
        match self.display_mode {
            DisplayMode::Continuous => ViewState {
                current_page: anchor.page_index,
                scroll_to_page: None,
                restore_anchor: Some(anchor),
                ..self
            },
            DisplayMode::SinglePage => self.at_page_edge(
                anchor.page_index,
                PointBits { x_bits: anchor.x_bits, y_bits: anchor.y_bits },
            ),
        }
    }

    /// The view of a document that is opened for the first time.
    pub fn new() -> (res: Self)
        ensures
            res == ViewState::fresh(),
    {
        ViewState {
            display_mode: DisplayMode::Continuous,
            zoom_mode: ZoomMode::FitWidth,
            zoom_bits: NATURAL_ZOOM_BITS,
            current_page: 0,
            scroll_to_page: Some(0),
            center_anchor: None,
            restore_anchor: None,
            single_center_anchor: None,
            restore_single_anchor: None,
            single_wheel: SinglePageWheelState {
                accumulated_bits: 0,
                latched: false,
                direction: None,
                last_input_time_bits: None,
            },
            autoscroll: None,
            pan_requested_offset: None,
            render_pixels_per_point_bits: None,
            generation: 1,
        }
    }

    /// The view that a session describes.
    pub fn from_session(saved: SessionView) -> (res: Self)
        ensures
            res == ViewState::restored(saved),
    {
        let anchor = PageAnchor {
            page_index: saved.page_index,
            x_bits: saved.page_x_bits,
            y_bits: saved.page_y_bits,
        };
        let point = PointBits { x_bits: saved.page_x_bits, y_bits: saved.page_y_bits };
        let base = ViewState {
            display_mode: saved.display,
            zoom_mode: saved.zoom_mode,
            zoom_bits: saved.zoom_bits,
            current_page: saved.page_index,
            scroll_to_page: None,
            ..ViewState::new()
        };
        match saved.display {
            DisplayMode::Continuous => ViewState {
                center_anchor: Some(anchor),
                restore_anchor: Some(anchor),
                ..base
            },
            DisplayMode::SinglePage => ViewState {
                single_center_anchor: Some(point),
                restore_single_anchor: Some(point),
                ..base
            },
        }
    }

    /// What a session remembers of the view.
    pub fn to_session(&self) -> (res: SessionView)
        ensures
            res == self.remembered(),
    {
        let (page_index, page_x_bits, page_y_bits): (usize, u32, u32) = match self.display_mode {
            DisplayMode::Continuous => {
                // A page that is still being scrolled to has not moved the middle yet.
                if let Some(page_index) = self.scroll_to_page {
                    (page_index, MIDDLE_BITS, MIDDLE_BITS)
                } else if let Some(anchor) = self.center_anchor {
                    (anchor.page_index, anchor.x_bits, anchor.y_bits)
                } else if let Some(anchor) = self.restore_anchor {
                    (anchor.page_index, anchor.x_bits, anchor.y_bits)
                } else {
                    (self.current_page, MIDDLE_BITS, MIDDLE_BITS)
                }
            },
            DisplayMode::SinglePage => {
                if let Some(point) = self.single_center_anchor {
                    (self.current_page, point.x_bits, point.y_bits)
                } else if let Some(point) = self.restore_single_anchor {
                    (self.current_page, point.x_bits, point.y_bits)
                } else {
                    (self.current_page, MIDDLE_BITS, MIDDLE_BITS)
                }
            },
        };
        SessionView {
            page_index,
            page_x_bits,
            page_y_bits,
            display: self.display_mode,
            zoom_mode: self.zoom_mode,
            zoom_bits: self.zoom_bits,
        }
    }

    /// Keeps the view within a document that may have become shorter.
    pub fn clamp_to_page_count(&mut self, page_count: usize)
        ensures
            *final(self) == old(self).clamped(page_count as int),
    {
        let last: usize = if page_count > 0 {
            page_count - 1
        } else {
            0
        };
        if self.current_page > last {
            self.current_page = last;
        }
        if let Some(page) = self.scroll_to_page {
            if page > last {
                self.scroll_to_page = Some(last);
            }
        }
        if let Some(anchor) = self.center_anchor {
            if anchor.page_index > last {
                self.center_anchor = Some(PageAnchor { page_index: last, ..anchor });
            }
        }
        if let Some(anchor) = self.restore_anchor {
            if anchor.page_index > last {
                self.restore_anchor = Some(PageAnchor { page_index: last, ..anchor });
            }
        }
    }

    /// Carries the middle of the view over to the other display mode.
    pub fn switch_display_mode(&mut self, mode: DisplayMode) -> (res: bool)
        ensures
            res == (old(self).display_mode != mode),
            *final(self) == old(self).switched(mode),
    {
        if self.display_mode == mode {
            return false;
        }
        match mode {
            DisplayMode::SinglePage => {
                let anchor = match self.center_anchor {
                    Some(anchor) => anchor,
                    None => PageAnchor {
                        page_index: self.current_page,
                        x_bits: MIDDLE_BITS,
                        y_bits: MIDDLE_BITS,
                    },
                };
                let point = PointBits { x_bits: anchor.x_bits, y_bits: anchor.y_bits };
                self.current_page = anchor.page_index;
                self.single_center_anchor = Some(point);
                self.restore_single_anchor = Some(point);
            },
            DisplayMode::Continuous => {
                let point = match self.single_center_anchor {
                    Some(point) => point,
                    None => PointBits { x_bits: MIDDLE_BITS, y_bits: MIDDLE_BITS },
                };
                let anchor = PageAnchor {
                    page_index: self.current_page,
                    x_bits: point.x_bits,
                    y_bits: point.y_bits,
                };
                self.center_anchor = Some(anchor);
                self.restore_anchor = Some(anchor);
            },
        }
        self.scroll_to_page = None;
        self.display_mode = mode;
        // Offsets belong to the layout they were measured in.
        self.autoscroll = None;
        self.pan_requested_offset = None;
        true
    }

    /// Records the display density; says whether what was rendered before is out of date.
    pub fn update_render_density(&mut self, pixels_per_point_bits: u32) -> (res: bool)
        ensures
            res == (old(self).render_pixels_per_point_bits is Some && old(
                self,
            ).render_pixels_per_point_bits != Some(pixels_per_point_bits)),
            *final(self) == (ViewState {
                render_pixels_per_point_bits: Some(pixels_per_point_bits),
                ..*old(self)
            }),
            final(self).render_pixels_per_point_bits == Some(pixels_per_point_bits),
            old(self).render_pixels_per_point_bits is None ==> !res,
            res ==> old(self).render_pixels_per_point_bits->0 != pixels_per_point_bits,
    {
        let changed = match self.render_pixels_per_point_bits {
            None => false,
            Some(previous) => previous != pixels_per_point_bits,
        };
        self.render_pixels_per_point_bits = Some(pixels_per_point_bits);
        changed
    }

    pub fn stop_autoscroll(&mut self)
        ensures
            *final(self) == (ViewState { autoscroll: None, ..*old(self) }),
    {
        self.autoscroll = None;
    }

    fn hold_center(&mut self)
        ensures
            *final(self) == old(self).holding_center(),
    {
        match self.display_mode {
            DisplayMode::Continuous => {
                self.restore_anchor = self.center_anchor;
            },
            DisplayMode::SinglePage => {
                self.restore_single_anchor = self.single_center_anchor;
            },
        }
    }

    /// Sets the zoom; says whether the scale changed, so that what was rendered before is
    /// out of date. The point in the middle stays there.
    pub fn set_zoom(&mut self, zoom_bits: u32, mode: ZoomMode) -> (res: bool)
        ensures
            res == (old(self).zoom_bits != zoom_bits),
            *final(self) == (if res {
                ViewState { zoom_bits, zoom_mode: mode, ..old(self).holding_center() }
            } else {
                ViewState { zoom_mode: mode, ..*old(self) }
            }),
            final(self).zoom_bits == zoom_bits,
            final(self).zoom_mode == mode,
            final(self).current_page == old(self).current_page,
            final(self).center_anchor == old(self).center_anchor,
            final(self).single_center_anchor == old(self).single_center_anchor,
            res && old(self).display_mode is Continuous
                ==> final(self).restore_anchor == old(self).center_anchor,
            res && old(self).display_mode is SinglePage
                ==> final(self).restore_single_anchor == old(self).single_center_anchor,
            !res ==> final(self).restore_anchor == old(self).restore_anchor,
    {
        if self.zoom_bits == zoom_bits {
            self.zoom_mode = mode;
            return false;
        }
        self.hold_center();
        self.zoom_bits = zoom_bits;
        self.zoom_mode = mode;
        true
    }

    /// Prepares the view for another pane: the new pane comes back to the same point.
    pub fn prepare_for_pane_transition(&mut self)
        ensures
            *final(self) == (ViewState { autoscroll: None, ..old(self).holding_center() }),
    {
        self.autoscroll = None;
        self.hold_center();
    }

    /// Turns to a page of a document of `page_count` pages.
    pub fn jump_to_page(&mut self, page_index: usize, page_count: usize) -> (res: bool)
        ensures
            res == (page_index < page_count),
            *final(self) == (if res {
                old(self).at_page(page_index)
            } else {
                *old(self)
            }),
    {
        if page_index >= page_count {
            return false;
        }
        self.current_page = page_index;
        match self.display_mode {
            DisplayMode::Continuous => {
                self.scroll_to_page = Some(page_index);
                self.restore_anchor = None;
            },
            DisplayMode::SinglePage => {
                let middle = PointBits { x_bits: MIDDLE_BITS, y_bits: MIDDLE_BITS };
                self.single_center_anchor = Some(middle);
                self.restore_single_anchor = Some(middle);
            },
        }
        true
    }

    /// Turns to a point of a page, in single page mode.
    pub fn jump_to_single_page_edge(
        &mut self,
        page_index: usize,
        page_count: usize,
        point: PointBits,
    ) -> (res: bool)
        ensures
            res == (page_index < page_count),
            *final(self) == (if res {
                old(self).at_page_edge(page_index, point)
            } else {
                *old(self)
            }),
    {
        if page_index >= page_count {
            return false;
        }
        self.current_page = page_index;
        self.single_center_anchor = Some(point);
        self.restore_single_anchor = Some(point);
        true
    }

    /// Brings a search hit to the middle.
    pub fn jump_to_search_match(&mut self, anchor: PageAnchor, page_count: usize) -> (res: bool)
        ensures
            res == (anchor.page_index < page_count),
            *final(self) == (if res {
                old(self).at_match(anchor)
            } else {
                *old(self)
            }),
    {
        if anchor.page_index >= page_count {
            return false;
        }
        self.current_page = anchor.page_index;
        match self.display_mode {
            DisplayMode::Continuous => {
                // The top of the page would hide a hit at its bottom.
                self.scroll_to_page = None;
                self.restore_anchor = Some(anchor);
            },
            DisplayMode::SinglePage => {
                let point = PointBits { x_bits: anchor.x_bits, y_bits: anchor.y_bits };
                self.single_center_anchor = Some(point);
                self.restore_single_anchor = Some(point);
            },
        }
        true
    }

    /// Turns `delta` pages, as far as the document goes.
    pub fn move_page(&mut self, page_count: usize, delta: isize) -> (res: bool)
        ensures
            ({
                let target = page_reached(
                    old(self).current_page as int,
                    page_count as int,
                    delta as int,
                );
                &&& res == (target != old(self).current_page && target < page_count)
                &&& *final(self) == (if res {
                    old(self).at_page(target as usize)
                } else {
                    *old(self)
                })
            }),
            res ==> final(self).current_page < page_count
                && final(self).current_page != old(self).current_page,
            !res ==> *final(self) == *old(self),
            0 <= old(self).current_page + delta < page_count && delta != 0 ==> res
                && final(self).current_page == old(self).current_page + delta,
    {
        let target: usize = reach_page(self.current_page, page_count, delta);
        if target == self.current_page {
            return false;
        }
        self.jump_to_page(target, page_count)
    }
}

/// The input of a frame, as far as autoscroll goes.
#[derive(Clone, Copy, Debug, PartialEq, Eq, Structural)]
pub struct AutoscrollInput {
    pub middle_clicked: bool,
    pub primary_clicked: bool,
    pub secondary_clicked: bool,
    pub escape: bool,
    pub focused: bool,
    /// The pointer, if it is over the part of the document that can start autoscroll.
    pub start_point: Option<PointBits>,
    pub primary_interaction_in_progress: bool,
    pub current_offset: PointBits,
}

/// Autoscroll after the clicks of a frame.
pub open spec fn autoscroll_after(view: ViewState, input: AutoscrollInput) -> Option<
    AutoscrollState,
> {
    if !(view.display_mode is Continuous) {
        None
    } else if view.autoscroll is Some {
        if input.middle_clicked || input.primary_clicked || input.secondary_clicked || input.escape
            || !input.focused {
            None
        } else {
            view.autoscroll
        }
    } else if input.middle_clicked && !input.primary_interaction_in_progress
        && input.start_point is Some {
        Some(
            AutoscrollState {
                anchor: input.start_point->0,
                requested_offset: Some(input.current_offset),
            },
        )
    } else {
        None
    }
}

impl ViewState {
    /// Starts, keeps or stops autoscroll. Returns its anchor while it runs.
    pub fn update_autoscroll(&mut self, input: AutoscrollInput) -> (res: Option<PointBits>)
        ensures
            *final(self) == (ViewState {
                autoscroll: autoscroll_after(*old(self), input),
                ..*old(self)
            }),
            match autoscroll_after(*old(self), input) {
                None => res is None,
                Some(running) => res == Some(running.anchor),
            },
    {
        if self.display_mode != DisplayMode::Continuous {
            self.autoscroll = None;
            return None;
        }
        match self.autoscroll {
            Some(running) => {
                if input.middle_clicked || input.primary_clicked || input.secondary_clicked
                    || input.escape || !input.focused {
                    self.autoscroll = None;
                    return None;
                }
                Some(running.anchor)
            },
            None => {
                if input.middle_clicked && !input.primary_interaction_in_progress {
                    if let Some(anchor) = input.start_point {
                        self.autoscroll = Some(
                            AutoscrollState { anchor, requested_offset: Some(input.current_offset) },
                        );
                        return Some(anchor);
                    }
                }
                None
            },
        }
    }

    /// Sets the offset that a running autoscroll asks for.
    pub fn request_autoscroll_offset(&mut self, offset: PointBits)
        ensures
            *final(self) == (match old(self).autoscroll {
                None => *old(self),
                Some(running) => ViewState {
                    autoscroll: Some(
                        AutoscrollState { requested_offset: Some(offset), ..running },
                    ),
                    ..*old(self)
                },
            }),
            final(self).autoscroll is Some == old(self).autoscroll is Some,
            old(self).autoscroll is Some
                ==> final(self).autoscroll->0.requested_offset == Some(offset)
                && final(self).autoscroll->0.anchor == old(self).autoscroll->0.anchor,
    {
        if let Some(running) = self.autoscroll {
            self.autoscroll = Some(AutoscrollState { requested_offset: Some(offset), ..running });
        }
    }
}

/// The phase of a wheel or touch gesture.
#[derive(Clone, Copy, Debug, PartialEq, Eq, Structural)]
pub enum WheelPhase {
    Start,
    Move,
    End,
    Cancel,
}

/// What a wheel event counts in.
#[derive(Clone, Copy, Debug, PartialEq, Eq, Structural)]
pub enum WheelUnit {
    Line,
    Page,
    Point,
}

/// A wheel event.
#[derive(Clone, Copy, Debug, PartialEq, Eq, Structural)]
pub struct WheelEvent {
    pub unit: WheelUnit,
    pub phase: WheelPhase,
    pub control_held: bool,
    /// The direction, if the event is more vertical than horizontal.
    pub vertical: Option<WheelDirection>,
}

/// The place of the page when the events of a frame arrived.
#[derive(Clone, Copy, Debug, PartialEq, Eq, Structural)]
pub struct WheelContext {
    pub pointer_over_view: bool,
    pub at_top: bool,
    pub at_bottom: bool,
    /// The time of the frame, as a bit pattern.
    pub now_bits: u64,
}

/// What a wheel event leads to.
#[derive(Clone, Copy, Debug, PartialEq, Eq, Structural)]
pub enum WheelOutcome {
    /// No page turns.
    Nothing,
    /// A page turns in this direction.
    Turn(WheelDirection),
    /// The event's distance is to be added to the gesture's; the page may turn.
    Accumulate(WheelDirection),
}

/// The gesture that a vertical event continues: a start or a reversal begins anew.
pub open spec fn continued_wheel(
    state: SinglePageWheelState,
    event: WheelEvent,
    direction: WheelDirection,
    now_bits: u64,
) -> SinglePageWheelState {
    let base = if event.phase is Start || (state.direction is Some && state.direction->0
        != direction) {
        idle_wheel()
    } else {
        state
    };
    SinglePageWheelState {
        direction: Some(direction),
        last_input_time_bits: Some(now_bits),
        ..base
    }
}

/// The gesture and the outcome after one wheel event.
pub open spec fn wheel_after(
    state: SinglePageWheelState,
    event: WheelEvent,
    context: WheelContext,
) -> (SinglePageWheelState, WheelOutcome) {
    if event.phase is End || event.phase is Cancel {
        (idle_wheel(), WheelOutcome::Nothing)
    } else if !context.pointer_over_view || event.control_held || event.vertical is None {
        (state, WheelOutcome::Nothing)
    } else {
        let direction = event.vertical->0;
        let next = continued_wheel(state, event, direction, context.now_bits);
        let at_edge = match direction {
            WheelDirection::Up => context.at_top,
            WheelDirection::Down => context.at_bottom,
        };
        if !at_edge {
            (SinglePageWheelState { accumulated_bits: 0, ..next }, WheelOutcome::Nothing)
        } else if !(event.unit is Point) {
            (
                SinglePageWheelState { accumulated_bits: 0, latched: false, ..next },
                WheelOutcome::Turn(direction),
            )
        } else if next.latched {
            (next, WheelOutcome::Nothing)
        } else {
            (next, WheelOutcome::Accumulate(direction))
        }
    }
}

impl SinglePageWheelState {
    /// Ends the gesture.
    pub fn reset_wheel_gesture(&mut self)
        ensures
            *final(self) == idle_wheel(),
    {
        self.accumulated_bits = 0;
        self.latched = false;
        self.direction = None;
        self.last_input_time_bits = None;
    }

    /// Ends a gesture after a pause.
    pub fn expire_wheel_gesture_after_idle(&mut self, idle: bool)
        ensures
            *final(self) == (if idle && old(self).last_input_time_bits is Some {
                idle_wheel()
            } else {
                *old(self)
            }),
            !idle ==> *final(self) == *old(self),
            idle ==> final(self).last_input_time_bits is None,
    {
        if idle && self.last_input_time_bits.is_some() {
            self.reset_wheel_gesture();
        }
    }

    /// Takes one wheel event. An event that only reaches the edge of the page does not turn
    /// it: the edges are those from before the frame.
    pub fn wheel_event(&mut self, event: WheelEvent, context: WheelContext) -> (res: WheelOutcome)
        ensures
            (*final(self), res) == wheel_after(*old(self), event, context),
    {
        // The end of a gesture counts even when the pointer has left the document.
        match event.phase {
            WheelPhase::End | WheelPhase::Cancel => {
                self.reset_wheel_gesture();
                return WheelOutcome::Nothing;
            },
            _ => {},
        }
        if !context.pointer_over_view || event.control_held {
            return WheelOutcome::Nothing;
        }
        let direction = match event.vertical {
            None => {
                return WheelOutcome::Nothing;
            },
            Some(direction) => direction,
        };
        let reversed = match self.direction {
            None => false,
            Some(previous) => previous != direction,
        };
        if event.phase == WheelPhase::Start || reversed {
            self.reset_wheel_gesture();
        }
        self.direction = Some(direction);
        self.last_input_time_bits = Some(context.now_bits);
        let at_edge = match direction {
            WheelDirection::Up => context.at_top,
            WheelDirection::Down => context.at_bottom,
        };
        if !at_edge {
            self.accumulated_bits = 0;
            return WheelOutcome::Nothing;
        }
        match event.unit {
            WheelUnit::Line | WheelUnit::Page => {
                // One notch is one page, whatever number the platform gives it.
                self.accumulated_bits = 0;
                self.latched = false;
                WheelOutcome::Turn(direction)
            },
            WheelUnit::Point => if self.latched {
                WheelOutcome::Nothing
            } else {
                WheelOutcome::Accumulate(direction)
            },
        }
    }

    /// Takes the gesture's new distance; far enough, it turns a page, once.
    pub fn wheel_accumulated(&mut self, sum_bits: u32, reached: bool) -> (res: bool)
        ensures
            res == reached,
            *final(self) == (if reached {
                SinglePageWheelState { accumulated_bits: 0, latched: true, ..*old(self) }
            } else {
                SinglePageWheelState { accumulated_bits: sum_bits, ..*old(self) }
            }),
            reached ==> final(self).latched && final(self).accumulated_bits == 0,
            !reached ==> final(self).latched == old(self).latched
                && final(self).accumulated_bits == sum_bits,
            final(self).direction == old(self).direction,
            final(self).last_input_time_bits == old(self).last_input_time_bits,
    {
        if reached {
            self.accumulated_bits = 0;
            self.latched = true;
        } else {
            self.accumulated_bits = sum_bits;
        }
        reached
    }
}

/// The pages to turn in a frame. An enlarged page turns at most once: the next one starts at
/// its other edge.
pub fn wheel_page_steps(steps: isize, page_fits_vertically: bool) -> (res: isize)
    ensures
        res == (if page_fits_vertically {
            steps as int
        } else if steps > 0 {
            1
        } else if steps < 0 {
            -1
        } else {
            0
        }),
        (res > 0) == (steps > 0),
        (res < 0) == (steps < 0),
        !page_fits_vertically ==> -1 <= res <= 1,
        page_fits_vertically || -1 <= steps <= 1 ==> res == steps,
{
    if page_fits_vertically {
        steps
    } else if steps > 0 {
        1
    } else if steps < 0 {
        -1
    } else {
        0
    }
}

/// A view restored from a session is remembered as that session had it.
pub proof fn restored_view_is_remembered(saved: SessionView)
    ensures
        ViewState::restored(saved).remembered() == saved,
{
}

/// In a document that became shorter, a restored view is remembered at the last page, at the
/// same point and with the same zoom.
pub proof fn clamped_view_is_remembered_within_the_document(saved: SessionView, page_count: int)
    ensures
        ViewState::restored(saved).clamped(page_count).remembered() == (SessionView {
            page_index: clamped_page(saved.page_index, page_count),
            ..saved
        }),
{
}

/// Clamping keeps every page index within the document, and a second time changes nothing.
pub proof fn clamping_is_idempotent(view: ViewState, page_count: int)
    ensures
        view.clamped(page_count).clamped(page_count) == view.clamped(page_count),
        page_count > 0 ==> view.clamped(page_count).current_page < page_count,
{
}

/// Going to single page mode and back keeps the point in the middle of the view.
pub proof fn switching_back_keeps_the_center(view: ViewState)
    requires
        view.display_mode is Continuous,
        view.center_anchor is Some,
    ensures
        view.switched(DisplayMode::SinglePage).current_page == view.center_anchor->0.page_index,
        view.switched(DisplayMode::SinglePage).switched(DisplayMode::Continuous).center_anchor
            == view.center_anchor,
        view.switched(DisplayMode::SinglePage).switched(DisplayMode::Continuous).restore_anchor
            == view.center_anchor,
{
}

/// Turning pages, jumping and switching modes leave the render generation alone.
pub proof fn navigation_keeps_the_generation(
    view: ViewState,
    page: usize,
    anchor: PageAnchor,
    mode: DisplayMode,
    page_count: int,
)
    ensures
        view.at_page(page).generation == view.generation,
        view.at_match(anchor).generation == view.generation,
        view.switched(mode).generation == view.generation,
        view.clamped(page_count).generation == view.generation,
{
}

/// A latched gesture turns no further page until it ends, pauses or reverses.
pub proof fn a_latched_gesture_turns_no_page(
    state: SinglePageWheelState,
    event: WheelEvent,
    context: WheelContext,
)
    requires
        state.latched,
        event.unit is Point,
        event.phase is Move,
        event.vertical == state.direction,
    ensures
        wheel_after(state, event, context).1 is Nothing,
        wheel_after(state, event, context).0.latched,
{
}

} // verus!
