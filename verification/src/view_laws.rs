//! What moving in a document does to the view, and what a session keeps of it.
use crate::session::{DisplayMode, SessionView};
use crate::view::{
    autoscroll_after, page_reached, wheel_after, AutoscrollInput, AutoscrollState, PageAnchor,
    PointBits, SinglePageWheelState, ViewState, WheelContext, WheelDirection, WheelEvent,
    WheelOutcome,
};
use vstd::prelude::*;

verus! {

/// In continuous mode a session keeps the point in the middle of the view, whatever point was to
/// be brought back before.
pub proof fn the_middle_of_the_view_is_kept(view: ViewState)
    requires
        view.display_mode is Continuous,
        view.scroll_to_page is None,
        view.center_anchor is Some,
    ensures
        view.remembered().page_index == view.center_anchor->0.page_index,
        view.remembered().page_x_bits == view.center_anchor->0.x_bits,
        view.remembered().page_y_bits == view.center_anchor->0.y_bits,
{
}

/// A page that is still being scrolled to counts as reached: a session keeps its middle, and
/// not the point that the view has not left yet.
pub proof fn the_page_being_scrolled_to_is_kept(view: ViewState)
    requires
        view.display_mode is Continuous,
        view.scroll_to_page is Some,
    ensures
        view.remembered().page_index == view.scroll_to_page->0,
        view.remembered().page_x_bits == 0x3F00_0000,
        view.remembered().page_y_bits == 0x3F00_0000,
{
}

/// Before anything was laid out, a session keeps the point that is to be brought back, and
/// without one the middle of the page.
pub proof fn the_point_to_bring_back_is_kept(view: ViewState)
    requires
        view.display_mode is Continuous,
        view.scroll_to_page is None,
        view.center_anchor is None,
    ensures
        view.restore_anchor is Some ==> view.remembered().page_index
            == view.restore_anchor->0.page_index && view.remembered().page_x_bits
            == view.restore_anchor->0.x_bits && view.remembered().page_y_bits
            == view.restore_anchor->0.y_bits,
        view.restore_anchor is None ==> view.remembered().page_index == view.current_page
            && view.remembered().page_x_bits == 0x3F00_0000 && view.remembered().page_y_bits
            == 0x3F00_0000,
{
}

/// In single page mode a session keeps the page that is shown, with the point in its middle,
/// else the one to bring back, else the middle of the page.
pub proof fn the_shown_page_is_kept(view: ViewState)
    requires
        view.display_mode is SinglePage,
    ensures
        view.remembered().page_index == view.current_page,
        view.single_center_anchor is Some ==> view.remembered().page_x_bits
            == view.single_center_anchor->0.x_bits && view.remembered().page_y_bits
            == view.single_center_anchor->0.y_bits,
        view.single_center_anchor is None && view.restore_single_anchor is Some
            ==> view.remembered().page_x_bits == view.restore_single_anchor->0.x_bits
            && view.remembered().page_y_bits == view.restore_single_anchor->0.y_bits,
        view.single_center_anchor is None && view.restore_single_anchor is None
            ==> view.remembered().page_x_bits == 0x3F00_0000 && view.remembered().page_y_bits
            == 0x3F00_0000,
{
}

/// A session keeps the display mode and the zoom as they are.
pub proof fn display_and_zoom_are_kept(view: ViewState)
    ensures
        view.remembered().display == view.display_mode,
        view.remembered().zoom_mode == view.zoom_mode,
        view.remembered().zoom_bits == view.zoom_bits,
{
}

/// A new document is shown from its first page on, continuously and as wide as the window.
pub proof fn a_new_view_starts_at_the_first_page()
    ensures
        ViewState::fresh().current_page == 0,
        ViewState::fresh().scroll_to_page == Some(0usize),
        ViewState::fresh().display_mode is Continuous,
        ViewState::fresh().zoom_mode is FitWidth,
        ViewState::fresh().zoom_bits == 0x3F80_0000,
        ViewState::fresh().center_anchor is None,
        ViewState::fresh().restore_anchor is None,
        ViewState::fresh().single_center_anchor is None,
        ViewState::fresh().restore_single_anchor is None,
        ViewState::fresh().autoscroll is None,
        ViewState::fresh().pan_requested_offset is None,
        ViewState::fresh().render_pixels_per_point_bits is None,
        !ViewState::fresh().single_wheel.latched,
        ViewState::fresh().single_wheel.direction is None,
        ViewState::fresh().generation > 0,
{
}

/// A view that a session describes comes back to the point that the session names: only the
/// anchors of its own display mode are set, and nothing is being scrolled to.
pub proof fn a_restored_view_comes_back_to_its_point(saved: SessionView)
    ensures
        ({
            let view = ViewState::restored(saved);
            let anchor = PageAnchor {
                page_index: saved.page_index,
                x_bits: saved.page_x_bits,
                y_bits: saved.page_y_bits,
            };
            let point = PointBits { x_bits: saved.page_x_bits, y_bits: saved.page_y_bits };
            &&& view.current_page == saved.page_index
            &&& view.display_mode == saved.display
            &&& view.zoom_mode == saved.zoom_mode
            &&& view.zoom_bits == saved.zoom_bits
            &&& view.scroll_to_page is None
            &&& saved.display is Continuous ==> view.restore_anchor == Some(anchor)
                && view.center_anchor == Some(anchor) && view.restore_single_anchor is None
                && view.single_center_anchor is None
            &&& saved.display is SinglePage ==> view.restore_single_anchor == Some(point)
                && view.single_center_anchor == Some(point) && view.restore_anchor is None
                && view.center_anchor is None
            &&& view.autoscroll is None
            &&& view.pan_requested_offset is None
            &&& view.render_pixels_per_point_bits is None
            &&& view.generation == ViewState::fresh().generation
        }),
{
}

/// Every page that a view names is within the document afterwards: one that was within stays,
/// one behind the end becomes the last page. Nothing else changes.
pub proof fn clamping_moves_only_what_is_outside(view: ViewState, page_count: int)
    requires
        0 < page_count <= usize::MAX,
    ensures
        ({
            let after = view.clamped(page_count);
            &&& view.current_page < page_count ==> after.current_page == view.current_page
            &&& view.current_page >= page_count ==> after.current_page == page_count - 1
            &&& (after.scroll_to_page is Some) == (view.scroll_to_page is Some)
            &&& view.scroll_to_page is Some && view.scroll_to_page->0 < page_count
                ==> after.scroll_to_page == view.scroll_to_page
            &&& view.scroll_to_page is Some && view.scroll_to_page->0 >= page_count
                ==> after.scroll_to_page->0 == page_count - 1
            &&& (after.center_anchor is Some) == (view.center_anchor is Some)
            &&& view.center_anchor is Some && view.center_anchor->0.page_index < page_count
                ==> after.center_anchor == view.center_anchor
            &&& view.center_anchor is Some && view.center_anchor->0.page_index >= page_count
                ==> after.center_anchor->0.page_index == page_count - 1
                && after.center_anchor->0.x_bits == view.center_anchor->0.x_bits
                && after.center_anchor->0.y_bits == view.center_anchor->0.y_bits
            &&& (after.restore_anchor is Some) == (view.restore_anchor is Some)
            &&& view.restore_anchor is Some && view.restore_anchor->0.page_index < page_count
                ==> after.restore_anchor == view.restore_anchor
            &&& view.restore_anchor is Some && view.restore_anchor->0.page_index >= page_count
                ==> after.restore_anchor->0.page_index == page_count - 1
                && after.restore_anchor->0.x_bits == view.restore_anchor->0.x_bits
                && after.restore_anchor->0.y_bits == view.restore_anchor->0.y_bits
            &&& after == (ViewState {
                current_page: after.current_page,
                scroll_to_page: after.scroll_to_page,
                center_anchor: after.center_anchor,
                restore_anchor: after.restore_anchor,
                ..view
            })
        }),
{
}

/// In the other display mode the same point of the document stands in the middle, and is kept
/// there: a session that is written next keeps the same point.
pub proof fn switching_keeps_the_point(view: ViewState, mode: DisplayMode)
    requires
        view.display_mode != mode,
        view.scroll_to_page is None,
        view.display_mode is Continuous ==> view.center_anchor is Some,
        view.display_mode is SinglePage ==> view.single_center_anchor is Some,
    ensures
        view.switched(mode).display_mode == mode,
        view.switched(mode).remembered().page_index == view.remembered().page_index,
        view.switched(mode).remembered().page_x_bits == view.remembered().page_x_bits,
        view.switched(mode).remembered().page_y_bits == view.remembered().page_y_bits,
        view.switched(mode).remembered().zoom_bits == view.zoom_bits,
        view.switched(mode).remembered().zoom_mode == view.zoom_mode,
        mode is Continuous ==> view.switched(mode).restore_anchor == view.switched(
            mode,
        ).center_anchor,
        mode is SinglePage ==> view.switched(mode).restore_single_anchor == view.switched(
            mode,
        ).single_center_anchor,
{
}

/// Without a point in the middle, the other display mode shows the middle of the same page.
pub proof fn switching_without_a_point_keeps_the_page(view: ViewState, mode: DisplayMode)
    requires
        view.display_mode != mode,
        view.center_anchor is None,
        view.single_center_anchor is None,
    ensures
        view.switched(mode).remembered().page_index == view.current_page,
        view.switched(mode).remembered().page_x_bits == 0x3F00_0000,
        view.switched(mode).remembered().page_y_bits == 0x3F00_0000,
        view.switched(mode).current_page == view.current_page,
{
}

/// Another display mode ends what was under way in the old one, and a switch to the mode that
/// is shown already changes nothing.
pub proof fn switching_ends_gestures(view: ViewState, mode: DisplayMode)
    ensures
        view.display_mode == mode ==> view.switched(mode) == view,
        view.display_mode != mode ==> view.switched(mode).scroll_to_page is None
            && view.switched(mode).autoscroll is None && view.switched(
            mode,
        ).pan_requested_offset is None,
        view.switched(mode).display_mode == mode,
        view.switched(mode).zoom_bits == view.zoom_bits,
        view.switched(mode).zoom_mode == view.zoom_mode,
        view.switched(mode).single_wheel == view.single_wheel,
        view.switched(mode).render_pixels_per_point_bits == view.render_pixels_per_point_bits,
{
}

/// Once a page was turned to, a session keeps the middle of that page, in either mode; zoom and
/// mode stay.
pub proof fn a_page_turned_to_is_kept(view: ViewState, page: usize)
    ensures
        ({
            let after = view.at_page(page);
            &&& after.current_page == page
            &&& after.remembered().page_index == page
            &&& after.remembered().page_x_bits == 0x3F00_0000
            &&& after.remembered().page_y_bits == 0x3F00_0000
            &&& after.remembered().zoom_bits == view.zoom_bits
            &&& after.remembered().zoom_mode == view.zoom_mode
            &&& after.display_mode == view.display_mode
            &&& view.display_mode is Continuous ==> after.scroll_to_page == Some(page)
                && after.restore_anchor is None && after.center_anchor == view.center_anchor
                && after.single_center_anchor == view.single_center_anchor
                && after.restore_single_anchor == view.restore_single_anchor
            &&& view.display_mode is SinglePage ==> after.scroll_to_page == view.scroll_to_page
                && after.restore_single_anchor == after.single_center_anchor
                && after.center_anchor == view.center_anchor && after.restore_anchor
                == view.restore_anchor
            &&& after.single_wheel == view.single_wheel
            &&& after.autoscroll == view.autoscroll
            &&& after.pan_requested_offset == view.pan_requested_offset
            &&& after.render_pixels_per_point_bits == view.render_pixels_per_point_bits
            &&& after.generation == view.generation
        }),
{
}

/// A hit that is jumped to is on the current page and comes to the middle: nothing else is
/// scrolled to, and in single page mode a session keeps it at once.
pub proof fn a_hit_comes_to_the_middle(view: ViewState, anchor: PageAnchor)
    ensures
        ({
            let after = view.at_match(anchor);
            &&& after.current_page == anchor.page_index
            &&& after.display_mode == view.display_mode
            &&& view.display_mode is Continuous ==> after.restore_anchor == Some(anchor)
                && after.scroll_to_page is None && after.center_anchor == view.center_anchor
            &&& view.display_mode is SinglePage ==> after.remembered().page_index
                == anchor.page_index && after.remembered().page_x_bits == anchor.x_bits
                && after.remembered().page_y_bits == anchor.y_bits
                && after.restore_single_anchor == after.single_center_anchor
                && after.scroll_to_page == view.scroll_to_page
            &&& after.zoom_bits == view.zoom_bits
            &&& after.zoom_mode == view.zoom_mode
            &&& after.autoscroll == view.autoscroll
            &&& after.single_wheel == view.single_wheel
            &&& after.generation == view.generation
        }),
{
}

/// The point of a page that is turned to is shown and comes back; nothing of the continuous view
/// changes.
pub proof fn a_page_edge_comes_to_the_middle(view: ViewState, page: usize, point: PointBits)
    ensures
        view.at_page_edge(page, point) == (ViewState {
            current_page: page,
            single_center_anchor: Some(point),
            restore_single_anchor: Some(point),
            ..view
        }),
        view.display_mode is SinglePage ==> view.at_page_edge(page, point).remembered().page_index
            == page && view.at_page_edge(page, point).remembered().page_x_bits == point.x_bits
            && view.at_page_edge(page, point).remembered().page_y_bits == point.y_bits,
{
}

/// A view that holds its middle comes back to the point that a session would keep of the shown
/// page.
pub proof fn holding_brings_back_the_middle(view: ViewState)
    ensures
        view.display_mode is Continuous ==> view.holding_center() == (ViewState {
            restore_anchor: view.center_anchor,
            ..view
        }),
        view.display_mode is SinglePage ==> view.holding_center() == (ViewState {
            restore_single_anchor: view.single_center_anchor,
            ..view
        }),
{
}

/// Turning pages stops at both ends of the document and goes exactly as far as asked in between;
/// turning back returns to the page.
pub proof fn turning_pages_stays_within(current: int, page_count: int, delta: int)
    requires
        0 <= current < page_count,
    ensures
        0 <= page_reached(current, page_count, delta) < page_count,
        0 <= current + delta < page_count ==> page_reached(current, page_count, delta) == current
            + delta,
        current + delta < 0 ==> page_reached(current, page_count, delta) == 0,
        current + delta >= page_count ==> page_reached(current, page_count, delta) == page_count
            - 1,
        0 <= current + delta < page_count ==> page_reached(
            page_reached(current, page_count, delta),
            page_count,
            -delta,
        ) == current,
        page_reached(current, page_count, 0) == current,
{
}

/// Autoscroll starts at the place of the middle click and where the view stands; while it runs,
/// any click, Escape or a lost focus ends it, and nothing else does.
pub proof fn autoscroll_runs_from_click_to_click(view: ViewState, input: AutoscrollInput)
    ensures
        view.display_mode is SinglePage ==> autoscroll_after(view, input) is None,
        view.display_mode is Continuous && view.autoscroll is Some ==> (autoscroll_after(
            view,
            input,
        ) == view.autoscroll) == (!input.middle_clicked && !input.primary_clicked
            && !input.secondary_clicked && !input.escape && input.focused),
        view.autoscroll is Some && (input.middle_clicked || input.primary_clicked
            || input.secondary_clicked || input.escape || !input.focused) ==> autoscroll_after(
            view,
            input,
        ) is None,
        view.display_mode is Continuous && view.autoscroll is None ==> (autoscroll_after(
            view,
            input,
        ) is Some) == (input.middle_clicked && input.start_point is Some
            && !input.primary_interaction_in_progress),
        view.autoscroll is None && autoscroll_after(view, input) is Some ==> autoscroll_after(
            view,
            input,
        ) == Some(
            AutoscrollState {
                anchor: input.start_point->0,
                requested_offset: Some(input.current_offset),
            },
        ),
{
}

/// One notch of the wheel turns one page, in the direction of the wheel, exactly where the page
/// already stood at that edge.
pub proof fn a_notch_turns_a_page_at_the_edge(
    state: SinglePageWheelState,
    event: WheelEvent,
    context: WheelContext,
)
    requires
        event.unit is Line || event.unit is Page,
    ensures
        forall|direction: WheelDirection|
            (#[trigger] wheel_after(state, event, context).1 == WheelOutcome::Turn(direction)) == (
            event.vertical == Some(direction) && (event.phase is Start || event.phase is Move)
                && context.pointer_over_view && !event.control_held && (match direction {
                WheelDirection::Up => context.at_top,
                WheelDirection::Down => context.at_bottom,
            })),
        !(wheel_after(state, event, context).1 is Accumulate),
{
}

/// A gesture in points never turns a page by itself: its distance is added up at the edge that
/// it pushes against, unless it turned a page already and neither started anew nor reversed.
pub proof fn a_gesture_adds_up_at_the_edge(
    state: SinglePageWheelState,
    event: WheelEvent,
    context: WheelContext,
)
    requires
        event.unit is Point,
    ensures
        !(wheel_after(state, event, context).1 is Turn),
        forall|direction: WheelDirection|
            (#[trigger] wheel_after(state, event, context).1 == WheelOutcome::Accumulate(
                direction,
            )) == (event.vertical == Some(direction) && (event.phase is Start
                || event.phase is Move) && context.pointer_over_view && !event.control_held && (
            match direction {
                WheelDirection::Up => context.at_top,
                WheelDirection::Down => context.at_bottom,
            }) && (!state.latched || event.phase is Start || (state.direction is Some
                && state.direction->0 != direction))),
{
}

/// The end of a gesture forgets it, wherever the pointer is; an event that is not for the page
/// leaves it as it is. A gesture that goes on remembers its direction and its time.
pub proof fn gestures_end_and_go_on(
    state: SinglePageWheelState,
    event: WheelEvent,
    context: WheelContext,
)
    ensures
        ({
            let after = wheel_after(state, event, context).0;
            let counts = context.pointer_over_view && !event.control_held
                && event.vertical is Some;
            &&& event.phase is End || event.phase is Cancel ==> after.accumulated_bits == 0
                && !after.latched && after.direction is None && after.last_input_time_bits is None
                && wheel_after(state, event, context).1 is Nothing
            &&& (event.phase is Start || event.phase is Move) && !counts ==> after == state
                && wheel_after(state, event, context).1 is Nothing
            &&& (event.phase is Start || event.phase is Move) && counts ==> after.direction
                == event.vertical && after.last_input_time_bits == Some(context.now_bits)
            &&& event.phase is Move && counts && state.direction == event.vertical
                && event.unit is Point ==> after.latched == state.latched && (
            after.accumulated_bits == 0 || after.accumulated_bits == state.accumulated_bits)
            &&& counts && (event.phase is Start || (event.phase is Move && state.direction is Some
                && state.direction != event.vertical)) ==> !after.latched
                && after.accumulated_bits == 0
        }),
{
}

/// The distance that the wheel has gone counts only at an edge of the page: it is forgotten away from
/// it, when the wheel turns the other way, and when a page turned. Only a gesture that goes on at the
/// same edge keeps it.
pub proof fn distance_counts_at_an_edge(
    state: SinglePageWheelState,
    event: WheelEvent,
    context: WheelContext,
    direction: WheelDirection,
)
    requires
        context.pointer_over_view,
        !event.control_held,
        event.vertical == Some(direction),
        event.phase is Start || event.phase is Move,
    ensures
        ({
            let (after, outcome) = wheel_after(state, event, context);
            let at_edge = (direction is Up && context.at_top) || (direction is Down
                && context.at_bottom);
            let anew = event.phase is Start || (state.direction is Some && state.direction->0
                != direction);
            &&& !at_edge ==> after.accumulated_bits == 0 && outcome is Nothing
            &&& outcome is Turn ==> after.accumulated_bits == 0 && !after.latched
            &&& anew ==> after.accumulated_bits == 0 && !after.latched
            &&& at_edge && event.unit is Point && !anew ==> after.accumulated_bits
                == state.accumulated_bits && after.latched == state.latched
            &&& !at_edge && !anew ==> after.latched == state.latched
            &&& after.direction == Some(direction)
            &&& after.last_input_time_bits == Some(context.now_bits)
        }),
{
}

} // verus!
