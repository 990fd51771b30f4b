//! How numbers compare, which tiles a page needs, and in which order they come.
use crate::numbers::{at_most, below, total_place, RectBits};
use crate::rendering::{
    priority_of, requests_for, single_page_requests, tile_key, tiles_meeting, PlacedTile,
    RenderFrame, RenderPriority, TileCacheKey, TileRequest, TileSpec,
};
use crate::tiles::{
    in_painting_order, nearer, nearest, nearest_is_nearest, painting_order, painting_order_sorts,
    provisional_tiles, requested_keys, same_scale, stand_ins, stands_in, PageIdentity,
    ProvisionalTile, TileBookView,
};
use vstd::prelude::*;

verus! {

/// Patterns of positive numbers compare as the patterns do, those of negative numbers the other way
/// round; a negative number is below a positive one, and both zeros are the same number.
pub proof fn numbers_compare_as_floats_do(a: u32, b: u32)
    ensures
        a <= 0x7F80_0000 && b <= 0x7F80_0000 ==> below(a, b) == (a < b) && at_most(a, b) == (a
            <= b),
        0x8000_0000 <= a <= 0xFF80_0000 && 0x8000_0000 <= b <= 0xFF80_0000 ==> below(a, b) == (a
            > b) && at_most(a, b) == (a >= b),
        0x8000_0000 < a <= 0xFF80_0000 && b <= 0x7F80_0000 ==> below(a, b) && !at_most(b, a),
        a == 0x8000_0000 && b == 0 ==> at_most(a, b) && at_most(b, a) && !below(a, b) && !below(
            b,
            a,
        ),
{
}

/// What is not a number is neither below nor at most anything, nor anything below or at most it.
pub proof fn what_is_no_number_compares_with_nothing(a: u32, b: u32)
    requires
        0x7F80_0000 < a < 0x8000_0000 || a > 0xFF80_0000,
    ensures
        !below(a, b),
        !below(b, a),
        !at_most(a, b),
        !at_most(b, a),
{
}

/// The total order lists every pattern: first the negative ones, the largest magnitude first, then
/// the positive ones, the smallest magnitude first. No two patterns stand in one place.
pub proof fn the_total_order_tells_all_patterns_apart(a: u32, b: u32)
    ensures
        a >= 0x8000_0000 && b < 0x8000_0000 ==> total_place(a) < total_place(b),
        a < 0x8000_0000 && b < 0x8000_0000 ==> (total_place(a) < total_place(b)) == (a < b),
        a >= 0x8000_0000 && b >= 0x8000_0000 ==> (total_place(a) < total_place(b)) == (a > b),
        (total_place(a) == total_place(b)) == (a == b),
        below(a, b) ==> total_place(a) < total_place(b),
{
}

/// Two proper rectangles meet exactly if they share a point.
pub proof fn rectangles_meet_in_a_point(a: RectBits, b: RectBits)
    requires
        at_most(a.left, a.right) && at_most(a.top, a.bottom),
        at_most(b.left, b.right) && at_most(b.top, b.bottom),
    ensures
        a.meets(b) == exists|x: u32, y: u32| #[trigger] a.holds(x, y) && b.holds(x, y),
{
    if a.meets(b) {
        let x = if at_most(a.left, b.left) { b.left } else { a.left };
        let y = if at_most(a.top, b.top) { b.top } else { a.top };
        assert(a.holds(x, y) && b.holds(x, y));
    }
}

/// A rectangle holds its corners and nothing outside its edges.
pub proof fn rectangles_hold_what_is_within(rect: RectBits, x: u32, y: u32)
    requires
        at_most(rect.left, rect.right) && at_most(rect.top, rect.bottom),
    ensures
        rect.holds(rect.left, rect.top),
        rect.holds(rect.right, rect.bottom),
        below(x, rect.left) || below(rect.right, x) || below(y, rect.top) || below(rect.bottom, y)
            ==> !rect.holds(x, y),
        at_most(rect.left, x) && at_most(x, rect.right) && at_most(rect.top, y) && at_most(
            y,
            rect.bottom,
        ) ==> rect.holds(x, y),
{
}

/// A tile is visible exactly if it meets what is seen. One that lies below it or to its right is
/// for the next view, any other for the previous one.
pub proof fn tiles_behind_come_next(tile: RectBits, viewport: RectBits)
    ensures
        (priority_of(tile, viewport) is Visible) == tile.meets(viewport),
        (priority_of(tile, viewport) is NextViewport) == (!tile.meets(viewport) && (at_most(
            viewport.bottom,
            tile.top,
        ) || at_most(viewport.right, tile.left))),
        !(priority_of(tile, viewport) is CurrentViewport),
{
}

/// What is seen comes first, then the rest of the page, then what comes next, then what came
/// before.
pub proof fn what_is_seen_is_most_urgent()
    ensures
        RenderPriority::Visible.rank() < RenderPriority::CurrentViewport.rank()
            < RenderPriority::NextViewport.rank() < RenderPriority::PreviousViewport.rank(),
{
}

/// Of two lists one behind the other, the tiles that meet the request are those of the first and
/// then those of the second; a single tile stays exactly if it meets it.
pub proof fn tiles_meet_one_by_one(
    first: Seq<PlacedTile>,
    rest: Seq<PlacedTile>,
    request: RectBits,
)
    ensures
        tiles_meeting(first + rest, request, (first + rest).len() as int) == tiles_meeting(
            first,
            request,
            first.len() as int,
        ) + tiles_meeting(rest, request, rest.len() as int),
        rest.len() == 1 ==> tiles_meeting(rest, request, 1) == (if rest[0].rect.meets(request) {
            rest
        } else {
            seq![]
        }),
    decreases rest.len(),
{
    let all = first + rest;
    if rest.len() == 0 {
        assert(all =~= first);
        assert(tiles_meeting(first, request, first.len() as int) + seq![] =~= tiles_meeting(
            first,
            request,
            first.len() as int,
        ));
    } else {
        let shorter = rest.drop_last();
        tiles_meet_one_by_one(first, shorter, request);
        prefix_meets_alike(all, first + shorter, request, (all.len() - 1) as int);
        prefix_meets_alike(rest, shorter, request, (rest.len() - 1) as int);
        assert(tiles_meeting(all, request, all.len() as int) =~= tiles_meeting(
            first,
            request,
            first.len() as int,
        ) + tiles_meeting(rest, request, rest.len() as int));
    }
    if rest.len() == 1 {
        reveal_with_fuel(tiles_meeting, 2);
        assert(rest =~= seq![rest[0]]);
        assert(Seq::<PlacedTile>::empty().push(rest[0]) =~= rest);
    }
}

proof fn prefix_meets_alike(
    a: Seq<PlacedTile>,
    b: Seq<PlacedTile>,
    request: RectBits,
    count: int,
)
    requires
        0 <= count <= a.len(),
        count <= b.len(),
        forall|i: int| 0 <= i < count ==> #[trigger] a[i] == b[i],
    ensures
        tiles_meeting(a, request, count) == tiles_meeting(b, request, count),
    decreases count,
{
    if count > 0 {
        prefix_meets_alike(a, b, request, count - 1);
        assert(a[count - 1] == b[count - 1]);
    }
}

/// Every request of a single page view is for the frame it was made in, and for the page, the next
/// one or the one before it. What is seen of the page comes with the first priority, the rest of
/// the page with the second; its neighbours come with the priority of their side, the next page
/// before the previous one, and only where they exist.
pub proof fn neighbours_are_rendered_ahead(
    frame: RenderFrame,
    page_count: int,
    page_index: usize,
    current: Seq<(TileSpec, RenderPriority)>,
    next: Seq<TileSpec>,
    previous: Seq<TileSpec>,
    i: int,
)
    requires
        page_index < page_count <= usize::MAX,
        0 <= i < single_page_requests(frame, page_count, page_index, current, next, previous).len(),
    ensures
        ({
            let requests = single_page_requests(
                frame,
                page_count,
                page_index,
                current,
                next,
                previous,
            );
            let request = requests[i];
            let ahead = if page_index + 1 < page_count {
                next.len() as int
            } else {
                0
            };
            let behind = if page_index > 0 {
                previous.len() as int
            } else {
                0
            };
            &&& requests.len() == current.len() + ahead + behind
            &&& request.zoom_bits == frame.zoom_bits
            &&& request.pixels_per_point_bits == frame.pixels_per_point_bits
            &&& request.scale_bits == frame.scale_bits
            &&& request.generation == frame.generation
            &&& request.expected_revision == frame.revision
            &&& i < current.len() ==> request.page_index == page_index && request.spec
                == current[i].0 && (request.priority is Visible) == (current[i].1 is Visible) && (
            request.priority is Visible || request.priority is CurrentViewport)
            &&& current.len() <= i < current.len() + ahead ==> request.page_index == page_index + 1
                && request.spec == next[i - current.len()] && request.priority is NextViewport
            &&& current.len() + ahead <= i ==> request.page_index == page_index - 1 && request.spec
                == previous[i - current.len() - ahead] && request.priority is PreviousViewport
        }),
{
}

/// A page that does not exist needs no tiles.
pub proof fn no_page_needs_no_tiles(
    frame: RenderFrame,
    page_count: int,
    page_index: usize,
    current: Seq<(TileSpec, RenderPriority)>,
    next: Seq<TileSpec>,
    previous: Seq<TileSpec>,
)
    requires
        page_index >= page_count,
    ensures
        single_page_requests(frame, page_count, page_index, current, next, previous).len() == 0,
{
}

/// A tile is asked for in the place, at the scale and in the order that it was listed.
pub proof fn requests_keep_the_order(
    frame: RenderFrame,
    page_index: usize,
    tiles: Seq<(TileSpec, RenderPriority)>,
    i: int,
)
    requires
        0 <= i < tiles.len(),
    ensures
        requests_for(frame, page_index, tiles).len() == tiles.len(),
        requests_for(frame, page_index, tiles)[i].spec == tiles[i].0,
        requests_for(frame, page_index, tiles)[i].priority == tiles[i].1,
        requests_for(frame, page_index, tiles)[i].page_index == page_index,
        requests_for(frame, page_index, tiles)[i].zoom_bits == frame.zoom_bits,
        requests_for(frame, page_index, tiles)[i].pixels_per_point_bits
            == frame.pixels_per_point_bits,
        requests_for(frame, page_index, tiles)[i].scale_bits == frame.scale_bits,
        requests_for(frame, page_index, tiles)[i].generation == frame.generation,
        requests_for(frame, page_index, tiles)[i].expected_revision == frame.revision,
{
}

/// Whether some request among the first `count` is for a tile.
pub open spec fn asks_for(
    document_id: u64,
    requests: Seq<TileRequest>,
    count: int,
    visible_only: bool,
    key: TileCacheKey,
) -> bool {
    exists|i: int|
        0 <= i < count && tile_key(document_id, #[trigger] requests[i]) == key && (visible_only
            ==> requests[i].priority is Visible)
}

/// The tiles of a frame are exactly those that it asks for, the visible ones those that it asks for
/// as visible.
pub proof fn a_frame_wants_what_it_asks_for(
    document_id: u64,
    requests: Seq<TileRequest>,
    visible_only: bool,
    count: int,
    key: TileCacheKey,
)
    requires
        0 <= count <= requests.len(),
    ensures
        requested_keys(document_id, requests, visible_only, count).contains(key) == asks_for(
            document_id,
            requests,
            count,
            visible_only,
            key,
        ),
    decreases count,
{
    if count > 0 {
        a_frame_wants_what_it_asks_for(document_id, requests, visible_only, count - 1, key);
        let last = requests[count - 1];
        if asks_for(document_id, requests, count, visible_only, key) {
            let i = choose|i: int|
                0 <= i < count && tile_key(document_id, #[trigger] requests[i]) == key && (
                visible_only ==> requests[i].priority is Visible);
            if i < count - 1 {
                assert(tile_key(document_id, requests[i]) == key);
            }
        }
        if asks_for(document_id, requests, count - 1, visible_only, key) {
            let i = choose|i: int|
                0 <= i < count - 1 && tile_key(document_id, #[trigger] requests[i]) == key && (
                visible_only ==> requests[i].priority is Visible);
            assert(tile_key(document_id, requests[i]) == key);
        }
        if tile_key(document_id, last) == key && (visible_only ==> last.priority is Visible) {
            assert(tile_key(document_id, requests[count - 1]) == key);
        }
    }
}

/// A new frame keeps waiting for the tiles that it still asks for, and for no others; what was
/// rendered stays.
pub proof fn a_frame_drops_what_it_does_not_ask_for(
    book: TileBookView,
    requests: Seq<TileRequest>,
    key: TileCacheKey,
)
    ensures
        ({
            let after = book.framed(requests);
            let wanted = asks_for(book.document_id, requests, requests.len() as int, false, key);
            &&& after.wanted.contains(key) == wanted
            &&& after.visible.contains(key) == asks_for(
                book.document_id,
                requests,
                requests.len() as int,
                true,
                key,
            )
            &&& after.pending.dom().contains(key) == (book.pending.dom().contains(key) && wanted)
            &&& after.pending.dom().contains(key) ==> after.pending[key] == book.pending[key]
            &&& after.cached == book.cached
            &&& after.prefetched == book.prefetched
            &&& after.document_id == book.document_id
        }),
{
    let count = requests.len() as int;
    a_frame_wants_what_it_asks_for(book.document_id, requests, false, count, key);
    a_frame_wants_what_it_asks_for(book.document_id, requests, true, count, key);
}

/// A tile is asked for exactly if it is not there and not under way already; one that is under way
/// is asked for again only where it became more urgent.
pub proof fn tiles_are_asked_for_once(book: TileBookView, request: TileRequest)
    ensures
        ({
            let key = tile_key(book.document_id, request);
            &&& book.cached.contains(key) ==> !book.needs(request)
            &&& !book.cached.contains(key) && !book.pending.dom().contains(key) ==> book.needs(
                request,
            )
            &&& book.pending.dom().contains(key) && book.pending[key].priority == request.priority
                ==> !book.needs(request)
            &&& !book.cached.contains(key) && request.priority is Visible && book.pending.dom().contains(
                key,
            ) && !(book.pending[key].priority is Visible) ==> book.needs(request)
            &&& !(request.priority is Visible) && book.pending.dom().contains(key)
                && book.pending[key].priority is Visible ==> !book.needs(request)
        }),
{
}

/// Nothing is waited for or wanted any more; what was rendered stays.
pub proof fn a_quiet_book_keeps_its_tiles(book: TileBookView, key: TileCacheKey)
    ensures
        !book.quiet().pending.dom().contains(key),
        !book.quiet().wanted.contains(key),
        !book.quiet().visible.contains(key),
        book.quiet().cached == book.cached,
        book.quiet().prefetched == book.prefetched,
        book.quiet().document_id == book.document_id,
{
}

/// Tiles are painted from top to bottom, and from left to right within a row.
pub proof fn tiles_are_painted_in_reading_order(keys: Seq<TileCacheKey>, i: int, j: int)
    requires
        0 <= i < j < painting_order(keys, keys.len() as int).len(),
    ensures
        ({
            let order = painting_order(keys, keys.len() as int);
            &&& order[i].spec.pixel_y <= order[j].spec.pixel_y
            &&& order[i].spec.pixel_y == order[j].spec.pixel_y ==> order[i].spec.pixel_x
                <= order[j].spec.pixel_x
        }),
{
    painting_order_sorts(keys, keys.len() as int);
    let order = painting_order(keys, keys.len() as int);
    assert(in_painting_order(order));
    assert(order[i] == order[i] && order[j] == order[j]);
}

proof fn stand_ins_are(tiles: Seq<ProvisionalTile>, page: PageIdentity, count: int, k: int)
    requires
        0 <= count <= tiles.len(),
    ensures
        0 <= k < stand_ins(tiles, page, count).len() ==> stands_in(
            stand_ins(tiles, page, count)[k].key,
            page,
        ) && tiles.contains(stand_ins(tiles, page, count)[k]),
        0 <= k < count && stands_in(tiles[k].key, page) ==> stand_ins(tiles, page, count).contains(
            tiles[k],
        ),
    decreases count,
{
    if count > 0 {
        stand_ins_are(tiles, page, count - 1, k);
        let before = stand_ins(tiles, page, count - 1);
        let all = stand_ins(tiles, page, count);
        assert(tiles.contains(tiles[count - 1]));
        if 0 <= k < count - 1 && stands_in(tiles[k].key, page) {
            let at = choose|at: int| 0 <= at < before.len() && before[at] == tiles[k];
            assert(all[at] == tiles[k]);
        }
        if k == count - 1 && stands_in(tiles[k].key, page) {
            assert(all[before.len() as int] == tiles[k]);
        }
    }
}

proof fn same_scale_is(tiles: Seq<ProvisionalTile>, chosen: TileCacheKey, count: int, k: int)
    requires
        0 <= count <= tiles.len(),
    ensures
        0 <= k < same_scale(tiles, chosen, count).len() ==> ({
            let key = same_scale(tiles, chosen, count)[k];
            &&& key.zoom_bits == chosen.zoom_bits
            &&& key.pixels_per_point_bits == chosen.pixels_per_point_bits
            &&& exists|i: int| 0 <= i < count && (#[trigger] tiles[i]).key == key
        }),
        0 <= k < count && tiles[k].key.zoom_bits == chosen.zoom_bits
            && tiles[k].key.pixels_per_point_bits == chosen.pixels_per_point_bits ==> same_scale(
            tiles,
            chosen,
            count,
        ).contains(tiles[k].key),
    decreases count,
{
    if count > 0 {
        same_scale_is(tiles, chosen, count - 1, k);
        let before = same_scale(tiles, chosen, count - 1);
        let all = same_scale(tiles, chosen, count);
        let last = tiles[count - 1];
        if 0 <= k < before.len() {
            let i = choose|i: int| 0 <= i < count - 1 && (#[trigger] tiles[i]).key == before[k];
            assert(tiles[i].key == all[k]);
        }
        if k == before.len() && k < all.len() {
            assert(tiles[count - 1].key == all[k]);
        }
        if 0 <= k < count - 1 && tiles[k].key.zoom_bits == chosen.zoom_bits
            && tiles[k].key.pixels_per_point_bits == chosen.pixels_per_point_bits {
            let at = choose|at: int| 0 <= at < before.len() && before[at] == tiles[k].key;
            assert(all[at] == tiles[k].key);
        }
        if k == count - 1 && last.key.zoom_bits == chosen.zoom_bits
            && last.key.pixels_per_point_bits == chosen.pixels_per_point_bits {
            assert(all[before.len() as int] == tiles[k].key);
        }
    }
}

proof fn ordered_contains(keys: Seq<TileCacheKey>, key: TileCacheKey)
    ensures
        painting_order(keys, keys.len() as int).contains(key) == keys.contains(key),
{
    let count = keys.len() as int;
    painting_order_sorts(keys, count);
    assert(keys.take(count) =~= keys);
    keys.to_multiset_ensures();
    painting_order(keys, count).to_multiset_ensures();
    assert(keys.to_multiset().count(key) > 0 <==> keys.contains(key));
}

/// What stands in for a page is rendered from the same revision and page of the same document at
/// another scale. All of it is of one scale, the nearest there is, and none of that scale is left
/// out.
pub proof fn stand_ins_are_of_the_nearest_scale(
    tiles: Seq<ProvisionalTile>,
    page: PageIdentity,
    k: int,
    other: int,
)
    requires
        0 <= k < provisional_tiles(tiles, page).len(),
        0 <= other < tiles.len(),
        stands_in(tiles[other].key, page),
    ensures
        ({
            let shown = provisional_tiles(tiles, page);
            let key = shown[k];
            &&& key.document_id == page.document_id
            &&& key.page_index == page.page_index
            &&& key.revision == page.revision
            &&& key.rotation_quarter_turns == page.rotation_quarter_turns
            &&& key.zoom_bits != page.zoom_bits || key.pixels_per_point_bits
                != page.pixels_per_point_bits
            &&& tiles[other].key.zoom_bits == key.zoom_bits
                && tiles[other].key.pixels_per_point_bits == key.pixels_per_point_bits
                ==> shown.contains(tiles[other].key)
            &&& exists|i: int|
                0 <= i < tiles.len() && (#[trigger] tiles[i]).key.zoom_bits == key.zoom_bits
                    && tiles[i].key.pixels_per_point_bits == key.pixels_per_point_bits && stands_in(
                    tiles[i].key,
                    page,
                ) && !nearer(tiles[other], tiles[i])
        }),
{
    let count = tiles.len() as int;
    let candidates = stand_ins(tiles, page, count);
    stand_ins_are(tiles, page, count, other);
    let at = choose|at: int| 0 <= at < candidates.len() && candidates[at] == tiles[other];
    let total = candidates.len() as int;
    let best = nearest(candidates, total);
    nearest_is_nearest(candidates, total, at);
    let chosen = candidates[best].key;
    let kept = same_scale(candidates, chosen, total);
    let shown = provisional_tiles(tiles, page);
    assert(shown == painting_order(kept, kept.len() as int));
    assert(shown.contains(shown[k]));
    ordered_contains(kept, shown[k]);
    let j = choose|j: int| 0 <= j < kept.len() && kept[j] == shown[k];
    same_scale_is(candidates, chosen, total, j);
    let i = choose|i: int| 0 <= i < total && (#[trigger] candidates[i]).key == kept[j];
    stand_ins_are(tiles, page, count, i);
    stand_ins_are(tiles, page, count, best);
    let from = choose|from: int| 0 <= from < tiles.len() && tiles[from] == candidates[best];
    assert(tiles[from].key.zoom_bits == shown[k].zoom_bits);
    same_scale_is(candidates, chosen, total, at);
    ordered_contains(kept, tiles[other].key);
}

/// Something stands in for a page exactly if anything can.
pub proof fn something_stands_in_if_anything_can(
    tiles: Seq<ProvisionalTile>,
    page: PageIdentity,
    k: int,
)
    requires
        0 <= k < tiles.len(),
        stands_in(tiles[k].key, page),
    ensures
        provisional_tiles(tiles, page).len() > 0,
{
    let count = tiles.len() as int;
    let candidates = stand_ins(tiles, page, count);
    stand_ins_are(tiles, page, count, k);
    let total = candidates.len() as int;
    assert(total > 0);
    nearest_is_nearest(candidates, total, 0);
    let best = nearest(candidates, total);
    let chosen = candidates[best].key;
    let kept = same_scale(candidates, chosen, total);
    same_scale_is(candidates, chosen, total, best);
    ordered_contains(kept, chosen);
    assert(provisional_tiles(tiles, page).contains(chosen));
}

} // verus!
