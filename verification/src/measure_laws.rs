//! What is measured and written down, column by column.
use crate::diagnostics::{
    all_containers, all_queues, capped_sum, display_rows, header_columns, line, row, sample_rows,
    seconds, ContainerCounts, DiagnosticsSnapshot, DocumentDiagnosticsSnapshot, WorkerQueueSnapshot,
};
use crate::document::DocumentView;
use crate::painting::{painted_whole, readiness_of, shows_exactly};
use crate::performance::{PageTransitionPerformance, Painted, RenderPerformance, ZoomPerformance};
use crate::rendering::TileCacheKey;
use crate::sampling::{
    has_grown, high_water_after, is_stable, is_unavailable, phase_text, DiagnosticsPhase,
    DisplayReadiness, DisplayRenderState, SamplingState,
};
use crate::text::{decimal, digit_char, digits_count_in_tens, digits_value};
use crate::tiles::TileBookView;
use vstd::prelude::*;

verus! {

/// Each number stands under the heading that names it.
pub proof fn numbers_stand_under_their_headings(
    kind: Seq<char>,
    phase: Seq<char>,
    event: Seq<char>,
    elapsed: u64,
    snapshot: DiagnosticsSnapshot,
)
    ensures
        ({
            let columns = row(kind, phase, event, elapsed, Some(snapshot), None);
            let names = header_columns();
            &&& names[0] == "row_kind"@ && columns[0] == kind
            &&& names[1] == "phase"@ && columns[1] == phase
            &&& names[2] == "event"@ && columns[2] == event
            &&& names[3] == "elapsed_s"@ && columns[3] == seconds(elapsed)
            &&& names[4] == "physical_mem_bytes"@ && columns[4] == (
            match snapshot.physical_mem_bytes {
                Some(bytes) => decimal(bytes as nat),
                None => seq![],
            })
            &&& names[5] == "gpu_tile_lru_count"@ && columns[5] == decimal(
                snapshot.gpu_tile_lru.count as nat,
            )
            &&& names[6] == "gpu_tile_lru_current_weight_bytes"@ && columns[6] == decimal(
                snapshot.gpu_tile_lru.current_weight_bytes as nat,
            )
            &&& names[7] == "gpu_tile_lru_budget_bytes"@ && columns[7] == decimal(
                snapshot.gpu_tile_lru.budget_bytes as nat,
            )
            &&& names[8] == "thumbnail_lru_count"@ && columns[8] == decimal(
                snapshot.thumbnail_lru.count as nat,
            )
            &&& names[9] == "thumbnail_lru_current_weight_bytes"@ && columns[9] == decimal(
                snapshot.thumbnail_lru.current_weight_bytes as nat,
            )
            &&& names[10] == "thumbnail_lru_budget_bytes"@ && columns[10] == decimal(
                snapshot.thumbnail_lru.budget_bytes as nat,
            )
            &&& names[11] == "tab_count"@ && columns[11] == decimal(
                snapshot.tab_count as nat,
            )
            &&& names[12] == "visible_tab_count"@ && columns[12] == decimal(
                snapshot.visible_tab_count as nat,
            )
            &&& names[13] == "active_document_id"@ && columns[13] == (
            match snapshot.active_document_id {
                Some(id) => decimal(id as nat),
                None => seq![],
            })
            &&& names[14] == "tiles"@ && columns[14] == decimal(
                snapshot.containers.tiles as nat,
            )
            &&& names[15] == "pending_tiles"@ && columns[15] == decimal(
                snapshot.containers.pending_tiles as nat,
            )
            &&& names[16] == "wanted_tiles"@ && columns[16] == decimal(
                snapshot.containers.wanted_tiles as nat,
            )
            &&& names[17] == "visible_tiles"@ && columns[17] == decimal(
                snapshot.containers.visible_tiles as nat,
            )
            &&& names[18] == "thumbnails"@ && columns[18] == decimal(
                snapshot.containers.thumbnails as nat,
            )
            &&& names[19] == "pending_thumbnails"@ && columns[19] == decimal(
                snapshot.containers.pending_thumbnails as nat,
            )
            &&& names[20] == "text_snapshots"@ && columns[20] == decimal(
                snapshot.containers.text_snapshots as nat,
            )
            &&& names[21] == "pending_text_snapshots"@ && columns[21] == decimal(
                snapshot.containers.pending_text_snapshots as nat,
            )
            &&& names[22] == "annotation_pages"@ && columns[22] == decimal(
                snapshot.containers.annotation_pages as nat,
            )
            &&& names[23] == "pending_annotation_pages"@ && columns[23] == decimal(
                snapshot.containers.pending_annotation_pages as nat,
            )
            &&& names[24] == "highlight_index_pages"@ && columns[24] == decimal(
                snapshot.containers.highlight_index_pages as nat,
            )
            &&& names[25] == "highlight_index_items"@ && columns[25] == decimal(
                snapshot.containers.highlight_index_items as nat,
            )
            &&& names[26] == "search_pages"@ && columns[26] == decimal(
                snapshot.containers.search_pages as nat,
            )
            &&& names[27] == "search_matches"@ && columns[27] == decimal(
                snapshot.containers.search_matches as nat,
            )
            &&& names[28] == "foreground_queue"@ && columns[28] == decimal(
                snapshot.worker.foreground as nat,
            )
            &&& names[29] == "current_viewport_queue"@ && columns[29] == decimal(
                snapshot.worker.current_viewport as nat,
            )
            &&& names[30] == "next_viewport_queue"@ && columns[30] == decimal(
                snapshot.worker.next_viewport as nat,
            )
            &&& names[31] == "previous_viewport_queue"@ && columns[31] == decimal(
                snapshot.worker.previous_viewport as nat,
            )
            &&& names[32] == "background_queue"@ && columns[32] == decimal(
                snapshot.worker.background as nat,
            )
            &&& names[33] == "event_queue"@ && columns[33] == decimal(
                snapshot.worker.event as nat,
            )
            &&& names[34] == "scheduled_tiles"@ && columns[34] == decimal(
                snapshot.worker.scheduled_tiles as nat,
            )
            &&& names[35] == "scheduled_text_snapshots"@ && columns[35] == decimal(
                snapshot.worker.scheduled_text_snapshots as nat,
            )
        }),
{
}

/// Each number about a document stands under the heading that names it.
pub proof fn document_numbers_stand_under_their_headings(
    kind: Seq<char>,
    phase: Seq<char>,
    event: Seq<char>,
    elapsed: u64,
    snapshot: DiagnosticsSnapshot,
    document: DocumentDiagnosticsSnapshot,
)
    ensures
        ({
            let columns = row(kind, phase, event, elapsed, Some(snapshot), Some(document));
            let names = header_columns();
            &&& columns.take(36) == row(kind, phase, event, elapsed, Some(snapshot), None).take(36)
            &&& names[36] == "document_id"@ && columns[36] == decimal(document.document_id as nat)
            &&& names[37] == "document_state"@ && columns[37] == document.state@
            &&& names[38] == "document_active"@ && columns[38] == (if document.active {
                "true"@
            } else {
                "false"@
            })
            &&& names[39] == "document_visible"@ && columns[39] == (if document.visible {
                "true"@
            } else {
                "false"@
            })
            &&& names[40] == "document_tiles"@ && columns[40] == decimal(
                document.containers.tiles as nat,
            )
            &&& names[41] == "document_pending_tiles"@ && columns[41] == decimal(
                document.containers.pending_tiles as nat,
            )
            &&& names[42] == "document_wanted_tiles"@ && columns[42] == decimal(
                document.containers.wanted_tiles as nat,
            )
            &&& names[43] == "document_visible_tiles"@ && columns[43] == decimal(
                document.containers.visible_tiles as nat,
            )
            &&& names[44] == "document_thumbnails"@ && columns[44] == decimal(
                document.containers.thumbnails as nat,
            )
            &&& names[45] == "document_pending_thumbnails"@ && columns[45] == decimal(
                document.containers.pending_thumbnails as nat,
            )
            &&& names[46] == "document_text_snapshots"@ && columns[46] == decimal(
                document.containers.text_snapshots as nat,
            )
            &&& names[47] == "document_pending_text_snapshots"@ && columns[47] == decimal(
                document.containers.pending_text_snapshots as nat,
            )
            &&& names[48] == "document_annotation_pages"@ && columns[48] == decimal(
                document.containers.annotation_pages as nat,
            )
            &&& names[49] == "document_pending_annotation_pages"@ && columns[49] == decimal(
                document.containers.pending_annotation_pages as nat,
            )
            &&& names[50] == "document_highlight_index_pages"@ && columns[50] == decimal(
                document.containers.highlight_index_pages as nat,
            )
            &&& names[51] == "document_highlight_index_items"@ && columns[51] == decimal(
                document.containers.highlight_index_items as nat,
            )
            &&& names[52] == "document_search_pages"@ && columns[52] == decimal(
                document.containers.search_pages as nat,
            )
            &&& names[53] == "document_search_matches"@ && columns[53] == decimal(
                document.containers.search_matches as nat,
            )
            &&& names[54] == "document_foreground_queue"@ && columns[54] == decimal(
                document.worker.foreground as nat,
            )
            &&& names[55] == "document_current_viewport_queue"@ && columns[55] == decimal(
                document.worker.current_viewport as nat,
            )
            &&& names[56] == "document_next_viewport_queue"@ && columns[56] == decimal(
                document.worker.next_viewport as nat,
            )
            &&& names[57] == "document_previous_viewport_queue"@ && columns[57] == decimal(
                document.worker.previous_viewport as nat,
            )
            &&& names[58] == "document_background_queue"@ && columns[58] == decimal(
                document.worker.background as nat,
            )
            &&& names[59] == "document_event_queue"@ && columns[59] == decimal(
                document.worker.event as nat,
            )
            &&& names[60] == "document_scheduled_tiles"@ && columns[60] == decimal(
                document.worker.scheduled_tiles as nat,
            )
            &&& names[61] == "document_scheduled_text_snapshots"@ && columns[61] == decimal(
                document.worker.scheduled_text_snapshots as nat,
            )
        }),
{
    let columns = row(kind, phase, event, elapsed, Some(snapshot), Some(document));
    let shorter = row(kind, phase, event, elapsed, Some(snapshot), None);
    assert(columns.take(36) =~= shorter.take(36));
}

/// Sums are exact as long as they fit, and else the largest number there is.
pub proof fn sums_do_not_wrap(a: usize, b: usize)
    ensures
        a + b <= usize::MAX ==> capped_sum(a, b) == a + b,
        a + b > usize::MAX ==> capped_sum(a, b) == usize::MAX,
        capped_sum(a, b) == capped_sum(b, a),
        capped_sum(a, 0) == a,
{
}

/// What several documents hold is added up count by count.
pub proof fn counts_add_up(a: ContainerCounts, b: ContainerCounts)
    ensures
        a.plus(ContainerCounts::nothing()) == a,
        a.plus(b) == b.plus(a),
        a.plus(b).tiles == capped_sum(a.tiles, b.tiles),
        a.plus(b).pending_tiles == capped_sum(a.pending_tiles, b.pending_tiles),
        a.plus(b).wanted_tiles == capped_sum(a.wanted_tiles, b.wanted_tiles),
        a.plus(b).visible_tiles == capped_sum(a.visible_tiles, b.visible_tiles),
        a.plus(b).thumbnails == capped_sum(a.thumbnails, b.thumbnails),
        a.plus(b).pending_thumbnails == capped_sum(a.pending_thumbnails, b.pending_thumbnails),
        a.plus(b).text_snapshots == capped_sum(a.text_snapshots, b.text_snapshots),
        a.plus(b).pending_text_snapshots
            == capped_sum(a.pending_text_snapshots, b.pending_text_snapshots),
        a.plus(b).annotation_pages == capped_sum(a.annotation_pages, b.annotation_pages),
        a.plus(b).pending_annotation_pages
            == capped_sum(a.pending_annotation_pages, b.pending_annotation_pages),
        a.plus(b).highlight_index_pages
            == capped_sum(a.highlight_index_pages, b.highlight_index_pages),
        a.plus(b).highlight_index_items
            == capped_sum(a.highlight_index_items, b.highlight_index_items),
        a.plus(b).search_pages == capped_sum(a.search_pages, b.search_pages),
        a.plus(b).search_matches == capped_sum(a.search_matches, b.search_matches),
{
}

/// What several workers have to do is added up queue by queue.
pub proof fn queues_add_up(a: WorkerQueueSnapshot, b: WorkerQueueSnapshot)
    ensures
        a.plus(WorkerQueueSnapshot::nothing()) == a,
        a.plus(b) == b.plus(a),
        a.plus(b).foreground == capped_sum(a.foreground, b.foreground),
        a.plus(b).current_viewport == capped_sum(a.current_viewport, b.current_viewport),
        a.plus(b).next_viewport == capped_sum(a.next_viewport, b.next_viewport),
        a.plus(b).previous_viewport == capped_sum(a.previous_viewport, b.previous_viewport),
        a.plus(b).background == capped_sum(a.background, b.background),
        a.plus(b).event == capped_sum(a.event, b.event),
        a.plus(b).scheduled_tiles == capped_sum(a.scheduled_tiles, b.scheduled_tiles),
        a.plus(b).scheduled_text_snapshots
            == capped_sum(a.scheduled_text_snapshots, b.scheduled_text_snapshots),
{
}

/// One more document adds its counts to those of the others, and no document adds nothing.
pub proof fn every_document_is_added(
    documents: Seq<DocumentDiagnosticsSnapshot>,
    next: DocumentDiagnosticsSnapshot,
)
    ensures
        all_containers(documents.push(next)) == all_containers(documents).plus(next.containers),
        all_queues(documents.push(next)) == all_queues(documents).plus(next.worker),
        documents.len() == 0 ==> all_containers(documents) == ContainerCounts::nothing()
            && all_queues(documents) == WorkerQueueSnapshot::nothing(),
{
    assert(documents.push(next).drop_last() =~= documents);
}

/// Three digits read as hundreds, tens and ones.
proof fn three_digits_read_together(hundreds: int, tens: int, ones: int)
    requires
        0 <= hundreds < 10,
        0 <= tens < 10,
        0 <= ones < 10,
    ensures
        digits_value(seq![digit_char(hundreds), digit_char(tens), digit_char(ones)]) == Some(
            (100 * hundreds + 10 * tens + ones) as nat,
        ),
{
    let a = digit_char(hundreds);
    let b = digit_char(tens);
    let c = digit_char(ones);
    digits_count_in_tens(seq![], a);
    digits_count_in_tens(seq![a], b);
    digits_count_in_tens(seq![a, b], c);
    assert(seq![a].push(b) =~= seq![a, b]);
    assert(seq![a, b].push(c) =~= seq![a, b, c]);
}

/// A time is written in seconds with three digits behind the point: read together, they are the
/// milliseconds.
pub proof fn times_are_written_in_seconds(milliseconds: u64)
    ensures
        ({
            let text = seconds(milliseconds);
            let whole = decimal((milliseconds / 1000) as nat);
            &&& text.len() == whole.len() + 4
            &&& text.take(whole.len() as int) == whole
            &&& text[whole.len() as int] == '.'
            &&& digits_value(text.skip(whole.len() as int + 1)) == Some(
                (milliseconds % 1000) as nat,
            )
        }),
{
    let whole = decimal((milliseconds / 1000) as nat);
    let hundreds = (milliseconds / 100 % 10) as int;
    let tens = (milliseconds / 10 % 10) as int;
    let ones = (milliseconds % 10) as int;
    digits_make_up_the_rest(milliseconds);
    three_digits_read_together(hundreds, tens, ones);
    parts_stand_in_a_row(
        whole,
        seq![digit_char(hundreds), digit_char(tens), digit_char(ones)],
    );
}

proof fn digits_make_up_the_rest(number: u64)
    ensures
        0 <= number / 100 % 10 < 10,
        0 <= number / 10 % 10 < 10,
        0 <= number % 10 < 10,
        100 * (number / 100 % 10) + 10 * (number / 10 % 10) + number % 10 == number % 1000,
{
    let n = number as int;
    vstd::arithmetic::div_mod::lemma_div_denominator(n, 10, 10);
    vstd::arithmetic::div_mod::lemma_div_denominator(n, 100, 10);
    vstd::arithmetic::div_mod::lemma_fundamental_div_mod(n, 10);
    vstd::arithmetic::div_mod::lemma_fundamental_div_mod(n / 10, 10);
    vstd::arithmetic::div_mod::lemma_fundamental_div_mod(n / 100, 10);
    vstd::arithmetic::div_mod::lemma_fundamental_div_mod(n, 1000);
    assert(n / 100 == (n / 10) / 10);
    assert(n / 1000 == (n / 100) / 10);
}

proof fn parts_stand_in_a_row(whole: Seq<char>, rest: Seq<char>)
    ensures
        ({
            let text = whole + "."@ + rest;
            &&& text.len() == whole.len() + 1 + rest.len()
            &&& text.take(whole.len() as int) == whole
            &&& text[whole.len() as int] == '.'
            &&& text.skip(whole.len() as int + 1) == rest
        }),
{
    reveal_strlit(".");
    let text = whole + "."@ + rest;
    assert(text.take(whole.len() as int) =~= whole);
    assert(text.skip(whole.len() as int + 1) =~= rest);
}

/// A sample that is not due writes nothing. One that is due writes one row about the viewer; before
/// it a row says where the samples begin to count, and behind it there is one row for each document
/// where the memory has grown.
pub proof fn samples_are_written_when_due(
    state: SamplingState,
    now: u64,
    elapsed: u64,
    snapshot: DiagnosticsSnapshot,
    i: int,
)
    ensures
        ({
            let rows = sample_rows(state, now, elapsed, snapshot);
            let first = state.phase == DiagnosticsPhase::Warmup && state.warmup_until is Some && now
                >= state.warmup_until->0;
            let phase = if first {
                "sampling"@
            } else {
                phase_text(state.phase)
            };
            let lead = if first {
                1int
            } else {
                0
            };
            let grown = has_grown(state.rss_high_water, snapshot.physical_mem_bytes);
            let due = state.next_sample_at is Some && now >= state.next_sample_at->0;
            let details = if !grown {
                0
            } else if snapshot.documents@.len() == 0 {
                1
            } else {
                snapshot.documents@.len() as int
            };
            &&& !due ==> rows.len() == 0
            &&& due ==> rows.len() == lead + 1 + details
            &&& due && first ==> rows[0] == line(
                row("event"@, "sampling"@, "sampling_start"@, elapsed, None, None),
            )
            &&& due ==> rows[lead] == line(
                row("sample"@, phase, ""@, elapsed, Some(snapshot), None),
            )
            &&& due && grown && 0 <= i < snapshot.documents@.len() ==> rows[lead + 1 + i] == line(
                row(
                    "detail"@,
                    phase,
                    "rss_threshold"@,
                    elapsed,
                    Some(snapshot),
                    Some(snapshot.documents@[i]),
                ),
            )
        }),
{
}

/// The memory has grown where it is a hundred mebibytes above what it was; then the new size counts,
/// and else the old one.
pub proof fn growth_counts_from_the_last_high(high_water: usize, rss: usize)
    ensures
        high_water + 104_857_600 <= usize::MAX ==> has_grown(Some(high_water), Some(rss)) == (rss
            >= high_water + 104_857_600),
        !has_grown(None, Some(rss)),
        !has_grown(Some(high_water), None),
        high_water_after(None, Some(rss)) == Some(rss),
        has_grown(Some(high_water), Some(rss)) ==> high_water_after(Some(high_water), Some(rss))
            == Some(rss),
        !has_grown(Some(high_water), Some(rss)) ==> high_water_after(Some(high_water), Some(rss))
            == Some(high_water),
{
}

/// The end of the wait for the first display is written as two rows, once.
pub proof fn the_first_display_is_written_once(event: Seq<char>, elapsed: u64)
    ensures
        display_rows(event, elapsed, false).len() == 0,
        display_rows(event, elapsed, true).len() == 2,
        display_rows(event, elapsed, true)[0] == line(
            row("event"@, "display"@, event, elapsed, None, None),
        ),
        display_rows(event, elapsed, true)[1] == line(
            row("event"@, "warmup"@, "warmup_start"@, elapsed, None, None),
        ),
{
}

/// The display stands exactly if there are documents and all of them show their pages; it has failed
/// exactly if some of them cannot and all others do.
pub proof fn displays_stand_or_fail_together(documents: Seq<DisplayReadiness>, i: int)
    requires
        0 <= i < documents.len(),
    ensures
        is_stable(documents) ==> documents[i].shows(),
        !documents[i].shows() ==> !is_stable(documents),
        is_unavailable(documents, true) == is_unavailable(documents, false),
        is_unavailable(documents, false) ==> documents[i].shows() || documents[i].unavailable
            || documents[i].render == DisplayRenderState::Failed,
        documents[i].shows() == (!documents[i].unavailable && documents[i].render
            == DisplayRenderState::Succeeded && documents[i].has_visible_request
            && !documents[i].has_pending_visible_request && documents[i].has_visible_result),
        !is_stable(seq![]),
        is_unavailable(seq![], true),
        !is_unavailable(seq![], false),
{
}

/// A document is ready to be seen as far as its tiles are: one that is asked for, one that is there,
/// and none that is still waited for. An error or a state without pages ends the wait.
pub proof fn documents_are_ready_as_their_tiles_are(
    document: DocumentView,
    wanted: TileCacheKey,
    key: TileCacheKey,
)
    ensures
        ({
            let ready = readiness_of(document);
            &&& document.tiles.visible.contains(key) ==> ready.has_visible_request
            &&& document.tiles.visible.contains(key) && document.tiles.pending.dom().contains(key)
                ==> ready.has_pending_visible_request
            &&& document.tiles.visible.contains(key) && document.tiles.cached.contains(key)
                ==> ready.has_visible_result
            &&& (forall|k: TileCacheKey| !(#[trigger] document.tiles.visible.contains(k)))
                ==> !ready.has_visible_request && !ready.has_visible_result
                && !ready.has_pending_visible_request
            &&& (ready.render == DisplayRenderState::Failed) == (document.error is Some)
            &&& (ready.render == DisplayRenderState::Succeeded) == (document.error is None
                && ready.has_visible_result)
            &&& ready.unavailable == (document.state is Error || document.state is Suspended || (
            document.info is Some && document.info->0.page_count == 0))
        }),
{
}

/// A tile counts as painted exactly if it is seen on the page; a page is whole when all of its tiles
/// that are seen were painted.
pub proof fn pages_are_whole_when_all_is_painted(
    book: TileBookView,
    page_index: usize,
    painted: Seq<TileCacheKey>,
    key: TileCacheKey,
)
    ensures
        shows_exactly(book, page_index, painted, key) == (book.visible.contains(key)
            && key.page_index == page_index && painted.contains(key)),
        painted_whole(book, page_index, painted) && book.visible.contains(key) && key.page_index
            == page_index ==> painted.contains(key),
        book.visible.contains(key) && key.page_index == page_index && !painted.contains(key)
            ==> !painted_whole(book, page_index, painted),
        book.after_painting(page_index, painted).prefetched.contains(key) == (
        book.prefetched.contains(key) && !(book.visible.contains(key) && key.page_index
            == page_index && painted.contains(key))),
        book.after_painting(page_index, painted).pending == book.pending,
        book.after_painting(page_index, painted).visible == book.visible,
{
}

/// Times are counted from the input to the first painting that shows the page; a time that was noted
/// stays, and a painting of another page notes nothing.
pub proof fn the_first_painting_is_timed(
    transition: PageTransitionPerformance,
    page_index: usize,
    painted: Painted,
    now: u64,
)
    requires
        now >= transition.input_at,
    ensures
        ({
            let after = transition.painted(page_index, painted, now);
            &&& transition.target_page != page_index ==> after == transition
            &&& transition.target_page == page_index && transition.first_exact_tile is None
                && painted.exact ==> after.first_exact_tile is Some && after.first_exact_tile->0
                == now - transition.input_at
            &&& transition.first_exact_tile is Some || !painted.exact ==> after.first_exact_tile
                == transition.first_exact_tile
            &&& transition.target_page == page_index && transition.full_exact_viewport is None
                && painted.complete ==> after.full_exact_viewport is Some
                && after.full_exact_viewport->0 == now - transition.input_at
            &&& transition.full_exact_viewport is Some || !painted.complete
                ==> after.full_exact_viewport == transition.full_exact_viewport
            &&& after.input_at == transition.input_at
            &&& after.target_page == transition.target_page
            &&& after.cache_hit == transition.cache_hit
        }),
{
}

/// Whether the page was in the cache is noted once, for the page that was turned to.
pub proof fn the_cache_is_looked_up_once(
    transition: PageTransitionPerformance,
    page_index: usize,
    cache_hit: bool,
    prefetch_used: bool,
)
    ensures
        ({
            let after = transition.looked_up(page_index, cache_hit, prefetch_used);
            let counts = transition.target_page == page_index && transition.cache_hit is None;
            &&& counts ==> after.cache_hit == Some(cache_hit) && after.prefetch_used == Some(
                prefetch_used,
            )
            &&& !counts ==> after == transition
            &&& after.first_exact_tile == transition.first_exact_tile
            &&& after.full_exact_viewport == transition.full_exact_viewport
        }),
{
}

/// A zoom is timed like a page, from the last input on; a painting at another zoom notes nothing.
pub proof fn zooms_are_timed_from_the_last_input(
    zoom: ZoomPerformance,
    target: u32,
    painted: Painted,
    now: u64,
)
    requires
        now >= zoom.last_input_at,
    ensures
        ({
            let after = zoom.painted(target, painted, now);
            &&& zoom.target_zoom != target ==> after == zoom
            &&& zoom.target_zoom == target && zoom.provisional_display is None
                && painted.provisional ==> after.provisional_display is Some
                && after.provisional_display->0 == now - zoom.last_input_at
            &&& zoom.target_zoom == target && zoom.first_exact_tile is None && painted.exact
                ==> after.first_exact_tile is Some && after.first_exact_tile->0 == now
                - zoom.last_input_at
            &&& zoom.target_zoom == target && zoom.full_exact_viewport is None && painted.complete
                ==> after.full_exact_viewport is Some && after.full_exact_viewport->0 == now
                - zoom.last_input_at
            &&& zoom.provisional_display is Some ==> after.provisional_display
                == zoom.provisional_display
            &&& zoom.first_exact_tile is Some ==> after.first_exact_tile == zoom.first_exact_tile
            &&& zoom.full_exact_viewport is Some ==> after.full_exact_viewport
                == zoom.full_exact_viewport
            &&& !painted.provisional ==> after.provisional_display == zoom.provisional_display
            &&& !painted.exact ==> after.first_exact_tile == zoom.first_exact_tile
            &&& !painted.complete ==> after.full_exact_viewport == zoom.full_exact_viewport
        }),
{
}

/// Inputs of one zoom gesture, a quarter of a second apart at most, add up what they overtook.
pub proof fn one_gesture_adds_up_what_it_overtook(
    performance: RenderPerformance,
    canceled_requests: usize,
    now: u64,
)
    requires
        performance.zoom is Some,
        now >= (performance.zoom->0).last_input_at,
        (performance.zoom->0).discarded_intermediate_requests + canceled_requests <= usize::MAX,
    ensures
        now - (performance.zoom->0).last_input_at <= 250_000_000 ==> performance.discarded(
            canceled_requests,
            now,
        ) == (performance.zoom->0).discarded_intermediate_requests + canceled_requests,
        now - (performance.zoom->0).last_input_at > 250_000_000 ==> performance.discarded(
            canceled_requests,
            now,
        ) == 0,
{
}

} // verus!
