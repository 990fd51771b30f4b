use lunapdf::grid::TileGrid;
use lunapdf::keys::KeySet;
use lunapdf::numbers::RectBits;
use lunapdf::page_books::retain_visible_text_failures;
use lunapdf::page_books::PageBook;
use lunapdf::rendering::{
    annotation_page_result_is_current, mark_thumbnail_failed, prioritized_tile_specs,
    rgba_byte_count, single_page_tile_requests, text_snapshot_result_is_current, tile_priority,
    tile_requests_for_page, tile_result_is_current, tile_specs_intersecting_viewport,
    AnnotationPageRequest, PlacedTile, RenderFrame, RenderPriority, TextSnapshotKey,
    TextSnapshotRequest, ThumbnailCacheKey, TileCacheKey, TileRequest, TileSpec,
};
use lunapdf::tiles::{
    closest_provisional_tile_keys, sort_for_painting, PageIdentity, ProvisionalTile, TileBook,
};

fn spec_at(pixel_x: u32, pixel_y: u32) -> TileSpec {
    TileSpec {
        pixel_x,
        pixel_y,
        pixel_width: 512,
        pixel_height: 512,
    }
}

fn key_at(page_index: usize, pixel_x: u32, pixel_y: u32) -> TileCacheKey {
    TileCacheKey {
        document_id: 1,
        page_index,
        zoom_bits: 1.0_f32.to_bits(),
        pixels_per_point_bits: 1.0_f32.to_bits(),
        rotation_quarter_turns: 0,
        spec: spec_at(pixel_x, pixel_y),
        revision: 4,
    }
}

fn request_at(page_index: usize, pixel_x: u32, priority: RenderPriority) -> TileRequest {
    TileRequest {
        page_index,
        zoom_bits: 1.0_f32.to_bits(),
        pixels_per_point_bits: 1.0_f32.to_bits(),
        scale_bits: 1.0_f32.to_bits(),
        generation: 1,
        expected_revision: 4,
        spec: spec_at(pixel_x, 0),
        priority,
    }
}

fn rect(left: f32, top: f32, right: f32, bottom: f32) -> RectBits {
    RectBits {
        left: left.to_bits(),
        top: top.to_bits(),
        right: right.to_bits(),
        bottom: bottom.to_bits(),
    }
}

#[test]
fn tile_weight_is_rgba_byte_count() {
    let spec = TileSpec {
        pixel_x: 0,
        pixel_y: 0,
        pixel_width: 512,
        pixel_height: 256,
    };

    assert_eq!(spec.rgba_bytes(), Some(512 * 256 * 4));
}

#[test]
fn tile_weight_reports_dimension_overflow() {
    let spec = TileSpec {
        pixel_x: 0,
        pixel_y: 0,
        pixel_width: u32::MAX,
        pixel_height: u32::MAX,
    };

    assert_eq!(spec.rgba_bytes(), None);
}

#[test]
fn byte_counts_of_empty_images_are_zero() {
    assert_eq!(rgba_byte_count(0, 17), Some(0));
    assert_eq!(rgba_byte_count(3, 5), Some(60));
}

#[test]
fn render_result_requires_visible_tab_and_current_document_state() {
    let key = TileCacheKey {
        document_id: 1,
        page_index: 3,
        zoom_bits: 1.0_f32.to_bits(),
        pixels_per_point_bits: 1.0_f32.to_bits(),
        rotation_quarter_turns: 0,
        spec: TileSpec {
            pixel_x: 0,
            pixel_y: 0,
            pixel_width: 512,
            pixel_height: 512,
        },
        revision: 4,
    };
    let mut wanted = KeySet::new();
    wanted.insert(key);

    assert!(tile_result_is_current(true, key, 8, 8, Some(4), &wanted));
    assert!(!tile_result_is_current(false, key, 8, 8, Some(4), &wanted));
    assert!(!tile_result_is_current(true, key, 7, 8, Some(4), &wanted));
}

#[test]
fn render_result_requires_a_wanted_tile_of_the_revision() {
    let key = key_at(3, 0, 0);
    let mut wanted = KeySet::new();
    wanted.insert(key);

    assert!(!tile_result_is_current(true, key, 8, 8, Some(5), &wanted));
    assert!(!tile_result_is_current(true, key, 8, 8, None, &wanted));
    assert!(!tile_result_is_current(true, key, 8, 8, Some(4), &KeySet::new()));
}

#[test]
fn tile_requests_and_cache_keys_separate_display_density() {
    let spec = TileSpec {
        pixel_x: 0,
        pixel_y: 0,
        pixel_width: 512,
        pixel_height: 512,
    };
    let request_1x = TileRequest {
        page_index: 0,
        zoom_bits: 1.0_f32.to_bits(),
        pixels_per_point_bits: 1.0_f32.to_bits(),
        scale_bits: 1.0_f32.to_bits(),
        generation: 1,
        expected_revision: 0,
        spec,
        priority: RenderPriority::Visible,
    };
    let request_2x = TileRequest {
        pixels_per_point_bits: 2.0_f32.to_bits(),
        scale_bits: 2.0_f32.to_bits(),
        ..request_1x
    };

    assert_ne!(request_1x.scale_bits, request_2x.scale_bits);
    assert_ne!(
        TileCacheKey::from_request(1, &request_1x),
        TileCacheKey::from_request(1, &request_2x)
    );
}

#[test]
fn provisional_tiles_use_the_closest_zoom_from_the_current_revision() {
    let base = TileCacheKey {
        document_id: 1,
        page_index: 2,
        zoom_bits: 1.0_f32.to_bits(),
        pixels_per_point_bits: 1.0_f32.to_bits(),
        rotation_quarter_turns: 0,
        spec: spec_at(0, 0),
        revision: 4,
    };
    let keys = vec![
        base,
        TileCacheKey {
            zoom_bits: 1.4_f32.to_bits(),
            ..base
        },
        TileCacheKey {
            zoom_bits: 1.4_f32.to_bits(),
            spec: spec_at(512, 0),
            ..base
        },
        TileCacheKey {
            zoom_bits: 1.49_f32.to_bits(),
            revision: 3,
            ..base
        },
    ];
    let tiles = keys
        .into_iter()
        .map(|key| ProvisionalTile {
            key,
            zoom_distance_bits: (f32::from_bits(key.zoom_bits) / 1.5).ln().abs().to_bits(),
            density_distance_bits: (f32::from_bits(key.pixels_per_point_bits) / 1.0)
                .ln()
                .abs()
                .to_bits(),
        })
        .collect::<Vec<_>>();

    let selected = closest_provisional_tile_keys(
        &tiles,
        PageIdentity {
            document_id: 1,
            page_index: 2,
            revision: 4,
            rotation_quarter_turns: 0,
            zoom_bits: 1.5_f32.to_bits(),
            pixels_per_point_bits: 1.0_f32.to_bits(),
        },
    );

    assert_eq!(selected.len(), 2);
    assert!(selected
        .iter()
        .all(|key| key.zoom_bits == 1.4_f32.to_bits() && key.revision == 4));
}

#[test]
fn thumbnail_failure_blocks_only_the_failed_request() {
    let failed_key = ThumbnailCacheKey::for_page(1, 2, 3);
    let other_key = ThumbnailCacheKey::for_page(1, 4, 3);
    let mut pending = KeySet::new();
    pending.insert(failed_key);
    pending.insert(other_key);
    let mut failed = KeySet::new();

    mark_thumbnail_failed(&mut pending, &mut failed, failed_key);

    assert!(!pending.contains(failed_key));
    assert!(pending.contains(other_key));
    assert!(failed.contains(failed_key));
}

#[test]
fn a_failed_thumbnail_is_asked_for_again_only_on_demand() {
    let key = ThumbnailCacheKey::for_page(1, 2, 3);
    let mut book = PageBook::new();
    assert!(book.request_thumbnail(2, key, 9).is_some());
    book.failed.insert(key);
    assert!(book.request_thumbnail(2, key, 9).is_none());
    let request = book.retry_thumbnail(2, key, 9).unwrap();
    assert_eq!(request.page_index, 2);
    assert_eq!(request.max_pixel_width, 160);
    assert_eq!(request.max_pixel_height, 220);
    assert_eq!(request.generation, 9);
    assert_eq!(request.expected_revision, 3);
}

#[test]
fn text_snapshot_result_requires_visible_current_page() {
    let key = TextSnapshotKey {
        page_index: 2,
        revision: 4,
    };
    let mut wanted = KeySet::new();
    wanted.insert(key);

    assert!(text_snapshot_result_is_current(true, key, Some(4), 3, &wanted));
    assert!(!text_snapshot_result_is_current(false, key, Some(4), 3, &wanted));
    assert!(!text_snapshot_result_is_current(true, key, Some(3), 3, &wanted));
    assert!(!text_snapshot_result_is_current(true, key, Some(4), 2, &wanted));
    assert!(!text_snapshot_result_is_current(
        true,
        key,
        Some(4),
        3,
        &KeySet::new()
    ));
}

#[test]
fn annotation_result_requires_visible_current_revision() {
    let request = AnnotationPageRequest {
        page_index: 2,
        expected_revision: 4,
    };
    let mut wanted = KeySet::new();
    wanted.insert(request);

    assert!(annotation_page_result_is_current(true, request, Some(4), &wanted));
    assert!(!annotation_page_result_is_current(false, request, Some(4), &wanted));
    assert!(!annotation_page_result_is_current(true, request, Some(3), &wanted));
    assert!(!annotation_page_result_is_current(
        true,
        request,
        Some(4),
        &KeySet::new()
    ));
}

#[test]
fn text_snapshot_failure_is_cleared_after_page_leaves_visible_scope() {
    let failed_key = TextSnapshotKey {
        page_index: 2,
        revision: 4,
    };
    let next_key = TextSnapshotKey {
        page_index: 3,
        revision: 4,
    };
    let mut failed = KeySet::new();
    failed.insert(failed_key);
    let mut error = Some("text snapshot: extraction failed".to_owned());
    let mut wanted = KeySet::new();
    wanted.insert(next_key);

    retain_visible_text_failures(&mut failed, &mut error, &wanted);

    assert!(failed.is_empty());
    assert!(error.is_none());
}

#[test]
fn clearing_text_snapshot_failures_preserves_unrelated_error() {
    let mut failed = KeySet::new();
    let mut error = Some("document save: permission denied".to_owned());

    retain_visible_text_failures(&mut failed, &mut error, &KeySet::new());

    assert_eq!(error.as_deref(), Some("document save: permission denied"));
}

#[test]
fn a_visible_failure_keeps_its_error() {
    let key = TextSnapshotKey {
        page_index: 2,
        revision: 4,
    };
    let mut failed = KeySet::new();
    failed.insert(key);
    let mut wanted = KeySet::new();
    wanted.insert(key);
    let mut error = Some("text snapshot: extraction failed".to_owned());

    retain_visible_text_failures(&mut failed, &mut error, &wanted);

    assert!(failed.contains(key));
    assert!(error.is_some());
}

#[test]
fn a_text_key_names_the_page_and_revision_of_its_request() {
    let key = TextSnapshotKey::from_request(&TextSnapshotRequest {
        page_index: 6,
        expected_revision: 9,
    });
    assert_eq!(key.page_index, 6);
    assert_eq!(key.revision, 9);
}

#[test]
fn tiles_keep_their_order_and_get_an_urgency() {
    let viewport = rect(0.0, 0.0, 100.0, 100.0);
    assert_eq!(
        tile_priority(rect(50.0, 50.0, 150.0, 150.0), viewport),
        RenderPriority::Visible
    );
    let placed = vec![
        PlacedTile {
            spec: spec_at(0, 512),
            rect: rect(0.0, 150.0, 100.0, 250.0),
        },
        PlacedTile {
            spec: spec_at(0, 0),
            rect: rect(0.0, 0.0, 100.0, 100.0),
        },
        PlacedTile {
            spec: spec_at(0, 4096),
            rect: rect(0.0, 900.0, 100.0, 1000.0),
        },
    ];
    let request_viewport = rect(0.0, -100.0, 100.0, 260.0);
    assert_eq!(
        tile_specs_intersecting_viewport(&placed, request_viewport).len(),
        2
    );
    let prioritized = prioritized_tile_specs(&placed, request_viewport, viewport);
    assert_eq!(prioritized.len(), 2);
    assert_eq!(
        prioritized,
        vec![
            (spec_at(0, 512), RenderPriority::NextViewport),
            (spec_at(0, 0), RenderPriority::Visible),
        ]
    );
}

#[test]
fn a_single_page_asks_for_its_neighbours_too() {
    let frame = RenderFrame {
        zoom_bits: 1.5_f32.to_bits(),
        pixels_per_point_bits: 2.0_f32.to_bits(),
        scale_bits: 3.0_f32.to_bits(),
        generation: 8,
        revision: 4,
    };
    let current = vec![(spec_at(0, 0), RenderPriority::Visible)];
    let neighbour = vec![spec_at(512, 0)];
    let requests = single_page_tile_requests(frame, 3, 1, &current, &neighbour, &neighbour);
    let pages = requests.iter().map(|r| r.page_index).collect::<Vec<_>>();
    assert_eq!(pages, vec![1, 2, 0]);
    assert_eq!(requests[1].priority, RenderPriority::NextViewport);
    assert_eq!(requests[2].priority, RenderPriority::PreviousViewport);
    assert!(requests
        .iter()
        .all(|r| r.generation == 8 && r.expected_revision == 4 && r.scale_bits == 3.0_f32.to_bits()));

    let last = single_page_tile_requests(frame, 3, 2, &current, &neighbour, &neighbour);
    let pages = last.iter().map(|r| r.page_index).collect::<Vec<_>>();
    assert_eq!(pages, vec![2, 1]);
    let plain = tile_requests_for_page(frame, 5, &current);
    assert_eq!(plain.len(), 1);
    assert_eq!(plain[0].page_index, 5);
}

#[test]
fn tiles_are_painted_row_by_row() {
    let sorted = sort_for_painting(&vec![key_at(0, 512, 512), key_at(0, 512, 0), key_at(0, 0, 512)]);
    assert_eq!(
        sorted,
        vec![key_at(0, 512, 0), key_at(0, 0, 512), key_at(0, 512, 512)]
    );
}

#[test]
fn a_page_with_all_its_visible_tiles_needs_no_stand_ins() {
    let mut book = TileBook::new(1);
    let requests = vec![
        request_at(0, 0, RenderPriority::Visible),
        request_at(0, 512, RenderPriority::NextViewport),
    ];
    assert!(book.prepare_tiles(&requests).is_empty());
    assert!(book.needs_tile(&requests[0]));
    book.tile_requested(requests[0]);
    assert!(!book.needs_tile(&requests[0]));

    let plan = book.plan_paint(0);
    assert!(plan.needs_provisional);
    assert_eq!(plan.exact, vec![key_at(0, 0, 0), key_at(0, 512, 0)]);

    book.cached.insert(key_at(0, 0, 0));
    assert!(!book.plan_paint(0).needs_provisional);
    assert!(book.plan_paint(1).needs_provisional);
    assert!(book.plan_paint(1).exact.is_empty());

    let dropped = book.prepare_tiles(&vec![request_at(3, 0, RenderPriority::Visible)]);
    assert_eq!(dropped, vec![requests[0]]);
    assert_eq!(book.pending.len(), 0);
}

#[test]
fn a_grid_lists_the_tiles_of_a_pixel_rectangle_row_by_row() {
    let grid = TileGrid::new(1_000, 600).expect("the page has pixels");
    let places = |min_x, min_y, max_x, max_y| {
        grid.specs_in_pixel_rect(min_x, min_y, max_x, max_y)
            .iter()
            .map(|spec| (spec.pixel_x, spec.pixel_y, spec.pixel_width, spec.pixel_height))
            .collect::<Vec<_>>()
    };

    assert_eq!(
        places(0, 0, 1_000, 600),
        [
            (0, 0, 512, 512),
            (512, 0, 488, 512),
            (0, 512, 512, 88),
            (512, 512, 488, 88),
        ]
    );
    assert_eq!(places(513, 10, 514, 11), [(512, 0, 488, 512)]);
    assert!(places(10, 10, 10, 20).is_empty());
    assert_eq!(TileGrid::new(0, 600), None);
}
