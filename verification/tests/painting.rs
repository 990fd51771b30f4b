use lunapdf::document::{
    DocumentInfo, DocumentState, DocumentTab, DocumentVersion, HighlightCapability,
};
use lunapdf::painting::CacheState;
use lunapdf::performance::Painted;
use lunapdf::rendering::{RenderPriority, TileCacheKey, TileRequest, TileSpec};
use lunapdf::sampling::{
    display_is_stable, display_is_unavailable, DisplayReadiness, DisplayRenderState,
};

fn request(page_index: usize, pixel_x: u32, priority: RenderPriority) -> TileRequest {
    TileRequest {
        page_index,
        zoom_bits: 1.0_f32.to_bits(),
        pixels_per_point_bits: 1.0_f32.to_bits(),
        scale_bits: 1.0_f32.to_bits(),
        generation: 0,
        expected_revision: 0,
        spec: TileSpec {
            pixel_x,
            pixel_y: 0,
            pixel_width: 256,
            pixel_height: 256,
        },
        priority,
    }
}

fn key(page_index: usize, pixel_x: u32) -> TileCacheKey {
    TileCacheKey {
        document_id: 1,
        page_index,
        zoom_bits: 1.0_f32.to_bits(),
        pixels_per_point_bits: 1.0_f32.to_bits(),
        rotation_quarter_turns: 0,
        spec: TileSpec {
            pixel_x,
            pixel_y: 0,
            pixel_width: 256,
            pixel_height: 256,
        },
        revision: 0,
    }
}

/// Two visible tiles of the first page, one of the second, and one that is wanted ahead.
fn prepared() -> DocumentTab {
    let mut tab = DocumentTab::new(1, 0, None);
    let cancelled = tab.tiles.prepare_tiles(&vec![
        request(0, 0, RenderPriority::Visible),
        request(0, 256, RenderPriority::Visible),
        request(1, 0, RenderPriority::Visible),
        request(0, 512, RenderPriority::NextViewport),
    ]);
    assert!(cancelled.is_empty());
    tab
}

#[test]
fn the_cache_is_hit_by_visible_tiles_only() {
    let mut tab = prepared();
    let miss = CacheState { cache_hit: false, prefetch_used: false };
    assert_eq!(tab.tiles.cache_state(), miss);
    tab.tile_kept(key(0, 512), true, true);
    assert_eq!(tab.tiles.cache_state(), miss);
    tab.tile_kept(key(1, 0), false, true);
    assert_eq!(
        tab.tiles.cache_state(),
        CacheState { cache_hit: true, prefetch_used: false }
    );
    tab.tile_kept(key(0, 0), true, true);
    assert_eq!(
        tab.tiles.cache_state(),
        CacheState { cache_hit: true, prefetch_used: true }
    );
}

#[test]
fn a_page_is_whole_once_its_visible_tiles_are_painted() {
    let mut tab = prepared();
    let painted = |provisional, exact, complete| Painted { provisional, exact, complete };
    assert_eq!(
        tab.tiles.tiles_painted(0, true, &vec![]),
        painted(true, false, false)
    );
    assert_eq!(
        tab.tiles.tiles_painted(0, false, &vec![key(0, 512)]),
        painted(false, false, false)
    );
    assert_eq!(
        tab.tiles.tiles_painted(0, true, &vec![key(0, 0)]),
        painted(true, true, false)
    );
    assert_eq!(
        tab.tiles
            .tiles_painted(0, false, &vec![key(0, 512), key(0, 256), key(0, 0)]),
        painted(false, true, true)
    );
    assert_eq!(
        tab.tiles.tiles_painted(2, false, &vec![]),
        painted(false, false, false)
    );
}

#[test]
fn a_tile_rendered_ahead_counts_as_used_once() {
    let mut tab = prepared();
    for pixel_x in [0, 256, 512] {
        tab.tile_kept(key(0, pixel_x), true, true);
    }
    tab.tiles
        .tiles_painted(0, false, &vec![key(0, 0), key(0, 512)]);
    assert!(!tab.tiles.prefetched.contains(key(0, 0)));
    assert!(tab.tiles.prefetched.contains(key(0, 256)));
    assert!(tab.tiles.prefetched.contains(key(0, 512)));
    assert!(tab.tiles.cached.contains(key(0, 0)));
    tab.tiles.tiles_painted(0, false, &vec![key(0, 256)]);
    assert_eq!(
        tab.tiles.cache_state(),
        CacheState { cache_hit: true, prefetch_used: false }
    );
}

#[test]
fn a_document_is_ready_when_its_visible_tiles_are_there() {
    let mut tab = DocumentTab::new(1, 0, None);
    tab.state = DocumentState::ReadyClean;
    let nothing = DisplayReadiness::default();
    assert_eq!(tab.display_readiness(), nothing);
    let wanted = request(0, 0, RenderPriority::Visible);
    let _cancelled = tab.tiles.prepare_tiles(&vec![wanted]);
    tab.tiles.tile_requested(wanted);
    assert_eq!(
        tab.display_readiness(),
        DisplayReadiness {
            has_visible_request: true,
            has_pending_visible_request: true,
            ..nothing
        }
    );
    tab.tile_kept(key(0, 0), false, true);
    let pending = tab.display_readiness();
    assert_eq!(pending.render, DisplayRenderState::Succeeded);
    assert!(pending.has_visible_result && pending.has_pending_visible_request);
    tab.error = Some("broken".to_owned());
    assert_eq!(tab.display_readiness().render, DisplayRenderState::Failed);
    tab.state = DocumentState::Error;
    assert!(tab.display_readiness().unavailable);
}

#[test]
fn a_document_that_cannot_stand_on_the_screen_is_not_waited_for() {
    let info = |page_count: usize| DocumentInfo {
        page_count,
        highlight_capability: HighlightCapability::Allowed,
        dirty: false,
        revision: 0,
        version: DocumentVersion {
            identity_primary: 1,
            identity_secondary: 2,
            length: 3,
            modified_seconds: 4,
            modified_nanos: 5,
        },
    };
    let mut tab = DocumentTab::new(1, 0, None);
    assert!(!tab.display_readiness().unavailable);
    tab.info = Some(info(1));
    tab.state = DocumentState::ReadyClean;
    assert!(!display_is_unavailable(&vec![tab.display_readiness()], false));
    tab.state = DocumentState::Suspended;
    assert!(display_is_unavailable(&vec![tab.display_readiness()], false));
    assert!(!display_is_stable(&vec![tab.display_readiness()]));
    tab.state = DocumentState::ReadyClean;
    tab.info = Some(info(0));
    assert!(display_is_unavailable(&vec![tab.display_readiness()], false));
    assert!(!display_is_stable(&vec![tab.display_readiness()]));
}
