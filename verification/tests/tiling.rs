use egui::{Pos2, Rect, Vec2};
use lunapdf::grid::TileGrid;
use lunapdf::numbers::RectBits;
use lunapdf::rendering::{
    prioritized_tile_specs, tile_specs_intersecting_viewport, PlacedTile, RenderPriority, TileSpec,
};

fn bits(rect: Rect) -> RectBits {
    RectBits {
        left: rect.left().to_bits(),
        top: rect.top().to_bits(),
        right: rect.right().to_bits(),
        bottom: rect.bottom().to_bits(),
    }
}

fn page_grid(width: f32, height: f32, scale: f32) -> TileGrid {
    TileGrid::new((width * scale).ceil() as u32, (height * scale).ceil() as u32)
        .expect("the page has pixels")
}

fn logical_tile_rect(page: Rect, grid: TileGrid, spec: TileSpec) -> Rect {
    let x = |pixel: u32| page.left() + page.width() * pixel as f32 / grid.pixel_width as f32;
    let y = |pixel: u32| page.top() + page.height() * pixel as f32 / grid.pixel_height as f32;
    Rect::from_min_max(
        Pos2::new(x(spec.pixel_x), y(spec.pixel_y)),
        Pos2::new(
            x(spec.pixel_x + spec.pixel_width),
            y(spec.pixel_y + spec.pixel_height),
        ),
    )
}

fn pixel(value: f32, start: f32, extent: f32, pixels: u32) -> f32 {
    ((value - start) / extent * pixels as f32).clamp(0.0, pixels as f32)
}

/// The tiles that a viewport may touch, each with its place on the page.
fn placed(grid: TileGrid, page: Rect, viewport: Rect) -> Vec<PlacedTile> {
    let wanted = page.intersect(viewport);
    if !wanted.is_positive() {
        return Vec::new();
    }
    let x = |value| pixel(value, page.left(), page.width(), grid.pixel_width);
    let y = |value| pixel(value, page.top(), page.height(), grid.pixel_height);
    grid.specs_in_pixel_rect(
        x(wanted.left()).floor() as u32,
        y(wanted.top()).floor() as u32,
        (x(wanted.right()).ceil() as u32).min(grid.pixel_width),
        (y(wanted.bottom()).ceil() as u32).min(grid.pixel_height),
    )
    .into_iter()
    .map(|spec| PlacedTile {
        spec,
        rect: bits(logical_tile_rect(page, grid, spec)),
    })
    .collect()
}

fn requested(grid: TileGrid, page: Rect, visible: Rect) -> Vec<(TileSpec, RenderPriority)> {
    let margin = visible.size();
    let request = Rect::from_min_max(visible.min - margin, visible.max + margin);
    prioritized_tile_specs(&placed(grid, page, request), bits(request), bits(visible))
}

fn touched(grid: TileGrid, page: Rect, viewport: Rect) -> Vec<TileSpec> {
    tile_specs_intersecting_viewport(&placed(grid, page, viewport), bits(viewport))
        .into_iter()
        .map(|tile| tile.spec)
        .collect()
}

fn assert_right_edge(grid: TileGrid, page: Rect, viewport: Rect) {
    let specs = touched(grid, page, viewport);
    let rightmost = specs.iter().max_by_key(|spec| spec.pixel_x).unwrap();
    assert_eq!(rightmost.pixel_x + rightmost.pixel_width, grid.pixel_width);
    assert_eq!(
        logical_tile_rect(page, grid, *rightmost).right(),
        page.right()
    );
}

#[test]
fn huge_page_requests_stay_bounded_to_three_viewports() {
    let grid = page_grid(10_000.0, 10_000_000.0, 16.0);
    let page_rect = Rect::from_min_size(Pos2::ZERO, Vec2::new(10_000.0, 10_000_000.0));
    let visible = Rect::from_min_size(Pos2::ZERO, Vec2::new(1_000.0, 800.0));

    assert_eq!(requested(grid, page_rect, visible).len(), 63 * 50);
}

#[test]
fn landscape_fit_page_requests_the_rightmost_tile() {
    let page_rect = Rect::from_min_size(Pos2::new(20.0, 20.0), Vec2::new(960.0, 540.0));
    let viewport = Rect::from_min_size(Pos2::ZERO, Vec2::new(1_000.0, 580.0));

    assert_right_edge(page_grid(1_280.0, 720.0, 0.75 * 1.25), page_rect, viewport);
}

#[test]
fn fit_page_right_edge_handles_nonzero_page_and_layout_origins() {
    let (width, height) = (1_300.75 - 100.25, 900.5 - 200.5);
    let page_rect = Rect::from_min_size(Pos2::new(137.0, 41.0), Vec2::new(900.375, 525.0));
    let viewport = Rect::from_min_size(Pos2::new(100.0, 0.0), Vec2::new(980.0, 620.0));

    assert_right_edge(page_grid(width, height, 0.75 * 1.5), page_rect, viewport);
}

#[test]
fn square_and_portrait_fit_pages_keep_their_right_edges() {
    for (width, height) in [(700.0, 700.0), (600.0, 900.0)] {
        let zoom = (760.0_f32 / width).min(560.0_f32 / height);
        let page_size = Vec2::new(width * zoom, height * zoom);
        let page_rect = Rect::from_center_size(Pos2::new(400.0, 300.0), page_size);
        let viewport = Rect::from_min_size(Pos2::ZERO, Vec2::new(800.0, 600.0));

        assert_right_edge(page_grid(width, height, zoom * 2.0), page_rect, viewport);
    }
}

#[test]
fn enlarged_landscape_page_does_not_request_every_tile() {
    let grid = page_grid(8_000.0, 4_500.0, 2.0);
    let page_rect = Rect::from_min_size(Pos2::ZERO, Vec2::new(16_000.0, 9_000.0));
    let viewport = Rect::from_min_size(Pos2::new(4_000.0, 2_000.0), Vec2::new(1_000.0, 700.0));

    let requested = requested(grid, page_rect, viewport);
    let full_grid_count = grid
        .specs_in_pixel_rect(0, 0, grid.pixel_width, grid.pixel_height)
        .len();

    assert!(requested.len() < full_grid_count);
}

#[test]
fn adjacent_enlarged_page_prefetches_only_the_transition_viewport() {
    let grid = page_grid(100.0, 10_000.0, 1.0);
    let page_rect = Rect::from_min_size(Pos2::ZERO, Vec2::new(100.0, 10_000.0));
    let transition_viewport = Rect::from_min_size(Pos2::ZERO, Vec2::new(100.0, 400.0));

    let requested = touched(grid, page_rect, transition_viewport);

    assert_eq!(requested.len(), 1);
    assert_eq!(requested[0].pixel_y, 0);
}

#[test]
fn prefetched_tile_becomes_visible_when_viewport_reaches_it() {
    let grid = page_grid(100.0, 2_000.0, 1.0);
    let page_rect = Rect::from_min_size(Pos2::ZERO, Vec2::new(100.0, 2_000.0));
    let first_view = Rect::from_min_size(Pos2::ZERO, Vec2::new(100.0, 400.0));
    let later_view = Rect::from_min_size(Pos2::new(0.0, 500.0), Vec2::new(100.0, 400.0));

    let first = requested(grid, page_rect, first_view);
    let later = requested(grid, page_rect, later_view);
    let target = TileSpec {
        pixel_x: 0,
        pixel_y: 512,
        pixel_width: 100,
        pixel_height: 512,
    };

    assert_eq!(
        first.iter().find(|(spec, _)| *spec == target).unwrap().1,
        RenderPriority::NextViewport
    );
    assert_eq!(
        later.iter().find(|(spec, _)| *spec == target).unwrap().1,
        RenderPriority::Visible
    );
}
