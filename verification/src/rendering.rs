//! Which tiles of a page are rendered, in what order, and which results still count.
use crate::keys::{Key, KeySet};
use crate::numbers::{RectBits, at_most, number_at_most};
use vstd::prelude::*;

verus! {

/// The width of a thumbnail at most, in pixels.
pub const THUMBNAIL_MAX_WIDTH: u32 = 160;

/// The height of a thumbnail at most, in pixels.
pub const THUMBNAIL_MAX_HEIGHT: u32 = 220;

/// The edge of a full tile, in pixels.
pub const TILE_EDGE_PIXELS: u32 = 512;

/// A rectangle of a rendered page, in pixels.
#[derive(Clone, Copy, Debug, PartialEq, Eq, Structural, Hash)]
pub struct TileSpec {
    pub pixel_x: u32,
    pub pixel_y: u32,
    pub pixel_width: u32,
    pub pixel_height: u32,
}

impl TileSpec {
    /// The bytes of the tile's pixels.
    pub open spec fn byte_count(self) -> int {
        self.pixel_width * self.pixel_height * 4
    }

    /// The bytes of the tile's pixels, if a machine word can count them.
    pub fn rgba_bytes(self) -> (res: Option<usize>)
        ensures
            match res {
                None => self.byte_count() > usize::MAX,
                Some(bytes) => bytes == self.byte_count(),
            },
    {
        rgba_byte_count(self.pixel_width, self.pixel_height)
    }
}

/// The bytes of an image with four bytes per pixel, if a machine word can count them.
pub fn rgba_byte_count(width: u32, height: u32) -> (res: Option<usize>)
    ensures
        match res {
            None => width * height * 4 > usize::MAX,
            Some(bytes) => bytes == width * height * 4,
        },
{
    let pixels: usize = match (width as usize).checked_mul(height as usize) {
        None => {
            proof {
                assert(width * height * 4 >= width * height) by (nonlinear_arith)
                    requires
                        width >= 0,
                        height >= 0,
                ;
            }
            return None;
        },
        Some(pixels) => pixels,
    };
    pixels.checked_mul(4)
}

/// How urgent a tile is, the most urgent first.
#[derive(Clone, Copy, Debug, PartialEq, Eq, Structural)]
pub enum RenderPriority {
    Visible,
    CurrentViewport,
    NextViewport,
    PreviousViewport,
}

impl RenderPriority {
    /// The place in the order of urgency.
    pub open spec fn rank(self) -> int {
        match self {
            RenderPriority::Visible => 0,
            RenderPriority::CurrentViewport => 1,
            RenderPriority::NextViewport => 2,
            RenderPriority::PreviousViewport => 3,
        }
    }
}

/// A tile to render.
#[derive(Clone, Copy, Debug, PartialEq, Eq, Structural)]
pub struct TileRequest {
    pub page_index: usize,
    pub zoom_bits: u32,
    pub pixels_per_point_bits: u32,
    pub scale_bits: u32,
    pub generation: u64,
    pub expected_revision: u64,
    pub spec: TileSpec,
    pub priority: RenderPriority,
}

/// What identifies a rendered tile.
#[derive(Clone, Copy, Debug, PartialEq, Eq, Structural, Hash)]
pub struct TileCacheKey {
    pub document_id: u64,
    pub page_index: usize,
    pub zoom_bits: u32,
    pub pixels_per_point_bits: u32,
    pub rotation_quarter_turns: u8,
    pub spec: TileSpec,
    pub revision: u64,
}

impl Key for TileCacheKey {
    fn same(&self, other: &TileCacheKey) -> (res: bool) {
        *self == *other
    }
}

/// The key of the tile that a request asks for.
pub open spec fn tile_key(document_id: u64, request: TileRequest) -> TileCacheKey {
    TileCacheKey {
        document_id,
        page_index: request.page_index,
        zoom_bits: request.zoom_bits,
        pixels_per_point_bits: request.pixels_per_point_bits,
        rotation_quarter_turns: 0,
        spec: request.spec,
        revision: request.expected_revision,
    }
}

/// What the worker says of a tile that it rendered.
#[derive(Clone, Copy, Debug, PartialEq, Eq, Structural)]
pub struct RenderedTile {
    pub page_index: usize,
    pub zoom_bits: u32,
    pub pixels_per_point_bits: u32,
    pub generation: u64,
    pub revision: u64,
    pub spec: TileSpec,
    pub page_pixel_width: u32,
    pub page_pixel_height: u32,
    pub pixel_bytes: usize,
    /// Whether the page has the size that it was rendered with.
    pub bounds_match: bool,
}

/// The key of a rendered tile.
pub open spec fn rendered_key(document_id: u64, tile: RenderedTile) -> TileCacheKey {
    TileCacheKey {
        document_id,
        page_index: tile.page_index,
        zoom_bits: tile.zoom_bits,
        pixels_per_point_bits: tile.pixels_per_point_bits,
        rotation_quarter_turns: 0,
        spec: tile.spec,
        revision: tile.revision,
    }
}

impl TileCacheKey {
    pub fn from_request(document_id: u64, request: &TileRequest) -> (res: Self)
        ensures
            res == tile_key(document_id, *request),
    {
        TileCacheKey {
            document_id,
            page_index: request.page_index,
            zoom_bits: request.zoom_bits,
            pixels_per_point_bits: request.pixels_per_point_bits,
            rotation_quarter_turns: 0,
            spec: request.spec,
            revision: request.expected_revision,
        }
    }

    pub fn from_tile(document_id: u64, tile: &RenderedTile) -> (res: Self)
        ensures
            res == rendered_key(document_id, *tile),
    {
        TileCacheKey {
            document_id,
            page_index: tile.page_index,
            zoom_bits: tile.zoom_bits,
            pixels_per_point_bits: tile.pixels_per_point_bits,
            rotation_quarter_turns: 0,
            spec: tile.spec,
            revision: tile.revision,
        }
    }
}

/// Tiles that differ in zoom, density, place or revision have different keys.
pub proof fn tile_keys_tell_requests_apart(document_id: u64, a: TileRequest, b: TileRequest)
    ensures
        (tile_key(document_id, a) == tile_key(document_id, b)) == (a.page_index == b.page_index
            && a.zoom_bits == b.zoom_bits && a.pixels_per_point_bits == b.pixels_per_point_bits
            && a.spec == b.spec && a.expected_revision == b.expected_revision),
{
}

/// A thumbnail to render.
#[derive(Clone, Copy, Debug, PartialEq, Eq, Structural)]
pub struct ThumbnailRequest {
    pub page_index: usize,
    pub max_pixel_width: u32,
    pub max_pixel_height: u32,
    pub generation: u64,
    pub expected_revision: u64,
}

/// What the worker says of a thumbnail that it rendered.
#[derive(Clone, Copy, Debug, PartialEq, Eq, Structural)]
pub struct RenderedThumbnail {
    pub page_index: usize,
    pub max_pixel_width: u32,
    pub max_pixel_height: u32,
    pub generation: u64,
    pub revision: u64,
    pub pixel_width: u32,
    pub pixel_height: u32,
    pub pixel_bytes: usize,
}

/// What identifies a thumbnail.
#[derive(Clone, Copy, Debug, PartialEq, Eq, Structural, Hash)]
pub struct ThumbnailCacheKey {
    pub document_id: u64,
    pub page_index: usize,
    pub max_pixel_width: u32,
    pub max_pixel_height: u32,
    pub revision: u64,
}

impl Key for ThumbnailCacheKey {
    fn same(&self, other: &ThumbnailCacheKey) -> (res: bool) {
        *self == *other
    }
}

impl ThumbnailCacheKey {
    /// The key of a page's thumbnail in the usual size.
    pub fn for_page(document_id: u64, page_index: usize, revision: u64) -> (res: Self)
        ensures
            res == (ThumbnailCacheKey {
                document_id,
                page_index,
                max_pixel_width: THUMBNAIL_MAX_WIDTH,
                max_pixel_height: THUMBNAIL_MAX_HEIGHT,
                revision,
            }),
    {
        ThumbnailCacheKey {
            document_id,
            page_index,
            max_pixel_width: THUMBNAIL_MAX_WIDTH,
            max_pixel_height: THUMBNAIL_MAX_HEIGHT,
            revision,
        }
    }

    pub fn from_thumbnail(document_id: u64, thumbnail: &RenderedThumbnail) -> (res: Self)
        ensures
            res == (ThumbnailCacheKey {
                document_id,
                page_index: thumbnail.page_index,
                max_pixel_width: thumbnail.max_pixel_width,
                max_pixel_height: thumbnail.max_pixel_height,
                revision: thumbnail.revision,
            }),
    {
        ThumbnailCacheKey {
            document_id,
            page_index: thumbnail.page_index,
            max_pixel_width: thumbnail.max_pixel_width,
            max_pixel_height: thumbnail.max_pixel_height,
            revision: thumbnail.revision,
        }
    }

    pub fn from_request(document_id: u64, request: &ThumbnailRequest) -> (res: Self)
        ensures
            res == (ThumbnailCacheKey {
                document_id,
                page_index: request.page_index,
                max_pixel_width: request.max_pixel_width,
                max_pixel_height: request.max_pixel_height,
                revision: request.expected_revision,
            }),
    {
        ThumbnailCacheKey {
            document_id,
            page_index: request.page_index,
            max_pixel_width: request.max_pixel_width,
            max_pixel_height: request.max_pixel_height,
            revision: request.expected_revision,
        }
    }
}

/// A request for the text of a page.
#[derive(Clone, Copy, Debug, PartialEq, Eq, Structural)]
pub struct TextSnapshotRequest {
    pub page_index: usize,
    pub expected_revision: u64,
}

/// What identifies the text of a page.
#[derive(Clone, Copy, Debug, PartialEq, Eq, Structural, Hash)]
pub struct TextSnapshotKey {
    pub page_index: usize,
    pub revision: u64,
}

impl Key for TextSnapshotKey {
    fn same(&self, other: &TextSnapshotKey) -> (res: bool) {
        *self == *other
    }
}

impl TextSnapshotKey {
    pub fn from_request(request: &TextSnapshotRequest) -> (res: Self)
        ensures
            res.page_index == request.page_index,
            res.revision == request.expected_revision,
    {
        TextSnapshotKey { page_index: request.page_index, revision: request.expected_revision }
    }
}

/// A request for the annotations of a page.
#[derive(Clone, Copy, Debug, PartialEq, Eq, Structural, Hash)]
pub struct AnnotationPageRequest {
    pub page_index: usize,
    pub expected_revision: u64,
}

impl Key for AnnotationPageRequest {
    fn same(&self, other: &AnnotationPageRequest) -> (res: bool) {
        *self == *other
    }
}

/// Whether a revision is the current one.
pub fn is_current_revision(revision: u64, current_revision: Option<u64>) -> (res: bool)
    ensures
        res == (current_revision == Some(revision)),
{
    match current_revision {
        None => false,
        Some(current) => current == revision,
    }
}

/// Whether a rendered tile still belongs on the screen.
pub fn tile_result_is_current(
    is_visible: bool,
    key: TileCacheKey,
    result_generation: u64,
    current_generation: u64,
    current_revision: Option<u64>,
    wanted_tiles: &KeySet<TileCacheKey>,
) -> (res: bool)
    ensures
        res == (is_visible && result_generation == current_generation && current_revision == Some(
            key.revision,
        ) && wanted_tiles@.contains(key)),
{
    is_visible && result_generation == current_generation && is_current_revision(
        key.revision,
        current_revision,
    ) && wanted_tiles.contains(key)
}

/// Whether the text of a page still belongs on the screen.
pub fn text_snapshot_result_is_current(
    is_visible: bool,
    key: TextSnapshotKey,
    current_revision: Option<u64>,
    page_count: usize,
    wanted: &KeySet<TextSnapshotKey>,
) -> (res: bool)
    ensures
        res == (is_visible && current_revision == Some(key.revision) && key.page_index < page_count
            && wanted@.contains(key)),
{
    is_visible && is_current_revision(key.revision, current_revision) && key.page_index
        < page_count && wanted.contains(key)
}

/// Whether the annotations of a page still belong on the screen.
pub fn annotation_page_result_is_current(
    is_visible: bool,
    request: AnnotationPageRequest,
    current_revision: Option<u64>,
    wanted: &KeySet<AnnotationPageRequest>,
) -> (res: bool)
    ensures
        res == (is_visible && current_revision == Some(request.expected_revision)
            && wanted@.contains(request)),
{
    is_visible && is_current_revision(request.expected_revision, current_revision)
        && wanted.contains(request)
}

/// Notes that a thumbnail failed; it is not asked for again by itself.
pub fn mark_thumbnail_failed(
    pending: &mut KeySet<ThumbnailCacheKey>,
    failed: &mut KeySet<ThumbnailCacheKey>,
    key: ThumbnailCacheKey,
)
    ensures
        final(pending)@ == old(pending)@.remove(key),
        final(failed)@ == old(failed)@.insert(key),
{
    pending.remove(key);
    failed.insert(key);
}

/// How urgent a tile is: on screen, ahead in reading direction, or behind.
pub open spec fn priority_of(tile: RectBits, viewport: RectBits) -> RenderPriority {
    if tile.meets(viewport) {
        RenderPriority::Visible
    } else if at_most(viewport.bottom, tile.top) || at_most(viewport.right, tile.left) {
        RenderPriority::NextViewport
    } else {
        RenderPriority::PreviousViewport
    }
}

pub fn tile_priority(tile: RectBits, viewport: RectBits) -> (res: RenderPriority)
    ensures
        res == priority_of(tile, viewport),
{
    if tile.intersects(&viewport) {
        return RenderPriority::Visible;
    }
    if number_at_most(viewport.bottom, tile.top) || number_at_most(viewport.right, tile.left) {
        RenderPriority::NextViewport
    } else {
        RenderPriority::PreviousViewport
    }
}

/// A tile and where it lies on the screen.
#[derive(Clone, Copy, Debug, PartialEq, Eq, Structural)]
pub struct PlacedTile {
    pub spec: TileSpec,
    pub rect: RectBits,
}

/// The tiles among the first `count` that meet the requested part of the page.
pub open spec fn tiles_meeting(tiles: Seq<PlacedTile>, request: RectBits, count: int) -> Seq<
    PlacedTile,
>
    decreases count,
{
    if count <= 0 {
        seq![]
    } else if tiles[count - 1].rect.meets(request) {
        tiles_meeting(tiles, request, count - 1).push(tiles[count - 1])
    } else {
        tiles_meeting(tiles, request, count - 1)
    }
}

/// Keeps the tiles that meet the requested part of the page.
pub fn tile_specs_intersecting_viewport(tiles: &Vec<PlacedTile>, request_viewport: RectBits) -> (res:
    Vec<PlacedTile>)
    ensures
        res@ == tiles_meeting(tiles@, request_viewport, tiles@.len() as int),
{
    let mut res: Vec<PlacedTile> = Vec::new();
    let mut i: usize = 0;
    assert(res@ =~= tiles_meeting(tiles@, request_viewport, 0));
    while i < tiles.len()
        invariant
            i <= tiles.len(),
            res@ == tiles_meeting(tiles@, request_viewport, i as int),
        decreases tiles.len() - i,
    {
        if tiles[i].rect.intersects(&request_viewport) {
            res.push(tiles[i]);
        }
        i += 1;
    }
    res
}

/// The requested tiles, each with its urgency.
pub fn prioritized_tile_specs(
    tiles: &Vec<PlacedTile>,
    request_viewport: RectBits,
    visible_viewport: RectBits,
) -> (res: Vec<(TileSpec, RenderPriority)>)
    ensures
        ({
            let kept = tiles_meeting(tiles@, request_viewport, tiles@.len() as int);
            &&& res@.len() == kept.len()
            &&& forall|i: int|
                0 <= i < kept.len() ==> (#[trigger] res@[i]) == (
                    kept[i].spec,
                    priority_of(kept[i].rect, visible_viewport),
                )
        }),
{
    let kept = tile_specs_intersecting_viewport(tiles, request_viewport);
    let mut res: Vec<(TileSpec, RenderPriority)> = Vec::new();
    let mut i: usize = 0;
    while i < kept.len()
        invariant
            i <= kept.len(),
            res.len() == i,
            forall|k: int|
                0 <= k < i ==> (#[trigger] res@[k]) == (
                    kept@[k].spec,
                    priority_of(kept@[k].rect, visible_viewport),
                ),
        decreases kept.len() - i,
    {
        res.push((kept[i].spec, tile_priority(kept[i].rect, visible_viewport)));
        i += 1;
    }
    res
}

/// What all tiles of a frame share.
#[derive(Clone, Copy, Debug, PartialEq, Eq, Structural)]
pub struct RenderFrame {
    pub zoom_bits: u32,
    pub pixels_per_point_bits: u32,
    pub scale_bits: u32,
    pub generation: u64,
    pub revision: u64,
}

/// The request for one tile of a page.
pub open spec fn request_for(
    frame: RenderFrame,
    page_index: usize,
    spec: TileSpec,
    priority: RenderPriority,
) -> TileRequest {
    TileRequest {
        page_index,
        zoom_bits: frame.zoom_bits,
        pixels_per_point_bits: frame.pixels_per_point_bits,
        scale_bits: frame.scale_bits,
        generation: frame.generation,
        expected_revision: frame.revision,
        spec,
        priority,
    }
}

/// The requests for the tiles of a page.
pub open spec fn requests_for(
    frame: RenderFrame,
    page_index: usize,
    tiles: Seq<(TileSpec, RenderPriority)>,
) -> Seq<TileRequest> {
    Seq::new(tiles.len(), |i: int| request_for(frame, page_index, tiles[i].0, tiles[i].1))
}

/// Requests the tiles of a page.
pub fn tile_requests_for_page(
    frame: RenderFrame,
    page_index: usize,
    tiles: &Vec<(TileSpec, RenderPriority)>,
) -> (res: Vec<TileRequest>)
    ensures
        res@ == requests_for(frame, page_index, tiles@),
{
    let mut res: Vec<TileRequest> = Vec::new();
    let mut i: usize = 0;
    while i < tiles.len()
        invariant
            i <= tiles.len(),
            res.len() == i,
            forall|k: int|
                0 <= k < i ==> (#[trigger] res@[k]) == request_for(
                    frame,
                    page_index,
                    tiles@[k].0,
                    tiles@[k].1,
                ),
        decreases tiles.len() - i,
    {
        res.push(
            TileRequest {
                page_index,
                zoom_bits: frame.zoom_bits,
                pixels_per_point_bits: frame.pixels_per_point_bits,
                scale_bits: frame.scale_bits,
                generation: frame.generation,
                expected_revision: frame.revision,
                spec: tiles[i].0,
                priority: tiles[i].1,
            },
        );
        i += 1;
    }
    assert(res@ =~= requests_for(frame, page_index, tiles@));
    res
}

/// The tiles of the page on screen, in single page mode: what is not visible still comes
/// before any other page.
pub open spec fn current_page_tiles(tiles: Seq<(TileSpec, RenderPriority)>) -> Seq<
    (TileSpec, RenderPriority),
> {
    Seq::new(
        tiles.len(),
        |i: int|
            (
                tiles[i].0,
                if tiles[i].1 is Visible {
                    RenderPriority::Visible
                } else {
                    RenderPriority::CurrentViewport
                },
            ),
    )
}

/// Tiles of a neighbouring page.
pub open spec fn neighbour_tiles(specs: Seq<TileSpec>, priority: RenderPriority) -> Seq<
    (TileSpec, RenderPriority),
> {
    Seq::new(specs.len(), |i: int| (specs[i], priority))
}

/// The requests for a page and for what turning a page would show, in single page mode.
pub open spec fn single_page_requests(
    frame: RenderFrame,
    page_count: int,
    page_index: usize,
    current: Seq<(TileSpec, RenderPriority)>,
    next: Seq<TileSpec>,
    previous: Seq<TileSpec>,
) -> Seq<TileRequest> {
    if page_index >= page_count {
        seq![]
    } else {
        requests_for(frame, page_index, current_page_tiles(current)) + (if page_index + 1
            < page_count {
            requests_for(
                frame,
                (page_index + 1) as usize,
                neighbour_tiles(next, RenderPriority::NextViewport),
            )
        } else {
            seq![]
        }) + (if page_index > 0 {
            requests_for(
                frame,
                (page_index - 1) as usize,
                neighbour_tiles(previous, RenderPriority::PreviousViewport),
            )
        } else {
            seq![]
        })
    }
}

fn with_priority(specs: &Vec<TileSpec>, priority: RenderPriority) -> (res: Vec<
    (TileSpec, RenderPriority),
>)
    ensures
        res@ == neighbour_tiles(specs@, priority),
{
    let mut res: Vec<(TileSpec, RenderPriority)> = Vec::new();
    let mut i: usize = 0;
    while i < specs.len()
        invariant
            i <= specs.len(),
            res.len() == i,
            forall|k: int| 0 <= k < i ==> (#[trigger] res@[k]) == (specs@[k], priority),
        decreases specs.len() - i,
    {
        res.push((specs[i], priority));
        i += 1;
    }
    assert(res@ =~= neighbour_tiles(specs@, priority));
    res
}

/// Requests the tiles of the page on screen, then those that the next and the previous
/// page would show.
pub fn single_page_tile_requests(
    frame: RenderFrame,
    page_count: usize,
    page_index: usize,
    current: &Vec<(TileSpec, RenderPriority)>,
    next: &Vec<TileSpec>,
    previous: &Vec<TileSpec>,
) -> (res: Vec<TileRequest>)
    ensures
        res@ == single_page_requests(
            frame,
            page_count as int,
            page_index,
            current@,
            next@,
            previous@,
        ),
{
    if page_index >= page_count {
        let res: Vec<TileRequest> = Vec::new();
        assert(res@ =~= seq![]);
        return res;
    }
    let mut tiles: Vec<(TileSpec, RenderPriority)> = Vec::new();
    let mut i: usize = 0;
    while i < current.len()
        invariant
            i <= current.len(),
            tiles.len() == i,
            forall|k: int|
                0 <= k < i ==> (#[trigger] tiles@[k]) == current_page_tiles(current@)[k],
        decreases current.len() - i,
    {
        let priority = if current[i].1 == RenderPriority::Visible {
            RenderPriority::Visible
        } else {
            RenderPriority::CurrentViewport
        };
        tiles.push((current[i].0, priority));
        i += 1;
    }
    assert(tiles@ =~= current_page_tiles(current@));
    let mut res = tile_requests_for_page(frame, page_index, &tiles);
    if page_index < page_count - 1 {
        let ahead = with_priority(next, RenderPriority::NextViewport);
        let mut requests = tile_requests_for_page(frame, page_index + 1, &ahead);
        res.append(&mut requests);
    }
    if page_index > 0 {
        let behind = with_priority(previous, RenderPriority::PreviousViewport);
        let mut requests = tile_requests_for_page(frame, page_index - 1, &behind);
        res.append(&mut requests);
    }
    assert(res@ =~= single_page_requests(
        frame,
        page_count as int,
        page_index,
        current@,
        next@,
        previous@,
    ));
    res
}

} // verus!
