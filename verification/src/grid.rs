//! The tiles that a rendered page is cut into.
use crate::rendering::{TileSpec, TILE_EDGE_PIXELS};
use vstd::prelude::*;

verus! {

/// A page of so many pixels, cut into square tiles from its upper left corner. The tiles at the
/// right and at the bottom are as small as the page leaves them.
#[derive(Clone, Copy, Debug, PartialEq, Eq, Structural)]
pub struct TileGrid {
    pub pixel_width: u32,
    pub pixel_height: u32,
}

/// The extent of the tile at a place, along one side of the page.
pub open spec fn tile_extent(pixels: u32, place: int) -> int {
    if (place + 1) * TILE_EDGE_PIXELS <= pixels {
        TILE_EDGE_PIXELS as int
    } else {
        pixels - place * TILE_EDGE_PIXELS
    }
}

/// The first place behind those that hold a pixel before `end`, along one side of the page.
pub open spec fn end_place(end: u32) -> int {
    if end == 0 {
        0
    } else {
        (end - 1) / (TILE_EDGE_PIXELS as int) + 1
    }
}

impl TileGrid {
    /// The tile in a row and a column.
    pub open spec fn tile(self, row: int, column: int) -> TileSpec {
        TileSpec {
            pixel_x: (column * TILE_EDGE_PIXELS) as u32,
            pixel_y: (row * TILE_EDGE_PIXELS) as u32,
            pixel_width: tile_extent(self.pixel_width, column) as u32,
            pixel_height: tile_extent(self.pixel_height, row) as u32,
        }
    }

    /// The tiles of a row, from one column to before another.
    pub open spec fn row(self, row: int, first: int, end: int) -> Seq<TileSpec> {
        Seq::new(
            if end > first {
                (end - first) as nat
            } else {
                0
            },
            |j: int| self.tile(row, first + j),
        )
    }

    /// The tiles of rows, each from one column to before another.
    pub open spec fn rows(self, first_row: int, end_row: int, first: int, end: int) -> Seq<TileSpec>
        decreases end_row - first_row,
    {
        if end_row <= first_row {
            seq![]
        } else {
            self.rows(first_row, end_row - 1, first, end) + self.row(end_row - 1, first, end)
        }
    }

    /// The tiles that hold a pixel from the first corner to before the second, row by row.
    pub open spec fn tiles_between(self, min_x: u32, min_y: u32, max_x: u32, max_y: u32) -> Seq<
        TileSpec,
    > {
        if min_x < max_x && min_y < max_y {
            self.rows(
                min_y as int / TILE_EDGE_PIXELS as int,
                end_place(max_y),
                min_x as int / TILE_EDGE_PIXELS as int,
                end_place(max_x),
            )
        } else {
            seq![]
        }
    }

    /// A page of so many pixels, if it has any.
    pub fn new(pixel_width: u32, pixel_height: u32) -> (res: Option<TileGrid>)
        ensures
            res == if pixel_width > 0 && pixel_height > 0 {
                Some(TileGrid { pixel_width, pixel_height })
            } else {
                None
            },
    {
        if pixel_width > 0 && pixel_height > 0 {
            Some(TileGrid { pixel_width, pixel_height })
        } else {
            None
        }
    }

    /// The tiles that hold a pixel from the first corner to before the second, row by row.
    pub fn specs_in_pixel_rect(&self, min_x: u32, min_y: u32, max_x: u32, max_y: u32) -> (res: Vec<
        TileSpec,
    >)
        requires
            max_x <= self.pixel_width,
            max_y <= self.pixel_height,
        ensures
            res@ == self.tiles_between(min_x, min_y, max_x, max_y),
    {
        if min_x >= max_x || min_y >= max_y {
            return Vec::new();
        }
        let first_row: u32 = min_y / TILE_EDGE_PIXELS;
        let first: u32 = min_x / TILE_EDGE_PIXELS;
        let end_row: u32 = if max_y == 0 {
            0
        } else {
            (max_y - 1) / TILE_EDGE_PIXELS + 1
        };
        let end: u32 = if max_x == 0 {
            0
        } else {
            (max_x - 1) / TILE_EDGE_PIXELS + 1
        };
        let mut res: Vec<TileSpec> = Vec::new();
        let mut row: u32 = first_row;
        while row < end_row
            invariant
                max_x <= self.pixel_width,
                max_y <= self.pixel_height,
                end_row == end_place(max_y),
                end == end_place(max_x),
                first_row <= row,
                row <= end_row || row == first_row,
                res@ == self.rows(first_row as int, row as int, first as int, end as int),
            decreases end_row - row,
        {
            let ghost before = res@;
            let mut column: u32 = first;
            assert(before =~= before + self.row(row as int, first as int, column as int));
            while column < end
                invariant
                    max_x <= self.pixel_width,
                    max_y <= self.pixel_height,
                    end_row == end_place(max_y),
                    end == end_place(max_x),
                    row < end_row,
                    first <= column,
                    column <= end || column == first,
                    res@ == before + self.row(row as int, first as int, column as int),
                decreases end - column,
            {
                assert(column * TILE_EDGE_PIXELS < max_x);
                assert(row * TILE_EDGE_PIXELS < max_y);
                let spec = TileSpec {
                    pixel_x: column * TILE_EDGE_PIXELS,
                    pixel_y: row * TILE_EDGE_PIXELS,
                    pixel_width: extent(self.pixel_width, column),
                    pixel_height: extent(self.pixel_height, row),
                };
                assert(spec == self.tile(row as int, column as int));
                res.push(spec);
                column += 1;
                assert(res@ =~= before + self.row(row as int, first as int, column as int));
            }
            assert(self.row(row as int, first as int, column as int) =~= self.row(
                row as int,
                first as int,
                end as int,
            ));
            row += 1;
        }
        assert(self.rows(first_row as int, row as int, first as int, end as int) == self.rows(
            first_row as int,
            end_row as int,
            first as int,
            end as int,
        ));
        res
    }
}

fn extent(pixels: u32, place: u32) -> (res: u32)
    requires
        place * TILE_EDGE_PIXELS < pixels,
    ensures
        res == tile_extent(pixels, place as int),
{
    let start: u32 = place * TILE_EDGE_PIXELS;
    if pixels - start >= TILE_EDGE_PIXELS {
        TILE_EDGE_PIXELS
    } else {
        pixels - start
    }
}

proof fn rows_hold(
    grid: TileGrid,
    first_row: int,
    end_row: int,
    first: int,
    end: int,
    row: int,
    column: int,
)
    requires
        first_row <= row < end_row,
        first <= column < end,
    ensures
        grid.rows(first_row, end_row, first, end).contains(grid.tile(row, column)),
    decreases end_row - first_row,
{
    let before = grid.rows(first_row, end_row - 1, first, end);
    let last = grid.row(end_row - 1, first, end);
    let all = before + last;
    if row == end_row - 1 {
        assert(last[column - first] == grid.tile(row, column));
        assert(all[before.len() + column - first] == grid.tile(row, column));
    } else {
        rows_hold(grid, first_row, end_row - 1, first, end, row, column);
        let k = choose|k: int| 0 <= k < before.len() && before[k] == grid.tile(row, column);
        assert(all[k] == grid.tile(row, column));
    }
}

/// Every pixel that was asked for is in a tile of the list.
pub proof fn every_pixel_is_covered(
    grid: TileGrid,
    min_x: u32,
    min_y: u32,
    max_x: u32,
    max_y: u32,
    x: int,
    y: int,
)
    requires
        max_x <= grid.pixel_width,
        max_y <= grid.pixel_height,
        min_x <= x < max_x,
        min_y <= y < max_y,
    ensures
        exists|tile: TileSpec|
            {
                &&& #[trigger] grid.tiles_between(min_x, min_y, max_x, max_y).contains(tile)
                &&& tile.pixel_x <= x < tile.pixel_x + tile.pixel_width
                &&& tile.pixel_y <= y < tile.pixel_y + tile.pixel_height
            },
{
    let row = y / TILE_EDGE_PIXELS as int;
    let column = x / TILE_EDGE_PIXELS as int;
    rows_hold(
        grid,
        min_y as int / TILE_EDGE_PIXELS as int,
        end_place(max_y),
        min_x as int / TILE_EDGE_PIXELS as int,
        end_place(max_x),
        row,
        column,
    );
    let tile = grid.tile(row, column);
    assert(tile.pixel_x == column * TILE_EDGE_PIXELS);
    assert(tile.pixel_y == row * TILE_EDGE_PIXELS);
    assert(grid.tiles_between(min_x, min_y, max_x, max_y).contains(tile));
}

/// Which tile stands at a place of the list.
proof fn listed_tile(grid: TileGrid, first_row: int, end_row: int, first: int, end: int, k: int) -> (place:
    (int, int))
    requires
        0 <= k < grid.rows(first_row, end_row, first, end).len(),
    ensures
        first_row <= place.0 < end_row,
        first <= place.1 < end,
        grid.rows(first_row, end_row, first, end)[k] == grid.tile(place.0, place.1),
        k == (place.0 - first_row) * (end - first) + (place.1 - first),
    decreases end_row - first_row,
{
    let before = grid.rows(first_row, end_row - 1, first, end);
    rows_have_all_columns(grid, first_row, end_row - 1, first, end);
    if end_row <= first_row {
        (0, 0)
    } else if k < before.len() {
        listed_tile(grid, first_row, end_row - 1, first, end, k)
    } else {
        let column = first + (k - before.len());
        assert(grid.rows(first_row, end_row, first, end)[k] == grid.row(end_row - 1, first, end)[k
            - before.len()]);
        (end_row - 1, column)
    }
}

proof fn rows_have_all_columns(
    grid: TileGrid,
    first_row: int,
    end_row: int,
    first: int,
    end: int,
)
    ensures
        end_row >= first_row && end >= first ==> grid.rows(first_row, end_row, first, end).len() == (
        end_row - first_row) * (end - first),
    decreases end_row - first_row,
{
    if end_row > first_row {
        rows_have_all_columns(grid, first_row, end_row - 1, first, end);
        assert((end_row - first_row) * (end - first) == (end_row - 1 - first_row) * (end - first) + (
        end - first)) by (nonlinear_arith);
    } else if end_row == first_row {
        assert((end_row - first_row) * (end - first) == 0) by (nonlinear_arith)
            requires
                end_row == first_row,
        ;
    }
}

/// Every tile of the list stands on the raster, within the page, is at most one step wide and high,
/// and holds some of the pixels that were asked for.
pub proof fn listed_tiles_are_needed(
    grid: TileGrid,
    min_x: u32,
    min_y: u32,
    max_x: u32,
    max_y: u32,
    k: int,
)
    requires
        max_x <= grid.pixel_width,
        max_y <= grid.pixel_height,
        0 <= k < grid.tiles_between(min_x, min_y, max_x, max_y).len(),
    ensures
        ({
            let tile = grid.tiles_between(min_x, min_y, max_x, max_y)[k];
            &&& tile.pixel_x % 512 == 0
            &&& tile.pixel_y % 512 == 0
            &&& 0 < tile.pixel_width <= 512
            &&& 0 < tile.pixel_height <= 512
            &&& tile.pixel_x + tile.pixel_width <= grid.pixel_width
            &&& tile.pixel_y + tile.pixel_height <= grid.pixel_height
            &&& tile.pixel_width == 512 || tile.pixel_x + tile.pixel_width == grid.pixel_width
            &&& tile.pixel_height == 512 || tile.pixel_y + tile.pixel_height == grid.pixel_height
            &&& tile.pixel_x < max_x && min_x < tile.pixel_x + 512
            &&& tile.pixel_y < max_y && min_y < tile.pixel_y + 512
        }),
{
    let first_row = min_y as int / 512;
    let first = min_x as int / 512;
    let place = listed_tile(grid, first_row, end_place(max_y), first, end_place(max_x), k);
    assert(place.1 * 512 < max_x);
    assert(place.0 * 512 < max_y);
    assert(min_x < (first + 1) * 512);
    assert(min_y < (first_row + 1) * 512);
}

/// No tile is listed twice, and the tiles come row by row, each row from left to right.
pub proof fn tiles_are_listed_in_reading_order(
    grid: TileGrid,
    min_x: u32,
    min_y: u32,
    max_x: u32,
    max_y: u32,
    i: int,
    j: int,
)
    requires
        max_x <= grid.pixel_width,
        max_y <= grid.pixel_height,
        0 <= i < j < grid.tiles_between(min_x, min_y, max_x, max_y).len(),
    ensures
        ({
            let tiles = grid.tiles_between(min_x, min_y, max_x, max_y);
            tiles[i].pixel_y < tiles[j].pixel_y || (tiles[i].pixel_y == tiles[j].pixel_y
                && tiles[i].pixel_x < tiles[j].pixel_x)
        }),
{
    let first_row = min_y as int / 512;
    let first = min_x as int / 512;
    let end = end_place(max_x);
    let a = listed_tile(grid, first_row, end_place(max_y), first, end, i);
    let b = listed_tile(grid, first_row, end_place(max_y), first, end, j);
    assert(a.1 * 512 < max_x && b.1 * 512 < max_x);
    assert(a.0 * 512 < max_y && b.0 * 512 < max_y);
    assert(a.0 < b.0 || (a.0 == b.0 && a.1 < b.1)) by (nonlinear_arith)
        requires
            i == (a.0 - first_row) * (end - first) + (a.1 - first),
            j == (b.0 - first_row) * (end - first) + (b.1 - first),
            i < j,
            first <= a.1 < end,
            first <= b.1 < end,
    ;
}

} // verus!
