use crate::geometry::Position;
use vstd::prelude::*;

verus! {

/// The kind of ground a map cell holds. `_LAST` counts the variants and is
/// never placed on the map.
#[derive(Clone, Copy, Debug, PartialEq, Eq, Structural, Hash)]
pub enum Tile {
    Water,
    Sand,
    Grass,
    Hills,
    Mountains,
    _LAST,
}

/// Number of concrete tile kinds.
pub const TILE_KINDS: u8 = 5;

/// The tile with index `i`; an index past the last kind gives `Water`.
pub open spec fn tile_of_index(i: int) -> Tile {
    if i == 0 {
        Tile::Water
    } else if i == 1 {
        Tile::Sand
    } else if i == 2 {
        Tile::Grass
    } else if i == 3 {
        Tile::Hills
    } else if i == 4 {
        Tile::Mountains
    } else {
        Tile::Water
    }
}

/// A noise bucket clamped into `[0, TILE_KINDS - 1]`.
pub open spec fn clamp_bucket(bucket: int) -> int {
    if bucket < 0 {
        0
    } else if bucket > TILE_KINDS - 1 {
        TILE_KINDS - 1
    } else {
        bucket
    }
}

/// The tile chosen for a cell whose noise sample fell in `bucket`.
pub open spec fn tile_of_bucket(bucket: int) -> Tile {
    tile_of_index(clamp_bucket(bucket))
}

impl From<u8> for Tile {
    fn from(value: u8) -> (r: Tile) {
        match value {
            0 => Tile::Water,
            1 => Tile::Sand,
            2 => Tile::Grass,
            3 => Tile::Hills,
            4 => Tile::Mountains,
            _ => Tile::Water,
        }
    }
}

impl vstd::std_specs::convert::FromSpecImpl<u8> for Tile {
    open spec fn obeys_from_spec() -> bool {
        true
    }

    open spec fn from_spec(v: u8) -> Tile {
        tile_of_index(v as int)
    }
}

impl Tile {
    /// The tile for a noise bucket (the sample scaled by the number of kinds
    /// and floored); buckets out of range are clamped to the nearest kind.
    pub fn from_noise_bucket(bucket: i64) -> (r: Tile)
        ensures
            r == tile_of_bucket(bucket as int),
            r != Tile::_LAST,
    {
        let index: u8 = if bucket < 0 {
            0
        } else if bucket > (TILE_KINDS - 1) as i64 {
            TILE_KINDS - 1
        } else {
            bucket as u8
        };
        Tile::from(index)
    }
}

/// The size of the map: cell counts and the world size of one cell.
#[derive(Clone, Copy, Debug, PartialEq, Eq, Structural)]
pub struct Grid {
    pub columns: u32,
    pub rows: u32,
    pub tile_width: u32,
    pub tile_height: u32,
}

/// The largest world extent along one axis that `i32` positions can address.
pub const MAX_WORLD_EXTENT: u64 = 0x8000_0000;

impl Grid {
    pub open spec fn wf(&self) -> bool {
        &&& self.columns > 0
        &&& self.rows > 0
        &&& self.tile_width > 0
        &&& self.tile_height > 0
        &&& self.columns * self.tile_width <= MAX_WORLD_EXTENT
        &&& self.rows * self.tile_height <= MAX_WORLD_EXTENT
    }

    pub open spec fn in_grid(&self, col: int, row: int) -> bool {
        0 <= col < self.columns && 0 <= row < self.rows
    }

    /// Cells on the outer ring: first or last row or column.
    pub open spec fn is_border(&self, col: int, row: int) -> bool {
        self.in_grid(col, row) && (col == 0 || row == 0 || col == self.columns - 1 || row
            == self.rows - 1)
    }

    /// A grid of `columns` by `rows` cells of `tile_width` by `tile_height`
    /// world units, centred on the origin.
    pub fn new(columns: u32, rows: u32, tile_width: u32, tile_height: u32) -> (r: Option<Grid>)
        ensures
            r is Some <==> (columns > 0 && rows > 0 && tile_width > 0 && tile_height > 0
                && columns * tile_width <= MAX_WORLD_EXTENT && rows * tile_height
                <= MAX_WORLD_EXTENT),
            r matches Some(g) ==> g.wf() && g.columns == columns && g.rows == rows
                && g.tile_width == tile_width && g.tile_height == tile_height,
    {
        if columns == 0 || rows == 0 || tile_width == 0 || tile_height == 0 {
            return None;
        }
        assert(columns * tile_width <= 0xffff_ffff * 0xffff_ffff) by (nonlinear_arith)
            requires
                columns <= 0xffff_ffff,
                tile_width <= 0xffff_ffff,
        ;
        assert(rows * tile_height <= 0xffff_ffff * 0xffff_ffff) by (nonlinear_arith)
            requires
                rows <= 0xffff_ffff,
                tile_height <= 0xffff_ffff,
        ;
        if columns as u64 * tile_width as u64 > MAX_WORLD_EXTENT || rows as u64 * tile_height as u64
            > MAX_WORLD_EXTENT {
            return None;
        }
        Some(Grid { columns, rows, tile_width, tile_height })
    }

    /// World coordinate of the centre of cell `i` along an axis of `cells`
    /// cells of size `tile` (rounded down where it falls between units).
    pub open spec fn axis_center(i: int, cells: int, tile: int) -> int {
        ((2 * i - cells) * tile) / 2
    }

    /// The cell index along an axis for world coordinate `coord`:
    /// `round(coord / tile + cells / 2)`, halves rounded away from zero, or
    /// `-1` where that is negative.
    pub open spec fn axis_cell(coord: int, cells: int, tile: int) -> int {
        let num = 4 * coord + 2 * cells * tile + 2 * tile;
        if num > 0 {
            num / (4 * tile)
        } else {
            -1
        }
    }

    /// The grid cell of a world position; when either axis would be negative
    /// the result is the origin cell.
    pub open spec fn cell_of(&self, p: Position) -> (int, int) {
        let cx = Self::axis_cell(p.x as int, self.columns as int, self.tile_width as int);
        let cy = Self::axis_cell(p.y as int, self.rows as int, self.tile_height as int);
        if cx >= 0 && cy >= 0 {
            (cx, cy)
        } else {
            (0, 0)
        }
    }

    pub open spec fn center_of(&self, col: int, row: int) -> Position {
        Position {
            x: Self::axis_center(col, self.columns as int, self.tile_width as int) as i32,
            y: Self::axis_center(row, self.rows as int, self.tile_height as int) as i32,
        }
    }

    fn axis_center_exec(i: u32, cells: u32, tile: u32) -> (r: i32)
        requires
            i < cells,
            tile > 0,
            cells * tile <= MAX_WORLD_EXTENT,
        ensures
            r == Self::axis_center(i as int, cells as int, tile as int),
    {
        let a: i64 = 2 * i as i64 - cells as i64;
        assert(-(cells as int) <= a < cells);
        assert(-(cells * tile) <= a * tile <= cells * tile) by (nonlinear_arith)
            requires
                -(cells as int) <= a <= cells,
                tile > 0,
        ;
        let v: i64 = a * tile as i64;
        if v >= 0 {
            (v / 2) as i32
        } else {
            let m: i64 = -v;
            let h: i64 = (m + 1) / 2;
            assert(-h == v / 2);
            (-h) as i32
        }
    }

    fn axis_cell_exec(coord: i32, cells: u32, tile: u32) -> (r: i64)
        requires
            cells > 0,
            tile > 0,
            cells * tile <= MAX_WORLD_EXTENT,
        ensures
            r == Self::axis_cell(coord as int, cells as int, tile as int),
            r < 0x1_0000_0000,
    {
        assert(tile <= cells * tile <= MAX_WORLD_EXTENT) by (nonlinear_arith)
            requires
                cells > 0,
                tile > 0,
                cells * tile <= MAX_WORLD_EXTENT,
        ;
        let ct: i64 = cells as i64 * tile as i64;
        let num: i64 = 4 * coord as i64 + 2 * ct + 2 * tile as i64;
        assert(num == 4 * coord + 2 * cells * tile + 2 * tile) by (nonlinear_arith)
            requires
                num == 4 * coord + 2 * ct + 2 * tile,
                ct == cells * tile,
        ;
        if num > 0 {
            let q: i64 = num / (4 * tile as i64);
            assert(q <= num / 4) by (nonlinear_arith)
                requires
                    q as int == (num as int) / (4 * (tile as int)),
                    tile >= 1,
                    num > 0,
            ;
            assert(num / 4 < 0x1_0000_0000);
            q
        } else {
            -1
        }
    }

    /// The world position of the centre of cell (`col`, `row`).
    pub fn tile_center(&self, col: u32, row: u32) -> (r: Position)
        requires
            self.wf(),
            col < self.columns,
            row < self.rows,
        ensures
            r == self.center_of(col as int, row as int),
    {
        Position {
            x: Self::axis_center_exec(col, self.columns, self.tile_width),
            y: Self::axis_center_exec(row, self.rows, self.tile_height),
        }
    }
}

/// The grid cell (column, row) that a world position falls in; positions that
/// would map below the origin on either axis give (0, 0).
pub fn translate_transform_to_grid_space(grid: &Grid, translation: Position) -> (r: (usize, usize))
    requires
        grid.wf(),
    ensures
        r.0 == grid.cell_of(translation).0,
        r.1 == grid.cell_of(translation).1,
{
    let cx = Grid::axis_cell_exec(translation.x, grid.columns, grid.tile_width);
    let cy = Grid::axis_cell_exec(translation.y, grid.rows, grid.tile_height);
    if cx >= 0 && cy >= 0 {
        (cx as usize, cy as usize)
    } else {
        (0, 0)
    }
}

/// Grid addressing is a bijection between the tile centres and the cells:
/// each cell's centre maps back to that cell, and distinct cells have
/// distinct centres. Centres are whole world units when the world extent
/// along each axis is even.
pub proof fn lemma_grid_mapping_bijection(grid: Grid, col: int, row: int, col2: int, row2: int)
    requires
        grid.wf(),
        grid.in_grid(col, row),
        grid.in_grid(col2, row2),
        (grid.columns * grid.tile_width) % 2 == 0,
        (grid.rows * grid.tile_height) % 2 == 0,
    ensures
        grid.cell_of(grid.center_of(col, row)) == (col, row),
        grid.center_of(col, row) == grid.center_of(col2, row2) ==> col == col2 && row == row2,
{
    lemma_axis_round_trip(col, grid.columns as int, grid.tile_width as int);
    lemma_axis_round_trip(row, grid.rows as int, grid.tile_height as int);
    lemma_axis_round_trip(col2, grid.columns as int, grid.tile_width as int);
    lemma_axis_round_trip(row2, grid.rows as int, grid.tile_height as int);
}

proof fn lemma_axis_round_trip(i: int, cells: int, tile: int)
    requires
        0 <= i < cells,
        tile > 0,
        cells * tile <= MAX_WORLD_EXTENT,
        (cells * tile) % 2 == 0,
    ensures
        Grid::axis_center(i, cells, tile) == i * tile - (cells * tile) / 2,
        -0x8000_0000 <= Grid::axis_center(i, cells, tile) < 0x8000_0000,
        Grid::axis_cell(Grid::axis_center(i, cells, tile), cells, tile) == i,
{
    let h = (cells * tile) / 2;
    assert(cells * tile == 2 * h);
    assert((2 * i - cells) * tile == 2 * (i * tile - h)) by (nonlinear_arith)
        requires
            cells * tile == 2 * h,
    ;
    let c = i * tile - h;
    assert(Grid::axis_center(i, cells, tile) == c);
    assert(0 <= i * tile < cells * tile) by (nonlinear_arith)
        requires
            0 <= i < cells,
            tile > 0,
    ;
    let num = 4 * c + 2 * cells * tile + 2 * tile;
    assert(num == 4 * (i * tile) + 2 * tile) by (nonlinear_arith)
        requires
            num == 4 * c + 2 * cells * tile + 2 * tile,
            c == i * tile - h,
            cells * tile == 2 * h,
    ;
    assert(num == (4 * tile) * i + 2 * tile) by (nonlinear_arith)
        requires
            num == 4 * (i * tile) + 2 * tile,
    ;
    assert(num > 0) by (nonlinear_arith)
        requires
            num == 4 * (i * tile) + 2 * tile,
            i * tile >= 0,
            tile > 0,
    ;
    vstd::arithmetic::div_mod::lemma_fundamental_div_mod_converse(
        num,
        4 * tile,
        i,
        2 * tile,
    );
}

/// Marker of the cells on the map's outer ring.
#[derive(Clone, Copy, Debug, PartialEq, Eq, Structural)]
pub struct BorderTile;

/// One placed cell: its tile, the world position of its centre, and whether
/// it lies on the border.
#[derive(Clone, Copy, Debug, PartialEq, Eq, Structural)]
pub struct TileBundle {
    pub tile: Tile,
    pub translation: Position,
    pub border: bool,
}

/// The generated map: one tile per cell, stored row by row, queried by
/// grid cell or world position.
pub struct TileQuery {
    grid: Grid,
    tiles: Vec<Tile>,
}

impl TileQuery {
    pub closed spec fn grid_spec(&self) -> Grid {
        self.grid
    }

    /// The tiles, row by row.
    pub closed spec fn tiles_spec(&self) -> Seq<Tile> {
        self.tiles@
    }

    pub open spec fn wf(&self) -> bool {
        &&& self.grid_spec().wf()
        &&& self.tiles_spec().len() == self.grid_spec().columns * self.grid_spec().rows
    }

    /// The tile at a cell of the grid.
    pub open spec fn tile_at(&self, col: int, row: int) -> Tile {
        self.tiles_spec()[row * self.grid_spec().columns + col]
    }

    pub fn grid(&self) -> (r: Grid)
        ensures
            r == self.grid_spec(),
    {
        self.grid
    }

    /// The tile at (`col`, `row`), or `None` outside the grid.
    pub fn tile_at_cell(&self, col: usize, row: usize) -> (r: Option<Tile>)
        requires
            self.wf(),
        ensures
            r is Some <==> self.grid_spec().in_grid(col as int, row as int),
            r matches Some(t) ==> t == self.tile_at(col as int, row as int),
    {
        let n = self.tiles.len();
        if col < self.grid.columns as usize && row < self.grid.rows as usize {
            proof {
                lemma_cell_index_in_bounds(
                    col as int,
                    row as int,
                    self.grid.columns as int,
                    self.grid.rows as int,
                );
            }
            assert(row * self.grid.columns + col < n);
            assert(row * self.grid.columns <= n) by (nonlinear_arith)
                requires
                    row * self.grid.columns + col < n,
                    col >= 0,
            ;
            Some(self.tiles[row * self.grid.columns as usize + col])
        } else {
            None
        }
    }

    /// The tile whose cell contains world position `pos`, or `None` where the
    /// position maps outside the grid.
    pub fn get_from_position(&self, pos: Position) -> (r: Option<Tile>)
        requires
            self.wf(),
        ensures
            r is Some <==> self.grid_spec().in_grid(
                self.grid_spec().cell_of(pos).0,
                self.grid_spec().cell_of(pos).1,
            ),
            r matches Some(t) ==> t == self.tile_at(
                self.grid_spec().cell_of(pos).0,
                self.grid_spec().cell_of(pos).1,
            ),
    {
        let (col, row) = translate_transform_to_grid_space(&self.grid, pos);
        self.tile_at_cell(col, row)
    }

    /// Whether (`col`, `row`) is a cell of the outer ring.
    pub fn is_border_tile(&self, col: usize, row: usize) -> (r: bool)
        requires
            self.wf(),
        ensures
            r == self.grid_spec().is_border(col as int, row as int),
    {
        col < self.grid.columns as usize && row < self.grid.rows as usize && (col == 0 || row == 0
            || col == self.grid.columns as usize - 1 || row == self.grid.rows as usize - 1)
    }

    /// The cell (`col`, `row`) as it is placed in the world.
    pub fn tile_bundle(&self, col: u32, row: u32) -> (r: TileBundle)
        requires
            self.wf(),
            col < self.grid_spec().columns,
            row < self.grid_spec().rows,
        ensures
            r.tile == self.tile_at(col as int, row as int),
            r.translation == self.grid_spec().center_of(col as int, row as int),
            r.border == self.grid_spec().is_border(col as int, row as int),
    {
        let tile = self.tile_at_cell(col as usize, row as usize).unwrap();
        TileBundle {
            tile,
            translation: self.grid.tile_center(col, row),
            border: self.is_border_tile(col as usize, row as usize),
        }
    }
}

/// Lays out the map: cell `i` (row by row) gets the tile of noise bucket
/// `buckets[i]`.
pub fn generate_level(grid: Grid, buckets: &Vec<i64>) -> (r: TileQuery)
    requires
        grid.wf(),
        buckets@.len() == grid.columns * grid.rows,
    ensures
        r.wf(),
        r.grid_spec() == grid,
        forall|i: int| 0 <= i < buckets@.len() ==> r.tiles_spec()[i] == tile_of_bucket(buckets@[i] as int),
        forall|i: int| 0 <= i < r.tiles_spec().len() ==> r.tiles_spec()[i] != Tile::_LAST,
{
    let mut tiles: Vec<Tile> = Vec::new();
    let mut i: usize = 0;
    while i < buckets.len()
        invariant
            i <= buckets@.len(),
            tiles@.len() == i,
            forall|j: int| 0 <= j < i ==> tiles@[j] == tile_of_bucket(buckets@[j] as int),
            forall|j: int| 0 <= j < i ==> tiles@[j] != Tile::_LAST,
        decreases buckets@.len() - i,
    {
        tiles.push(Tile::from_noise_bucket(buckets[i]));
        i = i + 1;
    }
    TileQuery { grid, tiles }
}

/// Cell `a` comes before cell `b` row by row (cells are (column, row)).
pub open spec fn cell_before(a: (usize, usize), b: (usize, usize)) -> bool {
    a.1 < b.1 || (a.1 == b.1 && a.0 < b.0)
}

impl TileQuery {
    /// The border cells (column, row), row by row: exactly the cells of the
    /// first and last row and column, each once.
    pub fn border_tiles(&self) -> (r: Vec<(usize, usize)>)
        requires
            self.wf(),
        ensures
            forall|k: int| 0 <= k < r@.len() ==> self.grid_spec().is_border(r@[k].0 as int, r@[k].1 as int),
            forall|c: usize, w: usize| self.grid_spec().is_border(c as int, w as int) ==> r@.contains((c, w)),
            forall|k: int, l: int| 0 <= k < l < r@.len() ==> cell_before(r@[k], r@[l]),
    {
        let cols: usize = self.grid.columns as usize;
        let rows: usize = self.grid.rows as usize;
        let mut out: Vec<(usize, usize)> = Vec::new();
        let mut row: usize = 0;
        while row < rows
            invariant
                self.wf(),
                cols == self.grid_spec().columns,
                rows == self.grid_spec().rows,
                row <= rows,
                forall|k: int| 0 <= k < out@.len() ==> self.grid_spec().is_border(out@[k].0 as int, out@[k].1 as int) && out@[k].1 < row,
                forall|c: usize, w: usize| self.grid_spec().is_border(c as int, w as int) && w < row ==> out@.contains((c, w)),
                forall|k: int, l: int| 0 <= k < l < out@.len() ==> cell_before(out@[k], out@[l]),
            decreases rows - row,
        {
            let mut col: usize = 0;
            while col < cols
                invariant
                    self.wf(),
                    cols == self.grid_spec().columns,
                    rows == self.grid_spec().rows,
                    row < rows,
                    col <= cols,
                    forall|k: int| 0 <= k < out@.len() ==> self.grid_spec().is_border(out@[k].0 as int, out@[k].1 as int) && cell_before(out@[k], (col, row)),
                    forall|c: usize, w: usize| self.grid_spec().is_border(c as int, w as int) && cell_before((c, w), (col, row)) ==> out@.contains((c, w)),
                    forall|k: int, l: int| 0 <= k < l < out@.len() ==> cell_before(out@[k], out@[l]),
                decreases cols - col,
            {
                if self.is_border_tile(col, row) {
                    let ghost before = out@;
                    out.push((col, row));
                    proof {
                        assert forall|c: usize, w: usize| self.grid_spec().is_border(c as int, w as int) && cell_before((c, w), ((col + 1) as usize, row)) implies out@.contains((c, w)) by {
                            if c == col && w == row {
                                assert(out@[out@.len() - 1] == (c, w));
                            } else {
                                assert(before.contains((c, w)));
                                let k = choose|k: int| 0 <= k < before.len() && before[k] == (c, w);
                                assert(out@[k] == (c, w));
                            }
                        }
                    }
                } else {
                    proof {
                        assert forall|c: usize, w: usize| self.grid_spec().is_border(c as int, w as int) && cell_before((c, w), ((col + 1) as usize, row)) implies out@.contains((c, w)) by {
                            if c == col && w == row {
                            } else {
                                assert(out@.contains((c, w)));
                            }
                        }
                    }
                }
                col = col + 1;
            }
            proof {
                assert forall|c: usize, w: usize| self.grid_spec().is_border(c as int, w as int) && w < row + 1 implies out@.contains((c, w)) by {
                    assert(cell_before((c, w), (col, row)));
                }
            }
            row = row + 1;
        }
        out
    }
}

proof fn lemma_cell_index_in_bounds(col: int, row: int, columns: int, rows: int)
    requires
        0 <= col < columns,
        0 <= row < rows,
    ensures
        0 <= row * columns + col < columns * rows,
{
    assert(row * columns + col < (row + 1) * columns) by (nonlinear_arith)
        requires
            col < columns,
    ;
    assert((row + 1) * columns <= rows * columns) by (nonlinear_arith)
        requires
            row + 1 <= rows,
            columns > 0,
    ;
    assert(0 <= row * columns) by (nonlinear_arith)
        requires
            0 <= row,
            0 <= columns,
    ;
    assert(rows * columns == columns * rows) by (nonlinear_arith);
}

} // verus!
