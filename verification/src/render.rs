use crate::level::{Level, OFFSET_LIMIT};
use crate::tile::Tile;
use crate::types::TileTypes;
use vstd::prelude::*;

verus! {

/// The fixed zoom factor applied to every draw submission.
pub const SCALE: i64 = 2;

/// One draw submission for the host renderer: which grid cell's sprite to
/// draw (`front` picks the front-face sprite instead of the body), the
/// destination on screen in half-pixels, and the zoom factor. Sprites are
/// pixel art: the host samples them nearest-neighbor so zooming keeps hard
/// edges.
#[derive(Clone, Copy, Debug, PartialEq, Eq, Structural)]
pub struct DrawCommand {
    pub col: usize,
    pub row: usize,
    pub front: bool,
    pub x: i64,
    pub y: i64,
    pub scale: i64,
}

/// The zoomed screen x of a tile in half-pixels: its pixel position plus the
/// pan offset, scaled.
pub open spec fn screen_x(t: Tile, x_off: int) -> int {
    (2 * t.pos.0 + x_off) * SCALE
}

/// The zoomed screen y of a tile in half-pixels.
pub open spec fn screen_y(t: Tile, y_off: int) -> int {
    (2 * t.pos.1 + y_off) * SCALE
}

/// The tile's zoomed position lies inside the viewport of
/// `screen_w × screen_h` pixels; anything else is culled.
pub open spec fn visible(t: Tile, x_off: int, y_off: int, screen_w: int, screen_h: int) -> bool {
    &&& 0 <= screen_x(t, x_off) <= 2 * screen_w
    &&& 0 <= screen_y(t, y_off) <= 2 * screen_h
}

/// The draw submissions one tile contributes: nothing when it is empty or
/// culled; a body draw plus a front-face draw one zoomed cell height lower
/// for a front-face wall; a single body draw otherwise.
pub open spec fn tile_cmds(
    t: Tile,
    col: int,
    row: int,
    x_off: int,
    y_off: int,
    screen_w: int,
    screen_h: int,
) -> Seq<DrawCommand> {
    if t.tile_type == TileTypes::Empty || !visible(t, x_off, y_off, screen_w, screen_h) {
        Seq::empty()
    } else {
        let body = DrawCommand {
            col: col as usize,
            row: row as usize,
            front: false,
            x: screen_x(t, x_off) as i64,
            y: screen_y(t, y_off) as i64,
            scale: SCALE,
        };
        if t.tile_type == TileTypes::WallFront {
            seq![
                body,
                DrawCommand {
                    col: col as usize,
                    row: row as usize,
                    front: true,
                    x: screen_x(t, x_off) as i64,
                    y: (screen_y(t, y_off) + 2 * 32 * SCALE) as i64,
                    scale: SCALE,
                },
            ]
        } else {
            seq![body]
        }
    }
}

/// The draw submissions of the first `n` tiles of row `r`, in storage order.
pub open spec fn row_cmds(
    row: Seq<Tile>,
    r: int,
    n: int,
    x_off: int,
    y_off: int,
    screen_w: int,
    screen_h: int,
) -> Seq<DrawCommand>
    decreases n,
{
    if n <= 0 {
        Seq::empty()
    } else {
        row_cmds(row, r, n - 1, x_off, y_off, screen_w, screen_h) + tile_cmds(
            row[n - 1],
            n - 1,
            r,
            x_off,
            y_off,
            screen_w,
            screen_h,
        )
    }
}

/// The draw submissions of the first `m` rows of the grid, in storage order.
pub open spec fn grid_cmds(
    tiles: Seq<Vec<Tile>>,
    m: int,
    x_off: int,
    y_off: int,
    screen_w: int,
    screen_h: int,
) -> Seq<DrawCommand>
    decreases m,
{
    if m <= 0 {
        Seq::empty()
    } else {
        grid_cmds(tiles, m - 1, x_off, y_off, screen_w, screen_h) + row_cmds(
            tiles[m - 1]@,
            m - 1,
            tiles[m - 1]@.len() as int,
            x_off,
            y_off,
            screen_w,
            screen_h,
        )
    }
}

/// No draw submission in a row's output names an empty cell, and every
/// submission points back into the row.
pub proof fn lemma_row_cmds_no_empty(
    row: Seq<Tile>,
    r: int,
    n: int,
    x_off: int,
    y_off: int,
    screen_w: int,
    screen_h: int,
)
    requires
        0 <= n <= row.len(),
        n <= usize::MAX,
        0 <= r <= usize::MAX,
    ensures
        forall|k: int|
            0 <= k < row_cmds(row, r, n, x_off, y_off, screen_w, screen_h).len() ==> {
                let c = #[trigger] row_cmds(row, r, n, x_off, y_off, screen_w, screen_h)[k];
                &&& c.row == r
                &&& c.col < n
                &&& row[c.col as int].tile_type != TileTypes::Empty
            },
    decreases n,
{
    if n > 0 {
        lemma_row_cmds_no_empty(row, r, n - 1, x_off, y_off, screen_w, screen_h);
    }
}

/// The renderer never issues a draw submission for an empty cell: every
/// submission names a non-empty tile of the grid.
pub proof fn lemma_grid_cmds_no_empty(
    tiles: Seq<Vec<Tile>>,
    m: int,
    x_off: int,
    y_off: int,
    screen_w: int,
    screen_h: int,
)
    requires
        0 <= m <= tiles.len(),
        m <= usize::MAX,
    ensures
        forall|k: int|
            0 <= k < grid_cmds(tiles, m, x_off, y_off, screen_w, screen_h).len() ==> {
                let c = #[trigger] grid_cmds(tiles, m, x_off, y_off, screen_w, screen_h)[k];
                &&& c.row < m
                &&& c.col < tiles[c.row as int]@.len()
                &&& tiles[c.row as int]@[c.col as int].tile_type != TileTypes::Empty
            },
    decreases m,
{
    if m > 0 {
        lemma_grid_cmds_no_empty(tiles, m - 1, x_off, y_off, screen_w, screen_h);
        vstd::std_specs::vec::axiom_spec_len(&tiles[m - 1]);
        assert(tiles[m - 1]@.len() <= usize::MAX);
        lemma_row_cmds_no_empty(
            tiles[m - 1]@,
            m - 1,
            tiles[m - 1]@.len() as int,
            x_off,
            y_off,
            screen_w,
            screen_h,
        );
    }
}

impl Level {
    /// Walks the grid in storage order and returns the frame's draw
    /// submissions: culled and empty cells contribute nothing, front-face
    /// walls contribute a body and a front-face draw, every other tile one
    /// body draw.
    pub fn draw(&self, screen_w: usize, screen_h: usize) -> (cmds: Vec<DrawCommand>)
        requires
            -OFFSET_LIMIT <= self.x_offset <= OFFSET_LIMIT,
            -OFFSET_LIMIT <= self.y_offset <= OFFSET_LIMIT,
            screen_w <= 0x1000_0000_0000,
            screen_h <= 0x1000_0000_0000,
        ensures
            cmds@ == grid_cmds(
                self.tiles@,
                self.tiles@.len() as int,
                self.x_offset as int,
                self.y_offset as int,
                screen_w as int,
                screen_h as int,
            ),
    {
        let ghost xo = self.x_offset as int;
        let ghost yo = self.y_offset as int;
        let ghost sw = screen_w as int;
        let ghost sh = screen_h as int;
        let mut cmds: Vec<DrawCommand> = Vec::new();
        let mut r: usize = 0;
        let rows = self.tiles.len();
        while r < rows
            invariant
                r <= rows,
                rows == self.tiles@.len(),
                -OFFSET_LIMIT <= self.x_offset <= OFFSET_LIMIT,
                -OFFSET_LIMIT <= self.y_offset <= OFFSET_LIMIT,
                screen_w <= 0x1000_0000_0000,
                screen_h <= 0x1000_0000_0000,
                xo == self.x_offset as int,
                yo == self.y_offset as int,
                sw == screen_w as int,
                sh == screen_h as int,
                cmds@ == grid_cmds(self.tiles@, r as int, xo, yo, sw, sh),
            decreases rows - r,
        {
            let cols = self.tiles[r].len();
            let mut c: usize = 0;
            while c < cols
                invariant
                    c <= cols,
                    r < rows,
                    rows == self.tiles@.len(),
                    cols == self.tiles@[r as int]@.len(),
                    -OFFSET_LIMIT <= self.x_offset <= OFFSET_LIMIT,
                    -OFFSET_LIMIT <= self.y_offset <= OFFSET_LIMIT,
                    screen_w <= 0x1000_0000_0000,
                    screen_h <= 0x1000_0000_0000,
                    xo == self.x_offset as int,
                    yo == self.y_offset as int,
                    sw == screen_w as int,
                    sh == screen_h as int,
                    cmds@ == grid_cmds(self.tiles@, r as int, xo, yo, sw, sh) + row_cmds(
                        self.tiles@[r as int]@,
                        r as int,
                        c as int,
                        xo,
                        yo,
                        sw,
                        sh,
                    ),
                decreases cols - c,
            {
                let t = &self.tiles[r][c];
                let sx: i64 = (2 * (t.pos.0 as i64) + self.x_offset) * SCALE;
                let sy: i64 = (2 * (t.pos.1 as i64) + self.y_offset) * SCALE;
                let on_screen = 0 <= sx && sx <= 2 * (screen_w as i64) && 0 <= sy && sy <= 2 * (
                screen_h as i64);
                let ghost cmds_before = cmds@;
                if on_screen && !matches!(t.tile_type, TileTypes::Empty) {
                    cmds.push(
                        DrawCommand { col: c, row: r, front: false, x: sx, y: sy, scale: SCALE },
                    );
                    if matches!(t.tile_type, TileTypes::WallFront) {
                        cmds.push(
                            DrawCommand {
                                col: c,
                                row: r,
                                front: true,
                                x: sx,
                                y: sy + 2 * 32 * SCALE,
                                scale: SCALE,
                            },
                        );
                    }
                }
                proof {
                    assert(cmds@ =~= cmds_before + tile_cmds(
                        self.tiles@[r as int]@[c as int],
                        c as int,
                        r as int,
                        xo,
                        yo,
                        sw,
                        sh,
                    ));
                    assert(cmds@ =~= grid_cmds(self.tiles@, r as int, xo, yo, sw, sh) + row_cmds(
                        self.tiles@[r as int]@,
                        r as int,
                        c as int + 1,
                        xo,
                        yo,
                        sw,
                        sh,
                    ));
                }
                c = c + 1;
            }
            proof {
                assert(cmds@ =~= grid_cmds(self.tiles@, r as int + 1, xo, yo, sw, sh));
            }
            r = r + 1;
        }
        cmds
    }
}

} // verus!
