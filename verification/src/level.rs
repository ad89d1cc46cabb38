use crate::gfx::{pix_idx, sprite_eq, Sprite};
use crate::rng::gen_index;
use crate::tile::Tile;
use crate::types::TileTypes;
use vstd::prelude::*;

verus! {

/// How far one tick of held pan input moves the view, in half-pixels
/// (2.5 pixels per tick). Offsets are kept in half-pixel units so panning
/// stays exact integer arithmetic.
pub const PAN_STEP: i64 = 5;

/// Bound on the pan offsets accepted by rendering, so that screen positions
/// fit in 64-bit arithmetic. Panning itself is never clamped.
pub const OFFSET_LIMIT: i64 = 0x1000_0000_0000;

/// The largest grid coordinate whose pixel position (32 pixels per cell)
/// still fits in an `i32`.
pub const MAX_COORD: usize = 0x3ff_ffff;

/// A scrollable level: a row-major grid of tiles, indexed `[row][col]`, its
/// size in tile units, and a pan offset in half-pixels.
pub struct Level {
    pub tiles: Vec<Vec<Tile>>,
    pub width: usize,
    pub height: usize,
    pub x_offset: i64,
    pub y_offset: i64,
}

/// The red, green and blue channels of pixel `(x, y)` of a tightly packed
/// RGBA level-definition image whose rows are `img_w` pixels wide.
pub open spec fn level_rgb(data: Seq<u8>, img_w: int, x: int, y: int) -> (u8, u8, u8) {
    (
        data[pix_idx(x, y, 0, img_w)],
        data[pix_idx(x, y, 1, img_w)],
        data[pix_idx(x, y, 2, img_w)],
    )
}

/// The tile kind a level-image color encodes. Alpha is ignored; any color
/// other than the three defined ones marks an empty cell.
pub open spec fn color_type(rgb: (u8, u8, u8)) -> TileTypes {
    if rgb == (255u8, 255u8, 255u8) {
        TileTypes::Floor
    } else if rgb == (0u8, 0u8, 0u8) {
        TileTypes::Hole
    } else if rgb == (255u8, 0u8, 0u8) {
        TileTypes::Wall
    } else {
        TileTypes::Empty
    }
}

/// The kind encoded at pixel `(x, y)` of the level image.
pub open spec fn base_type_at(data: Seq<u8>, img_w: int, x: int, y: int) -> TileTypes {
    color_type(level_rgb(data, img_w, x, y))
}

/// The type a tile holds once the whole image is classified: a wall keeps its
/// front face only when no wall sits directly beneath it, so only the
/// bottommost wall of a vertical run stays a `WallFront`.
pub open spec fn final_type_at(data: Seq<u8>, img_w: int, img_h: int, x: int, y: int) -> TileTypes {
    let base = base_type_at(data, img_w, x, y);
    if base == TileTypes::Wall {
        if y + 1 < img_h && base_type_at(data, img_w, x, y + 1) == TileTypes::Wall {
            TileTypes::Wall
        } else {
            TileTypes::WallFront
        }
    } else {
        base
    }
}

/// The sprite-bank row a hole tile draws from: the plain interior (row 0)
/// under another hole, the masked edge variant (row 2) everywhere else,
/// including the top edge of the image.
pub open spec fn hole_sprite_row(data: Seq<u8>, img_w: int, x: int, y: int) -> int {
    if y > 0 && base_type_at(data, img_w, x, y - 1) == TileTypes::Hole {
        0
    } else {
        2
    }
}

/// The floor bank holds the four floor variants in row 0 and the two hole
/// rows, each at least five sprites wide.
pub open spec fn floor_bank_ok(floor: Seq<Vec<Sprite>>) -> bool {
    floor.len() >= 3 && floor[0]@.len() >= 5 && floor[2]@.len() >= 5
}

/// The wall bank holds eight top faces in row 0 and the eight matching front
/// faces in row 1.
pub open spec fn wall_bank_ok(wall: Seq<Vec<Sprite>>) -> bool {
    wall.len() >= 2 && wall[0]@.len() >= 8 && wall[1]@.len() >= 8
}

/// A floor tile at grid cell `(x, y)`: one 32-pixel cell, one of the first
/// four floor variants, no front face.
pub open spec fn floor_tile_at(t: Tile, floor: Seq<Vec<Sprite>>, x: int, y: int) -> bool {
    &&& t.w == 32 && t.h == 32
    &&& t.grid_pos.0 as int == x && t.grid_pos.1 as int == y
    &&& t.pos.0 as int == 32 * x && t.pos.1 as int == 32 * y
    &&& t.tile_type == TileTypes::Floor
    &&& t.extra_sprite is None
    &&& exists|i: int| 0 <= i < 4 && sprite_eq(t.sprite, #[trigger] floor[0]@[i])
}

/// A hole tile at grid cell `(x, y)` drawing from sprite-bank row `row`
/// (column 4 of the floor bank), no front face.
pub open spec fn hole_tile_with_row(t: Tile, floor: Seq<Vec<Sprite>>, row: int, x: int, y: int) -> bool {
    &&& t.w == 32 && t.h == 32
    &&& t.grid_pos.0 as int == x && t.grid_pos.1 as int == y
    &&& t.pos.0 as int == 32 * x && t.pos.1 as int == 32 * y
    &&& t.tile_type == TileTypes::Hole
    &&& t.extra_sprite is None
    &&& sprite_eq(t.sprite, floor[row]@[4])
}

/// A freshly placed wall tile at grid cell `(x, y)`: 24 pixels taller than a
/// cell and shifted up by as much, top face and matching front face picked by
/// one shared column index, still a `WallFront`.
pub open spec fn wall_tile_fresh(t: Tile, wall: Seq<Vec<Sprite>>, x: int, y: int) -> bool {
    &&& t.w == 32 && t.h == 56
    &&& t.grid_pos.0 as int == x && t.grid_pos.1 as int == y
    &&& t.pos.0 as int == 32 * x && t.pos.1 as int == 32 * y - 24
    &&& t.tile_type == TileTypes::WallFront
    &&& t.extra_sprite is Some
    &&& exists|i: int|
        0 <= i < 8 && sprite_eq(t.sprite, #[trigger] wall[0]@[i]) && sprite_eq(
            t.extra_sprite->0,
            wall[1]@[i],
        )
}

/// A wall tile at grid cell `(x, y)` whose front face has been put away: a
/// wall sits directly beneath it.
pub open spec fn wall_tile_demoted(t: Tile, wall: Seq<Vec<Sprite>>, x: int, y: int) -> bool {
    &&& t.w == 32 && t.h == 56
    &&& t.grid_pos.0 as int == x && t.grid_pos.1 as int == y
    &&& t.pos.0 as int == 32 * x && t.pos.1 as int == 32 * y - 24
    &&& t.tile_type == TileTypes::Wall
    &&& t.extra_sprite is None
    &&& exists|i: int| 0 <= i < 8 && sprite_eq(t.sprite, #[trigger] wall[0]@[i])
}

/// An empty cell at `(x, y)`: render-excluded, zero-sized, carrying the
/// fallback floor sprite.
pub open spec fn empty_tile_at(t: Tile, floor: Seq<Vec<Sprite>>, x: int, y: int) -> bool {
    &&& t.w == 0 && t.h == 0
    &&& t.grid_pos.0 as int == x && t.grid_pos.1 as int == y
    &&& t.pos.0 as int == 32 * x && t.pos.1 as int == 32 * y
    &&& t.tile_type == TileTypes::Empty
    &&& t.extra_sprite is None
    &&& sprite_eq(t.sprite, floor[0]@[0])
}

/// A procedurally picked floor tile at `(x, y)`: one of the first four floor
/// variants, sized by its sprite.
pub open spec fn random_floor_tile_at(t: Tile, sprites: Seq<Vec<Sprite>>, x: int, y: int) -> bool {
    &&& t.grid_pos.0 as int == x && t.grid_pos.1 as int == y
    &&& t.pos.0 as int == 32 * x && t.pos.1 as int == 32 * y
    &&& t.tile_type == TileTypes::Floor
    &&& t.extra_sprite is None
    &&& exists|i: int|
        0 <= i < 4 && sprite_eq(t.sprite, #[trigger] sprites[0]@[i]) && t.w == sprites[0]@[i].width
            && t.h == sprites[0]@[i].height
}

/// `t` is `prev` with its front face put away: same cell, same body sprite,
/// now a plain wall.
pub open spec fn demoted_from(t: Tile, prev: Tile) -> bool {
    &&& t.w == prev.w && t.h == prev.h
    &&& t.grid_pos == prev.grid_pos && t.pos == prev.pos
    &&& sprite_eq(t.sprite, prev.sprite)
    &&& t.extra_sprite is None
    &&& t.tile_type == TileTypes::Wall
}

/// The tile at `(x, y)` as first placed, before the row beneath it has been
/// classified.
pub open spec fn tile_fresh_at(
    t: Tile,
    data: Seq<u8>,
    img_w: int,
    floor: Seq<Vec<Sprite>>,
    wall: Seq<Vec<Sprite>>,
    x: int,
    y: int,
) -> bool {
    match base_type_at(data, img_w, x, y) {
        TileTypes::Floor => floor_tile_at(t, floor, x, y),
        TileTypes::Hole => hole_tile_with_row(t, floor, hole_sprite_row(data, img_w, x, y), x, y),
        TileTypes::Wall => wall_tile_fresh(t, wall, x, y),
        TileTypes::WallFront => false,
        TileTypes::Empty => empty_tile_at(t, floor, x, y),
    }
}

/// The tile at `(x, y)` in the finished level.
pub open spec fn tile_done_at(
    t: Tile,
    data: Seq<u8>,
    img_w: int,
    img_h: int,
    floor: Seq<Vec<Sprite>>,
    wall: Seq<Vec<Sprite>>,
    x: int,
    y: int,
) -> bool {
    if base_type_at(data, img_w, x, y) == TileTypes::Wall && y + 1 < img_h && base_type_at(
        data,
        img_w,
        x,
        y + 1,
    ) == TileTypes::Wall {
        wall_tile_demoted(t, wall, x, y)
    } else {
        tile_fresh_at(t, data, img_w, floor, wall, x, y)
    }
}

/// The type of the tile at `(x, y)` of a grid, or the `Empty` sentinel when
/// the position lies outside it.
pub open spec fn spec_tile_type(tiles: Seq<Vec<Tile>>, x: int, y: int) -> TileTypes {
    if 0 <= y < tiles.len() && 0 <= x < tiles[y]@.len() {
        tiles[y]@[x].tile_type
    } else {
        TileTypes::Empty
    }
}

/// The sprite-bank row a hole tile draws from, read off the grid built so
/// far: the plain interior under a hole, the edge variant everywhere else.
pub open spec fn hole_row_from_grid(tiles: Seq<Vec<Tile>>, x: int, y: int) -> int {
    if spec_tile_type(tiles, x, y - 1) == TileTypes::Hole {
        0
    } else {
        2
    }
}

/// One tick of panning along one axis: a fixed step in the positive
/// direction while `pos` is held, in the negative while `neg` is held, and no
/// clamping in either.
pub open spec fn pan_step(off: int, pos: bool, neg: bool) -> int {
    off + (if pos {
        PAN_STEP as int
    } else {
        0
    }) - (if neg {
        PAN_STEP as int
    } else {
        0
    })
}

/// The offset after `n` ticks of panning with the same inputs held.
pub open spec fn pan_after(off: int, n: nat, pos: bool, neg: bool) -> int
    decreases n,
{
    if n == 0 {
        off
    } else {
        pan_step(pan_after(off, (n - 1) as nat, pos, neg), pos, neg)
    }
}

/// Panning accumulates linearly and unclamped: after `n` ticks holding the
/// positive direction alone, the offset has grown by exactly `n` steps.
pub proof fn lemma_pan_accumulates(off: int, n: nat)
    ensures
        pan_after(off, n, true, false) == off + n * (PAN_STEP as int),
    decreases n,
{
    if n > 0 {
        lemma_pan_accumulates(off, (n - 1) as nat);
    }
}



/// A finished tile's type is exactly the final classification of its pixel.
pub proof fn lemma_done_type(
    t: Tile,
    data: Seq<u8>,
    img_w: int,
    img_h: int,
    floor: Seq<Vec<Sprite>>,
    wall: Seq<Vec<Sprite>>,
    x: int,
    y: int,
)
    requires
        tile_done_at(t, data, img_w, img_h, floor, wall, x, y),
    ensures
        t.tile_type == final_type_at(data, img_w, img_h, x, y),
{
}

/// In a column of wall pixels at least two tall, only the bottommost tile
/// keeps its front face: every wall with a wall directly beneath it ends up a
/// plain wall.
pub proof fn lemma_wall_column(data: Seq<u8>, img_w: int, img_h: int, x: int)
    requires
        img_h >= 2,
        forall|y: int|
            0 <= y < img_h ==> base_type_at(data, img_w, x, y) == TileTypes::Wall,
    ensures
        final_type_at(data, img_w, img_h, x, img_h - 1) == TileTypes::WallFront,
        forall|y: int|
            0 <= y < img_h - 1 ==> final_type_at(data, img_w, img_h, x, y) == TileTypes::Wall,
{
}

/// A hole below a non-hole pixel draws the masked edge variant (bank row 2);
/// a hole below another hole draws the plain interior (bank row 0).
pub proof fn lemma_hole_variant(data: Seq<u8>, img_w: int, x: int, y: int)
    requires
        y > 0,
    ensures
        base_type_at(data, img_w, x, y - 1) != TileTypes::Hole ==> hole_sprite_row(
            data,
            img_w,
            x,
            y,
        ) == 2,
        base_type_at(data, img_w, x, y - 1) == TileTypes::Hole ==> hole_sprite_row(
            data,
            img_w,
            x,
            y,
        ) == 0,
{
}

/// A color other than the three defined ones always classifies as an empty
/// cell.
pub proof fn lemma_unknown_color_empty(rgb: (u8, u8, u8))
    requires
        rgb != (255u8, 255u8, 255u8),
        rgb != (0u8, 0u8, 0u8),
        rgb != (255u8, 0u8, 0u8),
    ensures
        color_type(rgb) == TileTypes::Empty,
{
}

/// A freshly placed tile's type answers for its pixel: it is a hole exactly
/// when its pixel is, and a front-face wall exactly when its pixel is a wall.
proof fn lemma_fresh_type(
    t: Tile,
    data: Seq<u8>,
    img_w: int,
    floor: Seq<Vec<Sprite>>,
    wall: Seq<Vec<Sprite>>,
    x: int,
    y: int,
)
    requires
        tile_fresh_at(t, data, img_w, floor, wall, x, y),
    ensures
        t.tile_type == TileTypes::Hole <==> base_type_at(data, img_w, x, y) == TileTypes::Hole,
        t.tile_type == TileTypes::WallFront <==> base_type_at(data, img_w, x, y)
            == TileTypes::Wall,
{
}

/// A tile whose pixel has no wall pixel directly beneath it keeps its first
/// classification in the finished level.
proof fn lemma_fresh_is_done(
    t: Tile,
    data: Seq<u8>,
    img_w: int,
    img_h: int,
    floor: Seq<Vec<Sprite>>,
    wall: Seq<Vec<Sprite>>,
    x: int,
    y: int,
)
    requires
        tile_fresh_at(t, data, img_w, floor, wall, x, y),
        base_type_at(data, img_w, x, y) == TileTypes::Wall ==> !(y + 1 < img_h && base_type_at(
            data,
            img_w,
            x,
            y + 1,
        ) == TileTypes::Wall),
    ensures
        tile_done_at(t, data, img_w, img_h, floor, wall, x, y),
{
}

impl Level {
    /// Grid dimensions match the level's tile counts, every tile sits at the
    /// grid slot its `grid_pos` names, and exactly the front-face walls carry
    /// a secondary sprite.
    pub open spec fn wf(self) -> bool {
        &&& self.tiles@.len() == self.height
        &&& forall|r: int| 0 <= r < self.tiles@.len() ==> (#[trigger] self.tiles@[r])@.len()
            == self.width
        &&& forall|r: int, c: int|
            0 <= r < self.tiles@.len() && 0 <= c < self.tiles@[r]@.len() ==> {
                let t = #[trigger] self.tiles@[r]@[c];
                &&& t.grid_pos.0 as int == c
                &&& t.grid_pos.1 as int == r
                &&& (t.tile_type == TileTypes::WallFront <==> t.extra_sprite is Some)
            }
    }

    /// The type of the tile at grid position `pos = (col, row)`, or the
    /// `Empty` sentinel when `pos` lies outside the grid; lookups past any
    /// edge never fail.
    pub fn get_tile_type(tiles: &Vec<Vec<Tile>>, pos: (i32, i32)) -> (t: &TileTypes)
        ensures
            *t == spec_tile_type(tiles@, pos.0 as int, pos.1 as int),
    {
        if pos.1 >= 0 && pos.0 >= 0 {
            let y = pos.1 as usize;
            let x = pos.0 as usize;
            if y < tiles.len() {
                if x < tiles[y].len() {
                    return &tiles[y][x].tile_type;
                }
            }
        }
        &TileTypes::Empty
    }

    pub fn width(&self) -> (r: usize)
        ensures
            r == self.width,
    {
        self.width
    }

    pub fn height(&self) -> (r: usize)
        ensures
            r == self.height,
    {
        self.height
    }

    pub fn tiles(&self) -> (r: &Vec<Vec<Tile>>)
        ensures
            r == &self.tiles,
    {
        &self.tiles
    }

    pub fn tiles_mut(&mut self) -> (r: &mut Vec<Vec<Tile>>)
        ensures
            *r == old(self).tiles,
            final(self).tiles == *final(r),
            final(self).width == old(self).width,
            final(self).height == old(self).height,
            final(self).x_offset == old(self).x_offset,
            final(self).y_offset == old(self).y_offset,
    {
        &mut self.tiles
    }

    /// A procedurally generated level: `h` rows of `w` random floor tiles,
    /// with the pan at the origin.
    pub fn new(w: usize, h: usize, sprites: &Vec<Vec<Sprite>>, rng: &mut rand::rngs::StdRng) -> (lv: Level)
        requires
            w <= MAX_COORD,
            h <= MAX_COORD,
            sprites@.len() >= 1,
            sprites@[0]@.len() >= 4,
        ensures
            lv.wf(),
            lv.width == w,
            lv.height == h,
            lv.x_offset == 0 && lv.y_offset == 0,
            lv.tiles@.len() == h,
            forall|r: int| 0 <= r < h ==> (#[trigger] lv.tiles@[r])@.len() == w,
            forall|r: int, c: int|
                0 <= r < h && 0 <= c < w ==> random_floor_tile_at(
                    #[trigger] lv.tiles@[r]@[c],
                    sprites@,
                    c,
                    r,
                ),
    {
        let mut tiles: Vec<Vec<Tile>> = Vec::new();
        let mut r: usize = 0;
        while r < h
            invariant
                r <= h,
                w <= MAX_COORD,
                h <= MAX_COORD,
                sprites@.len() >= 1,
                sprites@[0]@.len() >= 4,
                tiles@.len() == r,
                forall|r1: int| 0 <= r1 < r ==> (#[trigger] tiles@[r1])@.len() == w,
                forall|r1: int, c1: int|
                    0 <= r1 < r && 0 <= c1 < w ==> random_floor_tile_at(
                        #[trigger] tiles@[r1]@[c1],
                        sprites@,
                        c1,
                        r1,
                    ),
            decreases h - r,
        {
            let mut tiles_row: Vec<Tile> = Vec::new();
            let mut c: usize = 0;
            while c < w
                invariant
                    c <= w,
                    r < h,
                    w <= MAX_COORD,
                    h <= MAX_COORD,
                    sprites@.len() >= 1,
                    sprites@[0]@.len() >= 4,
                    tiles_row@.len() == c,
                    forall|c1: int|
                        0 <= c1 < c ==> random_floor_tile_at(
                            #[trigger] tiles_row@[c1],
                            sprites@,
                            c1,
                            r as int,
                        ),
                decreases w - c,
            {
                tiles_row.push(Self::random_tile(sprites, (c, r), rng));
                c = c + 1;
            }
            tiles.push(tiles_row);
            r = r + 1;
        }
        let lv = Level { tiles, width: w, height: h, x_offset: 0, y_offset: 0 };
        proof {
            assert forall|rr: int, cc: int|
                0 <= rr < lv.tiles@.len() && 0 <= cc < lv.tiles@[rr]@.len() implies {
                let t = #[trigger] lv.tiles@[rr]@[cc];
                &&& t.grid_pos.0 as int == cc
                &&& t.grid_pos.1 as int == rr
                &&& (t.tile_type == TileTypes::WallFront <==> t.extra_sprite is Some)
            } by {
                assert(random_floor_tile_at(lv.tiles@[rr]@[cc], sprites@, cc, rr));
            }
        }
        lv
    }


    /// The authoritative constructor: classifies each pixel of a decoded
    /// level-definition image into one tile, row-major, top to bottom and
    /// left to right, consulting the already-classified row above for the
    /// hole-edge and wall-front variants. The grid ends up one tile per
    /// pixel, every cell in its final classification.
    pub fn from_image(
        data: &Vec<u8>,
        img_w: usize,
        img_h: usize,
        floor_tiles: &Vec<Vec<Sprite>>,
        wall_tiles: &Vec<Vec<Sprite>>,
        rng: &mut rand::rngs::StdRng,
    ) -> (lv: Level)
        requires
            data@.len() == 4 * img_w * img_h,
            img_w <= MAX_COORD,
            img_h <= MAX_COORD,
            floor_bank_ok(floor_tiles@),
            wall_bank_ok(wall_tiles@),
        ensures
            lv.wf(),
            lv.width == img_w,
            lv.height == img_h,
            lv.x_offset == 0 && lv.y_offset == 0,
            lv.tiles@.len() == img_h,
            forall|y: int| 0 <= y < img_h ==> (#[trigger] lv.tiles@[y])@.len() == img_w,
            forall|x: int, y: int|
                0 <= x < img_w && 0 <= y < img_h ==> tile_done_at(
                    #[trigger] lv.tiles@[y]@[x],
                    data@,
                    img_w as int,
                    img_h as int,
                    floor_tiles@,
                    wall_tiles@,
                    x,
                    y,
                ),
    {
        let ghost gw = img_w as int;
        let ghost gh = img_h as int;
        let mut tiles: Vec<Vec<Tile>> = Vec::new();
        let mut y: usize = 0;
        while y < img_h
            invariant
                y <= img_h,
                data@.len() == 4 * img_w * img_h,
                img_w <= MAX_COORD,
                img_h <= MAX_COORD,
                floor_bank_ok(floor_tiles@),
                wall_bank_ok(wall_tiles@),
                gw == img_w as int,
                gh == img_h as int,
                tiles@.len() == y,
                forall|y1: int| 0 <= y1 < y ==> (#[trigger] tiles@[y1])@.len() == img_w,
                forall|x1: int, y1: int|
                    0 <= x1 < img_w && 0 <= y1 < y as int - 1 ==> tile_done_at(
                        #[trigger] tiles@[y1]@[x1],
                        data@,
                        gw,
                        gh,
                        floor_tiles@,
                        wall_tiles@,
                        x1,
                        y1,
                    ),
                y > 0 ==> forall|x1: int|
                    0 <= x1 < img_w ==> tile_fresh_at(
                        #[trigger] tiles@[y as int - 1]@[x1],
                        data@,
                        gw,
                        floor_tiles@,
                        wall_tiles@,
                        x1,
                        y as int - 1,
                    ),
            decreases img_h - y,
        {
            let mut tiles_row: Vec<Tile> = Vec::new();
            let mut x: usize = 0;
            while x < img_w
                invariant
                    x <= img_w,
                    y < img_h,
                    data@.len() == 4 * img_w * img_h,
                    img_w <= MAX_COORD,
                    img_h <= MAX_COORD,
                    floor_bank_ok(floor_tiles@),
                    wall_bank_ok(wall_tiles@),
                    gw == img_w as int,
                    gh == img_h as int,
                    tiles@.len() == y,
                    forall|y1: int| 0 <= y1 < y ==> (#[trigger] tiles@[y1])@.len() == img_w,
                    forall|x1: int, y1: int|
                        0 <= x1 < img_w && 0 <= y1 < y as int - 1 ==> tile_done_at(
                            #[trigger] tiles@[y1]@[x1],
                            data@,
                            gw,
                            gh,
                            floor_tiles@,
                            wall_tiles@,
                            x1,
                            y1,
                        ),
                    y > 0 ==> forall|x1: int|
                        0 <= x1 < x ==> tile_done_at(
                            #[trigger] tiles@[y as int - 1]@[x1],
                            data@,
                            gw,
                            gh,
                            floor_tiles@,
                            wall_tiles@,
                            x1,
                            y as int - 1,
                        ),
                    y > 0 ==> forall|x1: int|
                        x <= x1 < img_w ==> tile_fresh_at(
                            #[trigger] tiles@[y as int - 1]@[x1],
                            data@,
                            gw,
                            floor_tiles@,
                            wall_tiles@,
                            x1,
                            y as int - 1,
                        ),
                    tiles_row@.len() == x,
                    forall|x1: int|
                        0 <= x1 < x ==> tile_fresh_at(
                            #[trigger] tiles_row@[x1],
                            data@,
                            gw,
                            floor_tiles@,
                            wall_tiles@,
                            x1,
                            y as int,
                        ),
                decreases img_w - x,
            {
                proof {
                    assert(y * img_w + x < img_w * img_h) by (nonlinear_arith)
                        requires
                            x < img_w,
                            y < img_h,
                    ;
                    assert(4 * (img_w * img_h) == 4 * img_w * img_h) by (nonlinear_arith);
                    vstd::std_specs::vec::axiom_spec_len(data);
                }
                let index: usize = 4 * (y * img_w + x);
                let r = data[index];
                let g = data[index + 1];
                let b = data[index + 2];
                proof {
                    assert(level_rgb(data@, gw, x as int, y as int) == (r, g, b));
                }
                let ghost tiles_before = tiles@;
                let tile = match (r, g, b) {
                    (255, 255, 255) => Self::create_tile(
                        floor_tiles,
                        (x, y),
                        TileTypes::Floor,
                        &mut tiles,
                        rng,
                    ),
                    (0, 0, 0) => Self::create_tile(
                        floor_tiles,
                        (x, y),
                        TileTypes::Hole,
                        &mut tiles,
                        rng,
                    ),
                    (255, 0, 0) => Self::create_tile(
                        wall_tiles,
                        (x, y),
                        TileTypes::Wall,
                        &mut tiles,
                        rng,
                    ),
                    _ => Self::create_tile(floor_tiles, (x, y), TileTypes::Empty, &mut tiles, rng),
                };
                proof {
                    let gx = x as int;
                    let gy = y as int;
                    let base = base_type_at(data@, gw, gx, gy);
                    if base == TileTypes::Hole && gy > 0 {
                        // the grid lookup the constructor made agrees with the
                        // pixel above
                        assert(tile_fresh_at(
                            tiles_before[gy - 1]@[gx],
                            data@,
                            gw,
                            floor_tiles@,
                            wall_tiles@,
                            gx,
                            gy - 1,
                        ));
                        lemma_fresh_type(
                            tiles_before[gy - 1]@[gx],
                            data@,
                            gw,
                            floor_tiles@,
                            wall_tiles@,
                            gx,
                            gy - 1,
                        );
                        assert(hole_row_from_grid(tiles_before, gx, gy) == hole_sprite_row(
                            data@,
                            gw,
                            gx,
                            gy,
                        ));
                    }
                    assert(tile_fresh_at(tile, data@, gw, floor_tiles@, wall_tiles@, gx, gy));
                    if base == TileTypes::Wall && gy > 0 {
                        let prev = tiles_before[gy - 1]@[gx];
                        assert(tile_fresh_at(
                            prev,
                            data@,
                            gw,
                            floor_tiles@,
                            wall_tiles@,
                            gx,
                            gy - 1,
                        ));
                        lemma_fresh_type(prev, data@, gw, floor_tiles@, wall_tiles@, gx, gy - 1);
                        if prev.tile_type == TileTypes::WallFront {
                            let now = tiles@[gy - 1]@[gx];
                            assert(demoted_from(now, prev));
                            assert(wall_tile_fresh(prev, wall_tiles@, gx, gy - 1));
                            let i = choose|i: int|
                                0 <= i < 8 && sprite_eq(prev.sprite, #[trigger] wall_tiles@[0]@[i])
                                    && sprite_eq(prev.extra_sprite->0, wall_tiles@[1]@[i]);
                            assert(sprite_eq(now.sprite, wall_tiles@[0]@[i]));
                            assert(wall_tile_demoted(now, wall_tiles@, gx, gy - 1));
                        }
                    }
                    if gy > 0 {
                        // after this column is processed, the cell above it is
                        // in its final classification
                        lemma_fresh_type(
                            tiles_before[gy - 1]@[gx],
                            data@,
                            gw,
                            floor_tiles@,
                            wall_tiles@,
                            gx,
                            gy - 1,
                        );
                        if !(base == TileTypes::Wall && tiles_before[gy - 1]@[gx].tile_type
                            == TileTypes::WallFront) {
                            assert(tiles@[gy - 1]@[gx] == tiles_before[gy - 1]@[gx]);
                            lemma_fresh_is_done(
                                tiles@[gy - 1]@[gx],
                                data@,
                                gw,
                                gh,
                                floor_tiles@,
                                wall_tiles@,
                                gx,
                                gy - 1,
                            );
                        }
                        assert(tile_done_at(
                            tiles@[gy - 1]@[gx],
                            data@,
                            gw,
                            gh,
                            floor_tiles@,
                            wall_tiles@,
                            gx,
                            gy - 1,
                        ));
                    }
                }
                tiles_row.push(tile);
                x = x + 1;
            }
            tiles.push(tiles_row);
            y = y + 1;
        }
        let lv = Level { tiles, width: img_w, height: img_h, x_offset: 0, y_offset: 0 };
        proof {
            if img_h > 0 {
                assert forall|x1: int| 0 <= x1 < img_w implies tile_done_at(
                    #[trigger] lv.tiles@[gh - 1]@[x1],
                    data@,
                    gw,
                    gh,
                    floor_tiles@,
                    wall_tiles@,
                    x1,
                    gh - 1,
                ) by {
                    lemma_fresh_is_done(
                        lv.tiles@[gh - 1]@[x1],
                        data@,
                        gw,
                        gh,
                        floor_tiles@,
                        wall_tiles@,
                        x1,
                        gh - 1,
                    );
                }
            }
            assert forall|rr: int, cc: int|
                0 <= rr < lv.tiles@.len() && 0 <= cc < lv.tiles@[rr]@.len() implies {
                let t = #[trigger] lv.tiles@[rr]@[cc];
                &&& t.grid_pos.0 as int == cc
                &&& t.grid_pos.1 as int == rr
                &&& (t.tile_type == TileTypes::WallFront <==> t.extra_sprite is Some)
            } by {
                assert(tile_done_at(
                    lv.tiles@[rr]@[cc],
                    data@,
                    gw,
                    gh,
                    floor_tiles@,
                    wall_tiles@,
                    cc,
                    rr,
                ));
            }
        }
        lv
    }

    /// Builds the tile for grid cell `pos = (col, row)` of kind `tt` from the
    /// matching sprite bank and, when the new tile is a wall, demotes a
    /// front-face wall directly above it in the grid under construction: its
    /// front face would be hidden behind the new wall.
    pub fn create_tile(
        sprites: &Vec<Vec<Sprite>>,
        pos: (usize, usize),
        tt: TileTypes,
        tiles: &mut Vec<Vec<Tile>>,
        rng: &mut rand::rngs::StdRng,
    ) -> (t: Tile)
        requires
            pos.0 <= MAX_COORD,
            pos.1 <= MAX_COORD,
            tt == TileTypes::Floor ==> sprites@.len() >= 1 && sprites@[0]@.len() >= 4,
            tt == TileTypes::Hole ==> floor_bank_ok(sprites@),
            tt == TileTypes::Wall ==> wall_bank_ok(sprites@),
            (tt == TileTypes::WallFront || tt == TileTypes::Empty) ==> sprites@.len() >= 1
                && sprites@[0]@.len() >= 1,
        ensures
            tt == TileTypes::Floor ==> floor_tile_at(t, sprites@, pos.0 as int, pos.1 as int)
                && final(tiles)@ == old(tiles)@,
            tt == TileTypes::Hole ==> hole_tile_with_row(
                t,
                sprites@,
                hole_row_from_grid(old(tiles)@, pos.0 as int, pos.1 as int),
                pos.0 as int,
                pos.1 as int,
            ) && final(tiles)@ == old(tiles)@,
            (tt == TileTypes::WallFront || tt == TileTypes::Empty) ==> empty_tile_at(
                t,
                sprites@,
                pos.0 as int,
                pos.1 as int,
            ) && final(tiles)@ == old(tiles)@,
            tt == TileTypes::Wall ==> wall_tile_fresh(t, sprites@, pos.0 as int, pos.1 as int)
                && {
                let x = pos.0 as int;
                let y = pos.1 as int;
                if 1 <= y && y - 1 < old(tiles)@.len() && x < old(tiles)@[y - 1]@.len() && old(
                    tiles,
                )@[y - 1]@[x].tile_type == TileTypes::WallFront {
                    &&& final(tiles)@.len() == old(tiles)@.len()
                    &&& forall|r: int|
                        0 <= r < old(tiles)@.len() && r != y - 1 ==> #[trigger] final(tiles)@[r]
                            == old(tiles)@[r]
                    &&& final(tiles)@[y - 1]@.len() == old(tiles)@[y - 1]@.len()
                    &&& forall|c: int|
                        0 <= c < old(tiles)@[y - 1]@.len() && c != x ==> #[trigger] final(tiles)@[y - 1]@[c] == old(tiles)@[y - 1]@[c]
                    &&& demoted_from(final(tiles)@[y - 1]@[x], old(tiles)@[y - 1]@[x])
                } else {
                    final(tiles)@ == old(tiles)@
                }
            },
    {
        let (x, y) = pos;
        match tt {
            TileTypes::Floor => {
                let index = gen_index(rng, 4);
                let sprite = sprites[0][index].clone();
                Tile {
                    w: 32,
                    h: 32,
                    grid_pos: (x, y),
                    pos: ((x * 32) as i32, (y * 32) as i32),
                    sprite,
                    extra_sprite: Option::None,
                    tile_type: tt,
                }
            },
            TileTypes::Hole => {
                // the plain interior explains its own top edge only under
                // another hole; against anything else the masked edge
                // variant blends with what sits above
                let above = Self::get_tile_type(tiles, (x as i32, y as i32 - 1));
                let row_index: usize = if *above == TileTypes::Hole {
                    0
                } else {
                    2
                };
                let sprite = sprites[row_index][4].clone();
                Tile {
                    w: 32,
                    h: 32,
                    grid_pos: (x, y),
                    pos: ((x * 32) as i32, (y * 32) as i32),
                    sprite,
                    extra_sprite: Option::None,
                    tile_type: tt,
                }
            },
            TileTypes::Wall => {
                let index = gen_index(rng, 8);
                let sprite = sprites[0][index].clone();
                let extra_sprite = sprites[1][index].clone();
                // a wall right above this one no longer shows a front face
                let mut demote = false;
                if y >= 1 && y - 1 < tiles.len() {
                    if x < tiles[y - 1].len() {
                        if tiles[y - 1][x].tile_type == TileTypes::WallFront {
                            demote = true;
                        }
                    }
                }
                if demote {
                    let row = &mut tiles[y - 1];
                    let above = &mut row[x];
                    above.tile_type = TileTypes::Wall;
                    above.extra_sprite = Option::None;
                }
                Tile {
                    w: 32,
                    h: 56,
                    grid_pos: (x, y),
                    pos: ((x * 32) as i32, (y * 32) as i32 - 24),
                    sprite,
                    extra_sprite: Option::Some(extra_sprite),
                    tile_type: TileTypes::WallFront,
                }
            },
            _ => {
                let sprite = sprites[0][0].clone();
                Tile {
                    w: 0,
                    h: 0,
                    grid_pos: (x, y),
                    pos: ((x * 32) as i32, (y * 32) as i32),
                    sprite,
                    extra_sprite: Option::None,
                    tile_type: TileTypes::Empty,
                }
            },
        }
    }

    /// A procedurally picked tile: the stubbed random kind (always a floor)
    /// with one of the first four floor variants, sized by its sprite.
    pub fn random_tile(sprites: &Vec<Vec<Sprite>>, pos: (usize, usize), rng: &mut rand::rngs::StdRng) -> (t: Tile)
        requires
            pos.0 <= MAX_COORD,
            pos.1 <= MAX_COORD,
            sprites@.len() >= 1,
            sprites@[0]@.len() >= 4,
        ensures
            random_floor_tile_at(t, sprites@, pos.0 as int, pos.1 as int),
    {
        let t = TileTypes::next_random();
        let index = gen_index(rng, 4);
        let s = sprites[0][index].clone();
        Tile {
            w: s.width,
            h: s.height,
            grid_pos: (pos.0, pos.1),
            pos: ((pos.0 * 32) as i32, (pos.1 * 32) as i32),
            sprite: s,
            extra_sprite: Option::None,
            tile_type: t,
        }
    }

    /// One pan tick: each held direction moves the view by one fixed step
    /// along its axis, with no acceleration and no clamping to the grid.
    pub fn update(&mut self, right: bool, left: bool, down: bool, up: bool)
        requires
            i64::MIN + PAN_STEP <= old(self).x_offset <= i64::MAX - PAN_STEP,
            i64::MIN + PAN_STEP <= old(self).y_offset <= i64::MAX - PAN_STEP,
        ensures
            final(self).x_offset == pan_step(old(self).x_offset as int, right, left),
            final(self).y_offset == pan_step(old(self).y_offset as int, down, up),
            final(self).tiles == old(self).tiles,
            final(self).width == old(self).width,
            final(self).height == old(self).height,
    {
        if right {
            self.x_offset = self.x_offset + PAN_STEP;
        }
        if left {
            self.x_offset = self.x_offset - PAN_STEP;
        }
        if down {
            self.y_offset = self.y_offset + PAN_STEP;
        }
        if up {
            self.y_offset = self.y_offset - PAN_STEP;
        }
    }
}

} // verus!
