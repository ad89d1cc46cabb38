use vstd::prelude::*;

verus! {

/// One sprite bitmap: a tightly packed RGBA buffer of `width * height` pixels,
/// four bytes per pixel. Immutable after creation.
#[derive(Debug)]
pub struct Sprite {
    pub width: usize,
    pub height: usize,
    pub pixels: Vec<u8>,
}

/// Two sprites carry the same image: equal dimensions and equal pixel bytes.
pub open spec fn sprite_eq(a: Sprite, b: Sprite) -> bool {
    &&& a.width == b.width
    &&& a.height == b.height
    &&& a.pixels@ == b.pixels@
}

impl Sprite {
    /// The pixel buffer is tightly packed: four bytes per pixel.
    pub open spec fn wf(self) -> bool {
        self.pixels@.len() == 4 * self.width * self.height
    }
}

impl Clone for Sprite {
    /// Cloning duplicates the pixel data; the copy carries the same image.
    fn clone(&self) -> (r: Self)
        ensures
            sprite_eq(r, *self),
    {
        let pixels = self.pixels.clone();
        proof {
            assert forall|i: int| 0 <= i < self.pixels@.len() implies pixels@[i]
                == self.pixels@[i] by {
                assert(cloned::<u8>(self.pixels[i], pixels[i]));
            }
            assert(pixels@ =~= self.pixels@);
        }
        Sprite { width: self.width, height: self.height, pixels }
    }
}

/// A flipbook animation: a bank of sprites with a frame counter stepping
/// through them.
pub struct Animation {
    pub sprites: Vec<Vec<Sprite>>,
    pub frame_count: usize,
    pub frame: usize,
}

/// A spritesheet: a decoded source image held as a tightly packed RGBA byte
/// buffer of `width * height` pixels, plus the sheet's own sprite cell size.
/// The source buffer is never mutated.
pub struct SpriteSheet {
    pub sprite_w: usize,
    pub sprite_h: usize,
    pub width: usize,
    pub height: usize,
    pub data: Vec<u8>,
}

/// Byte index of channel `c` (0 = red .. 3 = alpha) of the pixel at `(x, y)`
/// in a tightly packed RGBA buffer whose rows are `w` pixels wide.
pub open spec fn pix_idx(x: int, y: int, c: int, w: int) -> int {
    4 * (y * w + x) + c
}

/// `s` is exactly the `w × h` rectangle of `data` (row width `src_w`) whose
/// top-left pixel lies at `(x_begin + i * w, y_begin + j * h)`: the cell
/// `(i, j)` of a slicing that starts at `(x_begin, y_begin)`.
pub open spec fn sprite_is_cell(
    s: Sprite,
    data: Seq<u8>,
    src_w: int,
    x_begin: int,
    y_begin: int,
    w: int,
    h: int,
    i: int,
    j: int,
) -> bool {
    &&& s.width == w
    &&& s.height == h
    &&& s.pixels@.len() == 4 * w * h
    &&& forall|x: int, y: int, c: int|
        0 <= x < w && 0 <= y < h && 0 <= c < 4 ==> #[trigger] s.pixels@[pix_idx(x, y, c, w)]
            == data[pix_idx(x_begin + i * w + x, y_begin + j * h + y, c, src_w)]
}

/// Copies the `w × h` pixel rectangle with top-left corner `(x0, y0)` out of a
/// tightly packed RGBA buffer of `src_w × src_h` pixels, row by row, into a
/// new contiguous buffer.
fn copy_rect(data: &Vec<u8>, src_w: usize, src_h: usize, x0: usize, y0: usize, w: usize, h: usize) -> (out: Vec<u8>)
    requires
        data@.len() == 4 * src_w * src_h,
        x0 + w <= src_w,
        y0 + h <= src_h,
    ensures
        out@.len() == 4 * w * h,
        forall|x: int, y: int, c: int|
            0 <= x < w && 0 <= y < h && 0 <= c < 4 ==> #[trigger] out@[pix_idx(x, y, c, w as int)]
                == data@[pix_idx(x0 + x, y0 + y, c, src_w as int)],
{
    let mut out: Vec<u8> = Vec::new();
    let mut y: usize = 0;
    while y < h
        invariant
            y <= h,
            data@.len() == 4 * src_w * src_h,
            x0 + w <= src_w,
            y0 + h <= src_h,
            out@.len() == 4 * (y * w),
            forall|x1: int, y1: int, c1: int|
                0 <= x1 < w && 0 <= y1 < y && 0 <= c1 < 4 ==> #[trigger] out@[pix_idx(
                    x1,
                    y1,
                    c1,
                    w as int,
                )] == data@[pix_idx(x0 + x1, y0 + y1, c1, src_w as int)],
        decreases h - y,
    {
        let mut x: usize = 0;
        while x < w
            invariant
                x <= w,
                y < h,
                data@.len() == 4 * src_w * src_h,
                x0 + w <= src_w,
                y0 + h <= src_h,
                out@.len() == 4 * (y * w + x),
                forall|x1: int, y1: int, c1: int|
                    0 <= x1 < w && 0 <= y1 < y && 0 <= c1 < 4 ==> #[trigger] out@[pix_idx(
                        x1,
                        y1,
                        c1,
                        w as int,
                    )] == data@[pix_idx(x0 + x1, y0 + y1, c1, src_w as int)],
                forall|x1: int, c1: int|
                    0 <= x1 < x && 0 <= c1 < 4 ==> #[trigger] out@[pix_idx(
                        x1,
                        y as int,
                        c1,
                        w as int,
                    )] == data@[pix_idx(x0 + x1, y0 + y as int, c1, src_w as int)],
            decreases w - x,
        {
            proof {
                assert((y0 + y) * src_w + (x0 + x) < src_w * src_h) by (nonlinear_arith)
                    requires
                        y0 + y < src_h,
                        x0 + x < src_w,
                        src_w > 0,
                ;
                assert(4 * (y * w + x) + 4 <= 4 * (y * w + w)) by (nonlinear_arith)
                    requires
                        x < w,
                ;
                assert(4 * (y * w + w) <= 4 * (h * w)) by (nonlinear_arith)
                    requires
                        y < h,
                        w >= 0,
                ;
                assert(4 * (h * w) <= 4 * (src_w * src_h)) by (nonlinear_arith)
                    requires
                        h <= src_h,
                        w <= src_w,
                        w >= 0,
                        h >= 0,
                ;
            }
            proof {
                assert(4 * ((y0 + y) * src_w + (x0 + x)) + 3 < 4 * (src_w * src_h));
                assert(4 * (src_w * src_h) == 4 * src_w * src_h) by (nonlinear_arith);
                vstd::std_specs::vec::axiom_spec_len(data);
            }
            let base: usize = 4 * ((y0 + y) * src_w + (x0 + x));
            let ghost out_before = out@;
            out.push(data[base]);
            out.push(data[base + 1]);
            out.push(data[base + 2]);
            out.push(data[base + 3]);
            proof {
                assert forall|x1: int, c1: int|
                    0 <= x1 < x + 1 && 0 <= c1 < 4 implies #[trigger] out@[pix_idx(
                    x1,
                    y as int,
                    c1,
                    w as int,
                )] == data@[pix_idx(x0 + x1, y0 + y as int, c1, src_w as int)] by {
                    if x1 < x {
                        assert(pix_idx(x1, y as int, c1, w as int) < out_before.len())
                            by (nonlinear_arith)
                            requires
                                0 <= x1 < x,
                                0 <= c1 < 4,
                                out_before.len() == 4 * (y * w + x),
                                w > 0,
                        ;
                        assert(out@[pix_idx(x1, y as int, c1, w as int)] == out_before[pix_idx(
                            x1,
                            y as int,
                            c1,
                            w as int,
                        )]);
                    } else {
                        assert(pix_idx(x1, y as int, c1, w as int) == out_before.len() + c1);
                        assert(pix_idx(x0 + x1, y0 + y as int, c1, src_w as int) == base + c1);
                    }
                }
                assert forall|x1: int, y1: int, c1: int|
                    0 <= x1 < w && 0 <= y1 < y && 0 <= c1 < 4 implies #[trigger] out@[pix_idx(
                    x1,
                    y1,
                    c1,
                    w as int,
                )] == data@[pix_idx(x0 + x1, y0 + y1, c1, src_w as int)] by {
                    assert(pix_idx(x1, y1, c1, w as int) < out_before.len()) by (nonlinear_arith)
                        requires
                            0 <= x1 < w,
                            0 <= y1 < y,
                            0 <= c1 < 4,
                            out_before.len() == 4 * (y * w + x),
                            x >= 0,
                            w > 0,
                    ;
                    assert(out@[pix_idx(x1, y1, c1, w as int)] == out_before[pix_idx(
                        x1,
                        y1,
                        c1,
                        w as int,
                    )]);
                }
            }
            x = x + 1;
        }
        proof {
            assert(4 * (y * w + w) == 4 * ((y + 1) * w)) by (nonlinear_arith);
        }
        y = y + 1;
    }
    proof {
        assert(4 * (h * w) == 4 * w * h) by (nonlinear_arith);
    }
    out
}

impl SpriteSheet {
    /// The source buffer is tightly packed: four bytes per pixel.
    pub open spec fn wf(self) -> bool {
        self.data@.len() == 4 * self.width * self.height
    }

    /// Slices the rectangle `[x_begin, x_end) x [y_begin, y_end)` of the
    /// source image into a grid of independent `w x h` sprites, row-major.
    /// The region is divided by whole cells; remainder pixels on the right and
    /// bottom are dropped.
    pub fn cut(&self, x_begin: usize, x_end: usize, y_begin: usize, y_end: usize, w: usize, h: usize) -> (grid: Vec<Vec<Sprite>>)
        requires
            self.wf(),
            x_begin <= x_end && x_end <= self.width,
            y_begin <= y_end && y_end <= self.height,
            w > 0,
            h > 0,
        ensures
            grid@.len() == (y_end - y_begin) as int / h as int,
            forall|j: int| 0 <= j < grid@.len() ==> #[trigger] grid@[j]@.len() == (x_end
                - x_begin) as int / w as int,
            forall|j: int, i: int|
                0 <= j < grid@.len() && 0 <= i < grid@[j]@.len() ==> sprite_is_cell(
                    #[trigger] grid@[j]@[i],
                    self.data@,
                    self.width as int,
                    x_begin as int,
                    y_begin as int,
                    w as int,
                    h as int,
                    i,
                    j,
                ),
    {
        let tiles_x: usize = (x_end - x_begin) / w;
        let tiles_y: usize = (y_end - y_begin) / h;
        proof {
            assert(tiles_x * w <= x_end - x_begin && tiles_y * h <= y_end - y_begin)
                by (nonlinear_arith)
                requires
                    tiles_x == (x_end - x_begin) as int / w as int,
                    tiles_y == (y_end - y_begin) as int / h as int,
                    w > 0,
                    h > 0,
                    x_begin <= x_end,
                    y_begin <= y_end,
            ;
        }
        let mut grid: Vec<Vec<Sprite>> = Vec::new();
        let mut j: usize = 0;
        while j < tiles_y
            invariant
                j <= tiles_y,
                self.wf(),
                x_begin <= x_end && x_end <= self.width,
                y_begin <= y_end && y_end <= self.height,
                w > 0,
                h > 0,
                tiles_x == (x_end - x_begin) as int / w as int,
                tiles_y == (y_end - y_begin) as int / h as int,
                tiles_x * w <= x_end - x_begin,
                tiles_y * h <= y_end - y_begin,
                grid@.len() == j,
                forall|j1: int| 0 <= j1 < j ==> #[trigger] grid@[j1]@.len() == tiles_x,
                forall|j1: int, i1: int|
                    0 <= j1 < j && 0 <= i1 < tiles_x ==> sprite_is_cell(
                        #[trigger] grid@[j1]@[i1],
                        self.data@,
                        self.width as int,
                        x_begin as int,
                        y_begin as int,
                        w as int,
                        h as int,
                        i1,
                        j1,
                    ),
            decreases tiles_y - j,
        {
            let mut row: Vec<Sprite> = Vec::new();
            let mut i: usize = 0;
            proof {
                assert(j * h + h <= tiles_y * h) by (nonlinear_arith)
                    requires
                        j < tiles_y,
                        h > 0,
                ;
            }
            while i < tiles_x
                invariant
                    i <= tiles_x,
                    j < tiles_y,
                    self.wf(),
                    x_begin <= x_end && x_end <= self.width,
                    y_begin <= y_end && y_end <= self.height,
                    w > 0,
                    h > 0,
                    tiles_x * w <= x_end - x_begin,
                    j * h + h <= y_end - y_begin,
                    row@.len() == i,
                    forall|i1: int|
                        0 <= i1 < i ==> sprite_is_cell(
                            #[trigger] row@[i1],
                            self.data@,
                            self.width as int,
                            x_begin as int,
                            y_begin as int,
                            w as int,
                            h as int,
                            i1,
                            j as int,
                        ),
                decreases tiles_x - i,
            {
                proof {
                    assert(i * w + w <= tiles_x * w) by (nonlinear_arith)
                        requires
                            i < tiles_x,
                            w > 0,
                    ;
                }
                let x0: usize = x_begin + i * w;
                let y0: usize = y_begin + j * h;
                let pixels = copy_rect(&self.data, self.width, self.height, x0, y0, w, h);
                let s = Sprite { width: w, height: h, pixels };
                proof {
                    assert(4 * w * h == 4 * (w as int * h as int)) by (nonlinear_arith);
                    assert(sprite_is_cell(
                        s,
                        self.data@,
                        self.width as int,
                        x_begin as int,
                        y_begin as int,
                        w as int,
                        h as int,
                        i as int,
                        j as int,
                    ));
                }
                row.push(s);
                i = i + 1;
            }
            grid.push(row);
            j = j + 1;
        }
        grid
    }

    /// Slices the whole source image into `w x h` sprites.
    pub fn cut_sized(&self, w: usize, h: usize) -> (grid: Vec<Vec<Sprite>>)
        requires
            self.wf(),
            w > 0,
            h > 0,
        ensures
            grid@.len() == self.height as int / h as int,
            forall|j: int| 0 <= j < grid@.len() ==> #[trigger] grid@[j]@.len() == self.width as int
                / w as int,
            forall|j: int, i: int|
                0 <= j < grid@.len() && 0 <= i < grid@[j]@.len() ==> sprite_is_cell(
                    #[trigger] grid@[j]@[i],
                    self.data@,
                    self.width as int,
                    0,
                    0,
                    w as int,
                    h as int,
                    i,
                    j,
                ),
    {
        self.cut(0, self.width, 0, self.height, w, h)
    }

    /// Slices the whole source image using the sheet's own cell size. The
    /// sheet must actually carry one: a zero cell size admits no slicing.
    pub fn cut_default(&self) -> (grid: Vec<Vec<Sprite>>)
        requires
            self.wf(),
            self.sprite_w > 0,
            self.sprite_h > 0,
        ensures
            grid@.len() == self.height as int / self.sprite_h as int,
            forall|j: int| 0 <= j < grid@.len() ==> #[trigger] grid@[j]@.len() == self.width as int
                / self.sprite_w as int,
            forall|j: int, i: int|
                0 <= j < grid@.len() && 0 <= i < grid@[j]@.len() ==> sprite_is_cell(
                    #[trigger] grid@[j]@[i],
                    self.data@,
                    self.width as int,
                    0,
                    0,
                    self.sprite_w as int,
                    self.sprite_h as int,
                    i,
                    j,
                ),
    {
        self.cut_sized(self.sprite_w, self.sprite_h)
    }
}

/// Slicing is a content-preserving partition: a source pixel `(px, py)` that
/// lies in the sliced region is found unchanged in the sprite at cell
/// `((px - x_begin) / w, (py - y_begin) / h)`, at offset
/// `((px - x_begin) % w, (py - y_begin) % h)` within that sprite.
pub proof fn lemma_cut_partition(
    grid: Seq<Vec<Sprite>>,
    data: Seq<u8>,
    src_w: int,
    x_begin: int,
    y_begin: int,
    w: int,
    h: int,
    px: int,
    py: int,
    c: int,
)
    requires
        w > 0,
        h > 0,
        0 <= c < 4,
        x_begin <= px,
        y_begin <= py,
        (py - y_begin) / h < grid.len(),
        (px - x_begin) / w < grid[(py - y_begin) / h]@.len(),
        forall|j: int, i: int|
            0 <= j < grid.len() && 0 <= i < grid[j]@.len() ==> sprite_is_cell(
                #[trigger] grid[j]@[i],
                data,
                src_w,
                x_begin,
                y_begin,
                w,
                h,
                i,
                j,
            ),
    ensures
        grid[(py - y_begin) / h]@[(px - x_begin) / w].pixels@[pix_idx(
            (px - x_begin) % w,
            (py - y_begin) % h,
            c,
            w,
        )] == data[pix_idx(px, py, c, src_w)],
{
    let i = (px - x_begin) / w;
    let j = (py - y_begin) / h;
    let qx = (px - x_begin) % w;
    let qy = (py - y_begin) % h;
    vstd::arithmetic::div_mod::lemma_fundamental_div_mod(px - x_begin, w);
    vstd::arithmetic::div_mod::lemma_fundamental_div_mod(py - y_begin, h);
    vstd::arithmetic::div_mod::lemma_mod_bound(px - x_begin, w);
    vstd::arithmetic::div_mod::lemma_mod_bound(py - y_begin, h);
    assert(i >= 0 && j >= 0) by (nonlinear_arith)
        requires
            px - x_begin >= 0,
            py - y_begin >= 0,
            px - x_begin == w * i + qx,
            py - y_begin == h * j + qy,
            0 <= qx < w,
            0 <= qy < h,
            w > 0,
            h > 0,
    ;
    assert(x_begin + i * w + qx == px && y_begin + j * h + qy == py) by (nonlinear_arith)
        requires
            px - x_begin == w * i + qx,
            py - y_begin == h * j + qy,
    ;
    let s = grid[j]@[i];
    assert(sprite_is_cell(s, data, src_w, x_begin, y_begin, w, h, i, j));
    assert(s.pixels@[pix_idx(qx, qy, c, w)] == data[pix_idx(
        x_begin + i * w + qx,
        y_begin + j * h + qy,
        c,
        src_w,
    )]);
}

} // verus!
