use crate::gfx::Sprite;
use crate::types::TileTypes;
use vstd::prelude::*;

verus! {

/// One cell of the level grid: its size in pixels, its grid slot
/// `(col, row)`, its derived pixel position (walls are 24 pixels taller than a
/// cell and shift up by that much), its body sprite, an optional front-face
/// sprite, and its semantic kind.
pub struct Tile {
    pub w: usize,
    pub h: usize,
    pub grid_pos: (usize, usize),
    pub pos: (i32, i32),
    pub sprite: Sprite,
    pub extra_sprite: Option<Sprite>,
    pub tile_type: TileTypes,
}

/// A pre-sliced bank of sprites together with its cell geometry.
pub struct TileSet {
    pub sprites: Vec<Vec<Sprite>>,
    pub tile_count: usize,
    pub tile_width: usize,
    pub tile_height: usize,
}

impl Tile {
    pub fn width(&self) -> (r: usize)
        ensures
            r == self.w,
    {
        self.w
    }

    pub fn height(&self) -> (r: usize)
        ensures
            r == self.h,
    {
        self.h
    }

    pub fn sprite(&self) -> (r: &Sprite)
        ensures
            *r == self.sprite,
    {
        &self.sprite
    }

    /// The pixel buffer of the tile's body sprite.
    pub fn image(&self) -> (r: &Vec<u8>)
        ensures
            r@ == self.sprite.pixels@,
    {
        &self.sprite.pixels
    }

    /// The pixel buffer of the front-face sprite, on tiles that carry one.
    pub fn extra_image(&self) -> (r: &Vec<u8>)
        requires
            self.extra_sprite is Some,
        ensures
            r@ == self.extra_sprite->0.pixels@,
    {
        let sprite = self.extra_sprite.as_ref().unwrap();
        &sprite.pixels
    }
}

} // verus!
