use catacomb::gfx::{Sprite, SpriteSheet};

/// A 4x2 RGBA image whose byte at index i is i, so every pixel is unique.
fn sheet_4x2() -> SpriteSheet {
    let data: Vec<u8> = (0u8..32u8).collect();
    SpriteSheet { sprite_w: 2, sprite_h: 2, width: 4, height: 2, data }
}

#[test]
fn cut_grid_dimensions_and_sprite_sizes() {
    let sheet = sheet_4x2();
    let grid = sheet.cut(0, 4, 0, 2, 2, 2);
    assert_eq!(grid.len(), 1);
    assert_eq!(grid[0].len(), 2);
    for row in &grid {
        for sprite in row {
            assert_eq!(sprite.width, 2);
            assert_eq!(sprite.height, 2);
            assert_eq!(sprite.pixels.len(), 2 * 2 * 4);
        }
    }
}

#[test]
fn cut_copies_rectangles_row_by_row() {
    let sheet = sheet_4x2();
    let grid = sheet.cut(0, 4, 0, 2, 2, 2);
    // left sprite: pixels (0,0) (1,0) (0,1) (1,1) of the source
    assert_eq!(grid[0][0].pixels, vec![0, 1, 2, 3, 4, 5, 6, 7, 16, 17, 18, 19, 20, 21, 22, 23]);
    // right sprite: pixels (2,0) (3,0) (2,1) (3,1)
    assert_eq!(grid[0][1].pixels, vec![8, 9, 10, 11, 12, 13, 14, 15, 24, 25, 26, 27, 28, 29, 30, 31]);
}

#[test]
fn cut_partition_locates_source_pixel() {
    let sheet = sheet_4x2();
    let grid = sheet.cut(0, 4, 0, 2, 2, 2);
    // source pixel (px, py) = (3, 1), channel 2, lands in sprite
    // ((3-0)/2, (1-0)/2) = (1, 0) at offset ((3-0)%2, (1-0)%2) = (1, 1)
    let src_index = 4 * (1 * 4 + 3) + 2;
    let sprite_index = 4 * (1 * 2 + 1) + 2;
    assert_eq!(grid[0][1].pixels[sprite_index], sheet.data[src_index]);
    assert_eq!(grid[0][1].pixels[sprite_index], 30);
}

#[test]
fn cut_drops_remainder_pixels() {
    // a 5x3 image cut into 2x2 cells keeps only a 2x1 grid of cells
    let data: Vec<u8> = vec![7; 5 * 3 * 4];
    let sheet = SpriteSheet { sprite_w: 0, sprite_h: 0, width: 5, height: 3, data };
    let grid = sheet.cut(0, 5, 0, 3, 2, 2);
    assert_eq!(grid.len(), 1);
    assert_eq!(grid[0].len(), 2);
}

#[test]
fn cut_of_sub_region() {
    let sheet = sheet_4x2();
    // only the right half of the image, one 2x2 cell
    let grid = sheet.cut(2, 4, 0, 2, 2, 2);
    assert_eq!(grid.len(), 1);
    assert_eq!(grid[0].len(), 1);
    assert_eq!(grid[0][0].pixels, vec![8, 9, 10, 11, 12, 13, 14, 15, 24, 25, 26, 27, 28, 29, 30, 31]);
}

#[test]
fn cut_sized_covers_whole_image() {
    let sheet = sheet_4x2();
    let grid = sheet.cut_sized(2, 1);
    assert_eq!(grid.len(), 2);
    assert_eq!(grid[0].len(), 2);
    assert_eq!(grid[1][1].pixels, vec![24, 25, 26, 27, 28, 29, 30, 31]);
}

#[test]
fn cut_default_uses_sheet_cell_size() {
    let sheet = sheet_4x2();
    let grid = sheet.cut_default();
    assert_eq!(grid.len(), 1);
    assert_eq!(grid[0].len(), 2);
    assert_eq!(grid[0][0].width, 2);
    assert_eq!(grid[0][0].height, 2);
}

#[test]
fn sprite_clone_duplicates_pixels() {
    let s = Sprite { width: 1, height: 1, pixels: vec![9, 8, 7, 6] };
    let c = s.clone();
    assert_eq!(c.width, 1);
    assert_eq!(c.height, 1);
    assert_eq!(c.pixels, vec![9, 8, 7, 6]);
}
