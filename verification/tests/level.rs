use catacomb::gfx::Sprite;
use catacomb::level::Level;
use catacomb::types::TileTypes;
use rand::SeedableRng;

fn tagged_sprite(tag: u8) -> Sprite {
    Sprite { width: 2, height: 2, pixels: vec![tag; 16] }
}

/// Three rows of five sprites, each tagged by its bank position.
fn floor_bank() -> Vec<Vec<Sprite>> {
    (0u8..3)
        .map(|r| (0u8..5).map(|c| tagged_sprite(10 * r + c)).collect())
        .collect()
}

/// Two rows of eight sprites: top faces and front faces.
fn wall_bank() -> Vec<Vec<Sprite>> {
    (0u8..2)
        .map(|r| (0u8..8).map(|c| tagged_sprite(100 + 10 * r + c)).collect())
        .collect()
}

fn rng() -> rand::rngs::StdRng {
    rand::rngs::StdRng::seed_from_u64(42)
}

const WHITE: [u8; 4] = [255, 255, 255, 255];
const BLACK: [u8; 4] = [0, 0, 0, 255];
const RED: [u8; 4] = [255, 0, 0, 255];

fn image(pixels: &[[u8; 4]]) -> Vec<u8> {
    pixels.iter().flatten().copied().collect()
}

#[test]
fn single_white_pixel_gives_one_floor_tile() {
    let data = image(&[WHITE]);
    let level = Level::from_image(&data, 1, 1, &floor_bank(), &wall_bank(), &mut rng());
    assert_eq!(level.width(), 1);
    assert_eq!(level.height(), 1);
    assert_eq!(level.tiles().len(), 1);
    assert_eq!(level.tiles()[0].len(), 1);
    assert_eq!(level.tiles()[0][0].tile_type, TileTypes::Floor);
    assert_eq!(level.x_offset, 0);
    assert_eq!(level.y_offset, 0);
}

#[test]
fn floor_sprite_is_one_of_the_first_four_variants() {
    let data = image(&[WHITE]);
    let floor = floor_bank();
    let level = Level::from_image(&data, 1, 1, &floor, &wall_bank(), &mut rng());
    let tile = &level.tiles()[0][0];
    let tag = tile.sprite.pixels[0];
    assert!(tag < 4, "floor sprite tag {} is not a row-0 variant", tag);
    assert_eq!(tile.sprite.pixels, floor[0][tag as usize].pixels);
    assert!(tile.extra_sprite.is_none());
    assert_eq!(tile.w, 32);
    assert_eq!(tile.h, 32);
    assert_eq!(tile.grid_pos, (0, 0));
    assert_eq!(tile.pos, (0, 0));
}

#[test]
fn wall_column_keeps_front_face_only_at_the_bottom() {
    let data = image(&[RED, RED, RED]);
    let level = Level::from_image(&data, 1, 3, &floor_bank(), &wall_bank(), &mut rng());
    assert_eq!(level.tiles()[0][0].tile_type, TileTypes::Wall);
    assert_eq!(level.tiles()[1][0].tile_type, TileTypes::Wall);
    assert_eq!(level.tiles()[2][0].tile_type, TileTypes::WallFront);
    assert!(level.tiles()[0][0].extra_sprite.is_none());
    assert!(level.tiles()[1][0].extra_sprite.is_none());
    assert!(level.tiles()[2][0].extra_sprite.is_some());
}

#[test]
fn wall_faces_share_one_bank_column() {
    let data = image(&[RED]);
    let wall = wall_bank();
    let level = Level::from_image(&data, 1, 1, &floor_bank(), &wall, &mut rng());
    let tile = &level.tiles()[0][0];
    assert_eq!(tile.tile_type, TileTypes::WallFront);
    assert_eq!(tile.w, 32);
    assert_eq!(tile.h, 56);
    // 24 pixels taller than a cell, so shifted up by 24
    assert_eq!(tile.pos, (0, -24));
    let top_tag = tile.sprite.pixels[0];
    let front_tag = tile.extra_sprite.as_ref().unwrap().pixels[0];
    assert!((100..108).contains(&top_tag));
    assert_eq!(front_tag, top_tag + 10);
}

#[test]
fn hole_below_floor_uses_edge_variant() {
    let data = image(&[WHITE, BLACK]);
    let floor = floor_bank();
    let level = Level::from_image(&data, 1, 2, &floor, &wall_bank(), &mut rng());
    let hole = &level.tiles()[1][0];
    assert_eq!(hole.tile_type, TileTypes::Hole);
    assert_eq!(hole.sprite.pixels, floor[2][4].pixels);
}

#[test]
fn hole_below_hole_uses_plain_variant() {
    let data = image(&[WHITE, BLACK, BLACK]);
    let floor = floor_bank();
    let level = Level::from_image(&data, 1, 3, &floor, &wall_bank(), &mut rng());
    assert_eq!(level.tiles()[1][0].sprite.pixels, floor[2][4].pixels);
    assert_eq!(level.tiles()[2][0].sprite.pixels, floor[0][4].pixels);
}

#[test]
fn hole_on_the_top_edge_uses_edge_variant() {
    let data = image(&[BLACK]);
    let floor = floor_bank();
    let level = Level::from_image(&data, 1, 1, &floor, &wall_bank(), &mut rng());
    assert_eq!(level.tiles()[0][0].tile_type, TileTypes::Hole);
    assert_eq!(level.tiles()[0][0].sprite.pixels, floor[2][4].pixels);
}

#[test]
fn unknown_color_classifies_as_empty() {
    let data = image(&[[12, 34, 56, 255]]);
    let level = Level::from_image(&data, 1, 1, &floor_bank(), &wall_bank(), &mut rng());
    let tile = &level.tiles()[0][0];
    assert_eq!(tile.tile_type, TileTypes::Empty);
    assert_eq!(tile.w, 0);
    assert_eq!(tile.h, 0);
    assert!(tile.extra_sprite.is_none());
}

#[test]
fn mixed_row_keeps_grid_positions() {
    let data = image(&[WHITE, RED, BLACK, [9, 9, 9, 255]]);
    let level = Level::from_image(&data, 4, 1, &floor_bank(), &wall_bank(), &mut rng());
    assert_eq!(level.width(), 4);
    assert_eq!(level.height(), 1);
    for c in 0..4 {
        assert_eq!(level.tiles()[0][c].grid_pos, (c, 0));
    }
    assert_eq!(level.tiles()[0][0].tile_type, TileTypes::Floor);
    assert_eq!(level.tiles()[0][1].tile_type, TileTypes::WallFront);
    assert_eq!(level.tiles()[0][2].tile_type, TileTypes::Hole);
    assert_eq!(level.tiles()[0][3].tile_type, TileTypes::Empty);
}

#[test]
fn get_tile_type_returns_sentinel_outside_the_grid() {
    let data = image(&[WHITE]);
    let level = Level::from_image(&data, 1, 1, &floor_bank(), &wall_bank(), &mut rng());
    assert_eq!(*Level::get_tile_type(level.tiles(), (0, 0)), TileTypes::Floor);
    assert_eq!(*Level::get_tile_type(level.tiles(), (-1, 0)), TileTypes::Empty);
    assert_eq!(*Level::get_tile_type(level.tiles(), (0, -1)), TileTypes::Empty);
    assert_eq!(*Level::get_tile_type(level.tiles(), (1, 0)), TileTypes::Empty);
    assert_eq!(*Level::get_tile_type(level.tiles(), (0, 7)), TileTypes::Empty);
}

#[test]
fn procedural_level_is_all_random_floors() {
    let floor = floor_bank();
    let level = Level::new(3, 2, &floor, &mut rng());
    assert_eq!(level.width(), 3);
    assert_eq!(level.height(), 2);
    assert_eq!(level.tiles().len(), 2);
    for r in 0..2 {
        assert_eq!(level.tiles()[r].len(), 3);
        for c in 0..3 {
            let tile = &level.tiles()[r][c];
            assert_eq!(tile.tile_type, TileTypes::Floor);
            assert_eq!(tile.grid_pos, (c, r));
            assert_eq!(tile.pos, (32 * c as i32, 32 * r as i32));
            assert!(tile.sprite.pixels[0] < 4);
            assert!(tile.extra_sprite.is_none());
        }
    }
}

#[test]
fn panning_accumulates_a_fixed_step_per_tick() {
    let data = image(&[WHITE]);
    let mut level = Level::from_image(&data, 1, 1, &floor_bank(), &wall_bank(), &mut rng());
    for _ in 0..10 {
        level.update(true, false, false, false);
    }
    // 10 ticks holding right: exactly 10 * 5 half-pixels (25 pixels)
    assert_eq!(level.x_offset, 50);
    assert_eq!(level.y_offset, 0);
    for _ in 0..4 {
        level.update(false, true, true, false);
    }
    assert_eq!(level.x_offset, 30);
    assert_eq!(level.y_offset, 20);
    // opposite directions held together cancel out
    level.update(true, true, true, true);
    assert_eq!(level.x_offset, 30);
    assert_eq!(level.y_offset, 20);
}

#[test]
fn panning_is_never_clamped_to_the_grid() {
    let data = image(&[WHITE]);
    let mut level = Level::from_image(&data, 1, 1, &floor_bank(), &wall_bank(), &mut rng());
    // far past the 32-pixel grid extent already
    level.x_offset = 1_000_000;
    level.update(true, false, false, false);
    assert_eq!(level.x_offset, 1_000_005);
}

#[test]
fn tile_accessors_expose_sprites() {
    let data = image(&[RED]);
    let level = Level::from_image(&data, 1, 1, &floor_bank(), &wall_bank(), &mut rng());
    let tile = &level.tiles()[0][0];
    assert_eq!(tile.width(), 32);
    assert_eq!(tile.height(), 56);
    assert_eq!(tile.sprite().pixels, tile.sprite.pixels);
    assert_eq!(tile.image(), &tile.sprite.pixels);
    assert_eq!(tile.extra_image(), &tile.extra_sprite.as_ref().unwrap().pixels);
}

#[test]
fn tiles_mut_allows_reclassification() {
    let data = image(&[WHITE]);
    let mut level = Level::from_image(&data, 1, 1, &floor_bank(), &wall_bank(), &mut rng());
    level.tiles_mut()[0][0].tile_type = TileTypes::Hole;
    assert_eq!(level.tiles()[0][0].tile_type, TileTypes::Hole);
}

#[test]
fn next_random_is_a_floor_stub() {
    assert_eq!(TileTypes::next_random(), TileTypes::Floor);
}
