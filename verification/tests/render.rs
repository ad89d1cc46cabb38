use catacomb::gfx::Sprite;
use catacomb::level::Level;
use catacomb::render::{DrawCommand, SCALE};
use rand::SeedableRng;

fn tagged_sprite(tag: u8) -> Sprite {
    Sprite { width: 2, height: 2, pixels: vec![tag; 16] }
}

fn floor_bank() -> Vec<Vec<Sprite>> {
    (0u8..3)
        .map(|r| (0u8..5).map(|c| tagged_sprite(10 * r + c)).collect())
        .collect()
}

fn wall_bank() -> Vec<Vec<Sprite>> {
    (0u8..2)
        .map(|r| (0u8..8).map(|c| tagged_sprite(100 + 10 * r + c)).collect())
        .collect()
}

fn rng() -> rand::rngs::StdRng {
    rand::rngs::StdRng::seed_from_u64(7)
}

const WHITE: [u8; 4] = [255, 255, 255, 255];
const RED: [u8; 4] = [255, 0, 0, 255];

fn image(pixels: &[[u8; 4]]) -> Vec<u8> {
    pixels.iter().flatten().copied().collect()
}

#[test]
fn one_floor_tile_gives_one_submission() {
    let data = image(&[WHITE]);
    let level = Level::from_image(&data, 1, 1, &floor_bank(), &wall_bank(), &mut rng());
    let cmds = level.draw(640, 480);
    assert_eq!(
        cmds,
        vec![DrawCommand { col: 0, row: 0, front: false, x: 0, y: 0, scale: SCALE }],
    );
}

#[test]
fn pan_offset_moves_the_submission() {
    let data = image(&[WHITE]);
    let mut level = Level::from_image(&data, 1, 1, &floor_bank(), &wall_bank(), &mut rng());
    level.update(true, false, false, false);
    let cmds = level.draw(640, 480);
    // one tick right: 5 half-pixels, zoomed by 2
    assert_eq!(cmds.len(), 1);
    assert_eq!(cmds[0].x, 10);
    assert_eq!(cmds[0].y, 0);
}

#[test]
fn tiles_panned_off_screen_are_culled() {
    let data = image(&[WHITE]);
    let mut level = Level::from_image(&data, 1, 1, &floor_bank(), &wall_bank(), &mut rng());
    level.update(false, true, false, false);
    // one tick left puts the zoomed position at -20 half-pixels
    let cmds = level.draw(640, 480);
    assert_eq!(cmds, vec![]);
}

#[test]
fn front_wall_issues_body_and_front_submissions() {
    let data = image(&[RED]);
    let mut level = Level::from_image(&data, 1, 1, &floor_bank(), &wall_bank(), &mut rng());
    // the wall is 24 pixels taller than its cell and starts above the
    // viewport; pan down until it is visible
    for _ in 0..20 {
        level.update(false, false, true, false);
    }
    assert_eq!(level.y_offset, 100);
    let cmds = level.draw(640, 480);
    let body_y = (2 * -24 + 100) * SCALE;
    assert_eq!(
        cmds,
        vec![
            DrawCommand { col: 0, row: 0, front: false, x: 0, y: body_y, scale: SCALE },
            DrawCommand {
                col: 0,
                row: 0,
                front: true,
                x: 0,
                y: body_y + 2 * 32 * SCALE,
                scale: SCALE,
            },
        ],
    );
}

#[test]
fn empty_cells_are_never_drawn() {
    let data = image(&[WHITE, [1, 2, 3, 255], WHITE]);
    let level = Level::from_image(&data, 3, 1, &floor_bank(), &wall_bank(), &mut rng());
    let cmds = level.draw(640, 480);
    assert_eq!(cmds.len(), 2);
    assert!(cmds.iter().all(|c| !c.front));
    assert_eq!((cmds[0].col, cmds[0].row), (0, 0));
    assert_eq!((cmds[1].col, cmds[1].row), (2, 0));
    assert_eq!(cmds[1].x, (2 * 64) * SCALE);
}

#[test]
fn submissions_come_in_storage_order() {
    let data = image(&[WHITE, WHITE, WHITE, WHITE]);
    let level = Level::from_image(&data, 2, 2, &floor_bank(), &wall_bank(), &mut rng());
    let cmds = level.draw(640, 480);
    let cells: Vec<(usize, usize)> = cmds.iter().map(|c| (c.row, c.col)).collect();
    assert_eq!(cells, vec![(0, 0), (0, 1), (1, 0), (1, 1)]);
}
