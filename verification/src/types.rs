use vstd::prelude::*;

verus! {

/// The semantic kind of a level tile.
///
/// `WallFront` is never read from a level image: a wall pixel first becomes a
/// `WallFront`, and is demoted to `Wall` when another wall is placed directly
/// beneath it, so that only the bottommost wall of a vertical run shows its
/// front face. `Empty` marks a cell whose pixel color matches no tile
/// kind; such cells are never drawn.
#[derive(Clone, Copy, Debug, PartialEq, Eq, Structural)]
pub enum TileTypes {
    Floor,
    Wall,
    WallFront,
    Hole,
    Empty,
}

impl TileTypes {
    /// The tile kind used by procedural level generation; a stub that always
    /// picks `Floor`.
    pub fn next_random() -> (t: Self)
        ensures
            t == TileTypes::Floor,
    {
        Self::Floor
    }
}

} // verus!
