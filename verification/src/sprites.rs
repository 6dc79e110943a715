use vstd::prelude::*;

verus! {

/// Which edge of a carved room a boundary cell belongs to.
#[derive(Copy, Clone, Debug, PartialEq, Eq, Structural)]
pub enum WallType {
    Back,
    Front,
    Left,
    Right,
}

/// What occupies a grid cell: a concrete wall sprite variant, a door
/// opening, foliage, a player spawn, or nothing.
#[derive(Copy, Clone, Debug, PartialEq, Eq, Structural)]
pub enum SpriteRequest {
    Blank,
    Door,
    BackWall,
    FrontWall,
    LeftWall,
    RightWall,
    BackWallLeftCorner,
    BackWallRightCorner,
    FrontWallLeftCorner,
    FrontWallRightCorner,
    Shrubbery,
    DarkShrubbery,
    Tree,
    WarpedTree,
    Player(usize),
}

impl SpriteRequest {
    /// A cell holding this sprite cannot be walked onto: everything except
    /// open floor (`Blank`) and a wall opening (`Door`) blocks placement.
    pub open spec fn blocks(self) -> bool {
        self != SpriteRequest::Blank && self != SpriteRequest::Door
    }

    /// Executable form of `blocks`.
    pub fn is_blocking(&self) -> (r: bool)
        ensures
            r == self.blocks(),
    {
        !(*self == SpriteRequest::Blank || *self == SpriteRequest::Door)
    }
}

} // verus!
