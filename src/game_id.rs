use vstd::prelude::*;

verus! {

/// The game whose plugin dialect is being read.
#[derive(Clone, Copy, Debug, PartialEq, Eq, Structural)]
pub enum GameId {
    Morrowind,
    Oblivion,
    Skyrim,
    SkyrimSE,
    Fallout3,
    FalloutNV,
    Fallout4,
}

impl GameId {
    /// Morrowind uses the older TES3 layout; every other game uses TES4.
    pub fn is_tes3(&self) -> (r: bool)
        ensures
            r == (*self == GameId::Morrowind),
    {
        match self {
            GameId::Morrowind => true,
            _ => false,
        }
    }
}

} // verus!
