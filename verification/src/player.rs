use vstd::prelude::*;

verus! {

/// Where a player piece was put on the board.
#[derive(Clone, Copy, Debug, PartialEq, Eq, Structural)]
pub struct Player {
    pub x: u8,
    pub z: u8,
}

/// The cell a player piece is heading for.
#[derive(Clone, Copy, Debug, PartialEq, Eq, Structural)]
pub struct PlayerDestination {
    pub x: u8,
    pub z: u8,
}

impl PlayerDestination {
    /// The point in the world that the piece moves towards: the destination
    /// at height 0.
    pub fn point(&self) -> (point: (u8, u8, u8))
        ensures
            point == (self.x, 0u8, self.z),
    {
        (self.x, 0, self.z)
    }
}

/// A request to put a player piece into the scene at `(x, 0, z)`.
#[derive(Clone, Copy, Debug, PartialEq, Eq, Structural)]
pub struct PlayerSpawn {
    pub x: u8,
    pub z: u8,
    pub player: Player,
    pub destination: PlayerDestination,
}

/// Places a player piece at `(x, z)`: it starts out with its own place as
/// its destination.
pub fn spawn_player(position: (u8, u8)) -> (spawn: PlayerSpawn)
    ensures
        spawn == (PlayerSpawn {
            x: position.0,
            z: position.1,
            player: Player { x: position.0, z: position.1 },
            destination: PlayerDestination { x: position.0, z: position.1 },
        }),
{
    PlayerSpawn {
        x: position.0,
        z: position.1,
        player: Player { x: position.0, z: position.1 },
        destination: PlayerDestination { x: position.0, z: position.1 },
    }
}

/// The player piece the board starts with, at the origin.
pub fn create_player() -> (spawn: PlayerSpawn)
    ensures
        spawn == (PlayerSpawn {
            x: 0,
            z: 0,
            player: Player { x: 0, z: 0 },
            destination: PlayerDestination { x: 0, z: 0 },
        }),
{
    spawn_player((0, 0))
}

} // verus!
