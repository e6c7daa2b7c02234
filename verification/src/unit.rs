use vstd::prelude::*;

verus! {

/// What makes an entity a mobile unit: the cell it is heading for.
#[derive(Clone, Copy, Debug, PartialEq, Eq, Structural)]
pub struct Unit {
    pub target_x: u8,
    pub target_y: u8,
}

impl Unit {
    /// The point in the world that the unit moves towards: its destination
    /// at height 0.
    pub fn destination(&self) -> (point: (u8, u8, u8))
        ensures
            point == (self.target_x, 0u8, self.target_y),
    {
        (self.target_x, 0, self.target_y)
    }
}

/// Which of the two models a unit is shown with.
#[derive(Clone, Copy, Debug, PartialEq, Eq, Structural)]
pub enum UnitKind {
    Player,
    Enemy,
}

/// A request to put one unit into the scene at the world position
/// `(x, y, z)`.
#[derive(Clone, Copy, Debug, PartialEq, Eq, Structural)]
pub struct UnitSpawn {
    pub kind: UnitKind,
    pub x: u8,
    pub y: u8,
    pub z: u8,
    pub unit: Unit,
}

/// The unit of a given kind placed at `position`. Its first destination is
/// made of the first two coordinates of the position, so the height stands
/// where the depth would be expected.
pub open spec fn spec_spawn(kind: UnitKind, position: (u8, u8, u8)) -> UnitSpawn {
    UnitSpawn {
        kind,
        x: position.0,
        y: position.1,
        z: position.2,
        unit: Unit { target_x: position.0, target_y: position.1 },
    }
}

/// Places the player's unit at `position`.
pub fn spawn_player(position: (u8, u8, u8)) -> (spawn: UnitSpawn)
    ensures
        spawn == spec_spawn(UnitKind::Player, position),
{
    UnitSpawn {
        kind: UnitKind::Player,
        x: position.0,
        y: position.1,
        z: position.2,
        unit: Unit { target_x: position.0, target_y: position.1 },
    }
}

/// Places an enemy unit at `position`.
pub fn spawn_enemy(position: (u8, u8, u8)) -> (spawn: UnitSpawn)
    ensures
        spawn == spec_spawn(UnitKind::Enemy, position),
{
    UnitSpawn {
        kind: UnitKind::Enemy,
        x: position.0,
        y: position.1,
        z: position.2,
        unit: Unit { target_x: position.0, target_y: position.1 },
    }
}

/// The units the board starts with: the player at `(0, 0, 4)`, then one
/// enemy at `(7, 0, 3)`.
pub fn create_units() -> (spawns: Vec<UnitSpawn>)
    ensures
        spawns@ == seq![
            spec_spawn(UnitKind::Player, (0u8, 0u8, 4u8)),
            spec_spawn(UnitKind::Enemy, (7u8, 0u8, 3u8)),
        ],
{
    let mut spawns: Vec<UnitSpawn> = Vec::new();
    spawns.push(spawn_player((0, 0, 4)));
    spawns.push(spawn_enemy((7, 0, 3)));
    assert(spawns@ =~= seq![
        spec_spawn(UnitKind::Player, (0u8, 0u8, 4u8)),
        spec_spawn(UnitKind::Enemy, (7u8, 0u8, 3u8)),
    ]);
    spawns
}

} // verus!
