use crate::player::PlayerDestination;
use vstd::prelude::*;

verus! {

/// The cell that every player piece is sent to.
#[derive(Clone, Copy, Debug, PartialEq, Eq, Structural)]
pub struct Destination {
    pub x: u8,
    pub z: u8,
}

impl Default for Destination {
    fn default() -> (destination: Destination)
        ensures
            destination == (Destination { x: 2, z: 4 }),
    {
        Destination { x: 2, z: 4 }
    }
}

/// Sends every player piece to `destination`.
pub fn move_player(destination: &Destination, players: &mut Vec<PlayerDestination>)
    ensures
        final(players)@ == Seq::new(
            old(players)@.len(),
            |k: int| PlayerDestination { x: destination.x, z: destination.z },
        ),
{
    let n = players.len();
    let mut k: usize = 0;
    while k < n
        invariant
            k <= n,
            players@.len() == n,
            n == old(players)@.len(),
            forall|m: int|
                0 <= m < k ==> players@[m] == (PlayerDestination {
                    x: destination.x,
                    z: destination.z,
                }),
        decreases n - k,
    {
        players.set(k, PlayerDestination { x: destination.x, z: destination.z });
        k += 1;
    }
    assert(players@ =~= Seq::new(
        old(players)@.len(),
        |k: int| PlayerDestination { x: destination.x, z: destination.z },
    ));
}

} // verus!
