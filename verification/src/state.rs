//! The fish record, the call environment, and the constants of the game.

use vstd::prelude::*;

verus! {

/// Seconds a fish survives without food. A feed that comes later finds it dead.
pub const MAX_HUNGER_DURATION: u64 = 86400;

/// The most living fish one owner may hold when adopting another.
pub const MAX_ALIVE_FISH: usize = 5;

/// The hue given to a fish when no usable randomness is at hand.
pub const DEFAULT_COLOUR: u16 = 0;

/// Hues are degrees on the colour wheel: `0 <= colour < HUE_RANGE`.
pub const HUE_RANGE: u32 = 360;

/// What the host tells of the block a call runs in.
#[derive(Debug, PartialEq, Eq)]
pub struct Env {
    /// The current time, in seconds.
    pub time: u64,
    /// Random bytes for this call, where the host has any.
    pub random: Option<Vec<u8>>,
}

/// One fish, as it is stored.
#[derive(Debug, PartialEq, Eq)]
pub struct Fish {
    pub id: u64,
    pub name: String,
    /// Canonical address of the adopter.
    pub owner: Vec<u8>,
    /// Second of adoption.
    pub created_at: u64,
    /// Second of the last successful feeding.
    pub last_fed: u64,
    pub dead: bool,
    pub colour: u16,
}

/// The mathematical value of a [`Fish`].
pub ghost struct FishView {
    pub id: u64,
    pub name: Seq<char>,
    pub owner: Seq<u8>,
    pub created_at: u64,
    pub last_fed: u64,
    pub dead: bool,
    pub colour: u16,
}

impl View for Fish {
    type V = FishView;

    open spec fn view(&self) -> FishView {
        FishView {
            id: self.id,
            name: self.name@,
            owner: self.owner@,
            created_at: self.created_at,
            last_fed: self.last_fed,
            dead: self.dead,
            colour: self.colour,
        }
    }
}

impl DeepView for Fish {
    type V = FishView;

    open spec fn deep_view(&self) -> FishView {
        self@
    }
}

impl Clone for Fish {
    fn clone(&self) -> (copy: Fish)
        ensures
            copy@ == self@,
    {
        Fish {
            id: self.id,
            name: self.name.clone(),
            owner: self.owner.clone(),
            created_at: self.created_at,
            last_fed: self.last_fed,
            dead: self.dead,
            colour: self.colour,
        }
    }
}

/// Whether two canonical addresses are the same.
pub fn same_address(a: &Vec<u8>, b: &Vec<u8>) -> (same: bool)
    ensures
        same == (a@ == b@),
{
    let same = a == b;
    proof {
        if same {
            assert(a@ =~= b@);
        }
    }
    same
}

} // verus!
