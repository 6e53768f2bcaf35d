//! The hue of a newly adopted fish.
//!
//! The first four random bytes of the call, read as one big-endian number
//! and reduced to the degrees of the colour wheel, give the hue. A call
//! without four random bytes gives the default hue; adoption never fails for
//! want of randomness.

use vstd::prelude::*;

use crate::error::ContractError;
use crate::state::{Env, DEFAULT_COLOUR, HUE_RANGE};

verus! {

/// The number of random bytes a hue is made of.
pub const RANDOM_BYTES_NEEDED: usize = 4;

/// The first four bytes read as a big-endian number.
pub open spec fn leading_number(bytes: Seq<u8>) -> int
    recommends
        bytes.len() >= RANDOM_BYTES_NEEDED,
{
    bytes[0] * 0x100_0000 + bytes[1] * 0x1_0000 + bytes[2] * 0x100 + bytes[3]
}

/// The hue that the given random bytes stand for.
pub open spec fn hue_of(bytes: Seq<u8>) -> u16
    recommends
        bytes.len() >= RANDOM_BYTES_NEEDED,
{
    (leading_number(bytes) % (HUE_RANGE as int)) as u16
}

/// Whether a hue can be drawn from `random`.
pub open spec fn is_usable(random: Option<Vec<u8>>) -> bool {
    random matches Some(bytes) && bytes@.len() >= RANDOM_BYTES_NEEDED
}

/// The hue of a fish adopted in a call that carries `random`.
pub open spec fn colour_for(random: Option<Vec<u8>>) -> u16 {
    if is_usable(random) {
        hue_of(random->0@)
    } else {
        DEFAULT_COLOUR
    }
}

/// Every hue the game gives lies on the colour wheel.
pub proof fn lemma_colour_in_range(random: Option<Vec<u8>>)
    ensures
        colour_for(random) < HUE_RANGE,
{
}

/// Draws a hue from the call's randomness.
pub fn random_colour(env: &Env) -> (drawn: Result<u16, ContractError>)
    ensures
        drawn == if is_usable(env.random) {
            Ok::<u16, ContractError>(hue_of(env.random->0@))
        } else {
            Err::<u16, ContractError>(ContractError::RandomnessUnavailable)
        },
        drawn matches Ok(hue) ==> hue < HUE_RANGE,
{
    match &env.random {
        Some(bytes) => {
            if bytes.len() < RANDOM_BYTES_NEEDED {
                return Err(ContractError::RandomnessUnavailable);
            }
            let raw: u32 = (bytes[0] as u32) * 0x100_0000 + (bytes[1] as u32) * 0x1_0000 + (
            bytes[2] as u32) * 0x100 + (bytes[3] as u32);
            Ok((raw % HUE_RANGE) as u16)
        },
        None => Err(ContractError::RandomnessUnavailable),
    }
}

/// The hue for a fish adopted in this call: drawn from the call's randomness
/// where that is possible, the default hue where it is not.
pub fn assign_colour(env: &Env) -> (colour: u16)
    ensures
        colour == colour_for(env.random),
        colour < HUE_RANGE,
{
    match random_colour(env) {
        Ok(hue) => hue,
        Err(_) => DEFAULT_COLOUR,
    }
}

} // verus!
