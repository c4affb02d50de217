//! The four-field survival profile. A stat is a single-precision scalar; the
//! library carries it as its IEEE-754 bit pattern and never computes on it.

use vstd::prelude::*;

verus! {

/// The bit pattern of the scalar 0.
pub const ZERO: u32 = 0;

/// The bit pattern of the scalar 1.
pub const ONE: u32 = 0x3F80_0000;

/// The bit pattern of the scalar 100.
pub const HUNDRED: u32 = 0x42C8_0000;

/// Names one survival stat and carries a magnitude for it.
#[derive(Clone, Copy, Debug, PartialEq, Eq, Structural)]
pub enum EntityStat {
    Thirst(u32),
    Hunger(u32),
    Energy(u32),
    Health(u32),
}

/// The survival profile of an entity.
#[derive(Clone, Copy, Debug, PartialEq, Eq, Structural)]
pub struct EntityStats {
    pub thirst: u32,
    pub hunger: u32,
    pub energy: u32,
    pub health: u32,
}

impl Default for EntityStats {
    /// No thirst, no hunger, energy 1 and health 100.
    fn default() -> (stats: Self)
        ensures
            stats == EntityStats::initial(),
    {
        EntityStats { thirst: ZERO, hunger: ZERO, energy: ONE, health: HUNDRED }
    }
}

impl EntityStats {
    /// The profile that every entity starts with.
    pub open spec fn initial() -> Self {
        EntityStats { thirst: ZERO, hunger: ZERO, energy: ONE, health: HUNDRED }
    }

    /// The summary of a profile whose thirst, hunger and energy are written
    /// as `thirst`, `hunger` and `energy`: one line for each, in that order.
    pub open spec fn formatted(thirst: Seq<char>, hunger: Seq<char>, energy: Seq<char>) -> Seq<
        char,
    > {
        "Thirst: "@ + thirst + "\nHunger: "@ + hunger + "\nEnergy: "@ + energy
    }

    /// Renders the summary of a profile from its thirst, hunger and energy as
    /// the caller has written them out.
    pub fn get_formatted(thirst: &str, hunger: &str, energy: &str) -> (text: String)
        ensures
            text@ == Self::formatted(thirst@, hunger@, energy@),
    {
        let mut text = String::from_str("Thirst: ");
        text.append(thirst);
        text.append("\nHunger: ");
        text.append(hunger);
        text.append("\nEnergy: ");
        text.append(energy);
        text
    }
}

} // verus!
