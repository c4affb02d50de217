//! The simulated entities and the records they are made of.

use vstd::prelude::*;

pub mod codec;
pub mod human;
pub mod player;
pub mod structs;

pub use human::{Emotion, Gender, Human, HumanView, Item, NameSource, Relationship};
pub use player::{MenuEffect, Player};
pub use structs::attributes::{EntityAttribute, EntityAttributes};
pub use structs::stats::{EntityStat, EntityStats};

verus! {

/// The kinds of entity the world knows.
#[derive(Clone, Copy, Debug, PartialEq, Eq, Structural)]
pub enum EntityType {
    Human,
}

/// Something that can describe itself for a save file.
pub trait Entity {
    fn get_entity_save_data(&self) -> String;
}

} // verus!
