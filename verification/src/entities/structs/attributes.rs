//! The five-field capability profile and its tagged mutations.

use crate::util::random::{
    clamped, lemma_whole_part_within, random_range, RangeLimit, Scalar,
};
use crate::util::text::{decimal, decimal_text};
use vstd::prelude::*;

verus! {

/// Names one attribute and carries a magnitude for it.
#[derive(Clone, Copy, Debug, PartialEq, Eq, Structural)]
pub enum EntityAttribute {
    Intelligence(u8),
    Strength(u8),
    Charisma(u8),
    Luck(u8),
    Combat(u8),
}

impl EntityAttribute {
    /// The magnitude carried by the tag.
    pub open spec fn magnitude(self) -> u8 {
        match self {
            EntityAttribute::Intelligence(v) => v,
            EntityAttribute::Strength(v) => v,
            EntityAttribute::Charisma(v) => v,
            EntityAttribute::Luck(v) => v,
            EntityAttribute::Combat(v) => v,
        }
    }
}

/// The capability profile of an entity.
#[derive(Clone, Copy, Debug, PartialEq, Eq, Structural)]
pub struct EntityAttributes {
    pub intelligence: u8,
    pub strength: u8,
    pub charisma: u8,
    pub luck: u8,
    pub combat: u8,
}

impl EntityAttributes {
    /// The value of the field that `attr` names.
    pub open spec fn field(self, attr: EntityAttribute) -> u8 {
        match attr {
            EntityAttribute::Intelligence(_) => self.intelligence,
            EntityAttribute::Strength(_) => self.strength,
            EntityAttribute::Charisma(_) => self.charisma,
            EntityAttribute::Luck(_) => self.luck,
            EntityAttribute::Combat(_) => self.combat,
        }
    }

    /// This profile with the field that `attr` names replaced by `value`.
    pub open spec fn with_field(self, attr: EntityAttribute, value: u8) -> Self {
        match attr {
            EntityAttribute::Intelligence(_) => EntityAttributes { intelligence: value, ..self },
            EntityAttribute::Strength(_) => EntityAttributes { strength: value, ..self },
            EntityAttribute::Charisma(_) => EntityAttributes { charisma: value, ..self },
            EntityAttribute::Luck(_) => EntityAttributes { luck: value, ..self },
            EntityAttribute::Combat(_) => EntityAttributes { combat: value, ..self },
        }
    }

    /// Every field lies in `[0, 5]`, as at generation.
    pub open spec fn is_initial(self) -> bool {
        &&& self.intelligence <= 5
        &&& self.strength <= 5
        &&& self.charisma <= 5
        &&& self.luck <= 5
        &&& self.combat <= 5
    }

    /// The profile whose fields are the whole parts of five points, in the
    /// order intelligence, strength, charisma, luck, combat.
    pub fn from_points(
        intelligence: Scalar,
        strength: Scalar,
        charisma: Scalar,
        luck: Scalar,
        combat: Scalar,
    ) -> (attributes: Self)
        requires
            intelligence.wf(),
            strength.wf(),
            charisma.wf(),
            luck.wf(),
            combat.wf(),
        ensures
            attributes == (EntityAttributes {
                intelligence: clamped(intelligence.truncated()),
                strength: clamped(strength.truncated()),
                charisma: clamped(charisma.truncated()),
                luck: clamped(luck.truncated()),
                combat: clamped(combat.truncated()),
            }),
    {
        EntityAttributes {
            intelligence: intelligence.to_u8(),
            strength: strength.to_u8(),
            charisma: charisma.to_u8(),
            luck: luck.to_u8(),
            combat: combat.to_u8(),
        }
    }

    /// Generates a profile: each field is drawn on its own from the range
    /// 0 to 5 and cut to its whole part, so that the profile is the one that
    /// five readings of the clock give. `None` where the random source has
    /// no clock to read.
    pub fn initial_stats() -> (attributes: Option<Self>)
        ensures
            attributes matches Some(a) ==> a.is_initial() && exists|readings: Seq<u128>|
                readings.len() == 5 && a == #[trigger] EntityAttributes::generated(readings),
    {
        let low = RangeLimit::Included(0);
        let high = RangeLimit::Included(5);
        let intelligence = random_range(low, high)?;
        let strength = random_range(low, high)?;
        let charisma = random_range(low, high)?;
        let luck = random_range(low, high)?;
        let combat = random_range(low, high)?;
        proof {
            lemma_whole_part_within(intelligence, 0, 5);
            lemma_whole_part_within(strength, 0, 5);
            lemma_whole_part_within(charisma, 0, 5);
            lemma_whole_part_within(luck, 0, 5);
            lemma_whole_part_within(combat, 0, 5);
            let first = choose|nanos: u128|
                intelligence == (#[trigger] Scalar::of_clock(nanos)).between(0, 5);
            let second = choose|nanos: u128|
                strength == (#[trigger] Scalar::of_clock(nanos)).between(0, 5);
            let third = choose|nanos: u128|
                charisma == (#[trigger] Scalar::of_clock(nanos)).between(0, 5);
            let fourth = choose|nanos: u128|
                luck == (#[trigger] Scalar::of_clock(nanos)).between(0, 5);
            let fifth = choose|nanos: u128|
                combat == (#[trigger] Scalar::of_clock(nanos)).between(0, 5);
            let readings = seq![first, second, third, fourth, fifth];
            assert(EntityAttributes::generated(readings) == (EntityAttributes {
                intelligence: clamped(intelligence.truncated()),
                strength: clamped(strength.truncated()),
                charisma: clamped(charisma.truncated()),
                luck: clamped(luck.truncated()),
                combat: clamped(combat.truncated()),
            }));
        }
        Some(Self::from_points(intelligence, strength, charisma, luck, combat))
    }

    /// The value of a field at generation for a clock reading of `nanos`
    /// nanoseconds: the whole part of the point that the reading's scalar
    /// picks between 0 and 5.
    pub open spec fn drawn(nanos: u128) -> u8 {
        clamped(Scalar::of_clock(nanos).between(0, 5).truncated())
    }

    /// The profile that five clock readings give at generation, one for
    /// each field, in the order intelligence, strength, charisma, luck,
    /// combat.
    pub open spec fn generated(readings: Seq<u128>) -> Self {
        EntityAttributes {
            intelligence: Self::drawn(readings[0]),
            strength: Self::drawn(readings[1]),
            charisma: Self::drawn(readings[2]),
            luck: Self::drawn(readings[3]),
            combat: Self::drawn(readings[4]),
        }
    }

    /// The summary of the profile: one line for each attribute, in the order
    /// intelligence, strength, charisma, luck, combat.
    pub open spec fn formatted(self) -> Seq<char> {
        "Intelligence: "@ + decimal_text(self.intelligence as nat) + "\nStrength: "@
            + decimal_text(self.strength as nat) + "\nCharisma: "@ + decimal_text(
            self.charisma as nat,
        ) + "\nLuck: "@ + decimal_text(self.luck as nat) + "\nCombat: "@ + decimal_text(
            self.combat as nat,
        )
    }

    /// Renders the summary of the profile.
    pub fn get_formatted(&self) -> (text: String)
        ensures
            text@ == self.formatted(),
    {
        let mut text = String::from_str("Intelligence: ");
        text.append(decimal(self.intelligence as u64).as_str());
        text.append("\nStrength: ");
        text.append(decimal(self.strength as u64).as_str());
        text.append("\nCharisma: ");
        text.append(decimal(self.charisma as u64).as_str());
        text.append("\nLuck: ");
        text.append(decimal(self.luck as u64).as_str());
        text.append("\nCombat: ");
        text.append(decimal(self.combat as u64).as_str());
        text
    }

    /// Reads the field that `attr` names; the magnitude in `attr` is ignored.
    pub fn get_attribute(&self, attr: EntityAttribute) -> (value: &u8)
        ensures
            *value == self.field(attr),
    {
        match attr {
            EntityAttribute::Intelligence(_) => &self.intelligence,
            EntityAttribute::Strength(_) => &self.strength,
            EntityAttribute::Charisma(_) => &self.charisma,
            EntityAttribute::Luck(_) => &self.luck,
            EntityAttribute::Combat(_) => &self.combat,
        }
    }

    /// Hands out the field that `attr` names for writing; whatever the caller
    /// leaves in it becomes that field, and no other field changes.
    pub fn get_attribute_mut(&mut self, attr: EntityAttribute) -> (value: &mut u8)
        ensures
            *value == old(self).field(attr),
            *final(self) == old(self).with_field(attr, *final(value)),
    {
        match attr {
            EntityAttribute::Intelligence(_) => &mut self.intelligence,
            EntityAttribute::Strength(_) => &mut self.strength,
            EntityAttribute::Charisma(_) => &mut self.charisma,
            EntityAttribute::Luck(_) => &mut self.luck,
            EntityAttribute::Combat(_) => &mut self.combat,
        }
    }

    /// Overwrites the field that `attr` names with the magnitude it carries.
    pub fn set_attribute(&mut self, attr: EntityAttribute)
        ensures
            *final(self) == old(self).with_field(attr, attr.magnitude()),
    {
        match attr {
            EntityAttribute::Intelligence(value) => self.intelligence = value,
            EntityAttribute::Strength(value) => self.strength = value,
            EntityAttribute::Charisma(value) => self.charisma = value,
            EntityAttribute::Luck(value) => self.luck = value,
            EntityAttribute::Combat(value) => self.combat = value,
        }
    }

    /// Raises the field that `attr` names by the magnitude it carries and
    /// stores the sum, held at the ceiling 255 where it would pass it.
    pub fn add_attribute(&mut self, attr: EntityAttribute)
        ensures
            *final(self) == old(self).with_field(
                attr,
                clamped(old(self).field(attr) + attr.magnitude()),
            ),
            old(self).field(attr) + attr.magnitude() >= 255 ==> final(self).field(attr) == 255,
            old(self).field(attr) + attr.magnitude() <= 255 ==> final(self).field(attr) == old(
                self,
            ).field(attr) + attr.magnitude(),
    {
        match attr {
            EntityAttribute::Intelligence(value) => {
                self.intelligence = self.intelligence.saturating_add(value)
            },
            EntityAttribute::Strength(value) => self.strength = self.strength.saturating_add(value),
            EntityAttribute::Charisma(value) => self.charisma = self.charisma.saturating_add(value),
            EntityAttribute::Luck(value) => self.luck = self.luck.saturating_add(value),
            EntityAttribute::Combat(value) => self.combat = self.combat.saturating_add(value),
        }
    }

    /// Lowers the field that `attr` names by the magnitude it carries and
    /// stores the difference, held at the floor 0 where it would fall below.
    pub fn sub_attribute(&mut self, attr: EntityAttribute)
        ensures
            *final(self) == old(self).with_field(
                attr,
                clamped(old(self).field(attr) - attr.magnitude()),
            ),
            old(self).field(attr) <= attr.magnitude() ==> final(self).field(attr) == 0,
    {
        match attr {
            EntityAttribute::Intelligence(value) => {
                self.intelligence = self.intelligence.saturating_sub(value)
            },
            EntityAttribute::Strength(value) => self.strength = self.strength.saturating_sub(value),
            EntityAttribute::Charisma(value) => self.charisma = self.charisma.saturating_sub(value),
            EntityAttribute::Luck(value) => self.luck = self.luck.saturating_sub(value),
            EntityAttribute::Combat(value) => self.combat = self.combat.saturating_sub(value),
        }
    }
}

impl Default for EntityAttributes {
    fn default() -> (attributes: Self)
        ensures
            attributes == (EntityAttributes {
                intelligence: 0,
                strength: 0,
                charisma: 0,
                luck: 0,
                combat: 0,
            }),
    {
        EntityAttributes { intelligence: 0, strength: 0, charisma: 0, luck: 0, combat: 0 }
    }
}

} // verus!
