//! The character: identity, capability and survival profiles, and the
//! placeholders for what a character owns, knows and feels.

use crate::entities::structs::attributes::EntityAttributes;
use crate::entities::structs::stats::EntityStats;
use crate::entities::EntityType;
use crate::util::random::{
    clamped, lemma_whole_part_within, random, random_range, seed_of, RangeLimit, Scalar,
};
use vstd::prelude::*;

verus! {

/// Something a character can own. Nothing is defined of it yet.
#[derive(Clone, Copy, Debug, PartialEq, Eq, Structural)]
pub struct Item;

/// A tie between two characters. Nothing is defined of it yet.
#[derive(Clone, Copy, Debug, PartialEq, Eq, Structural)]
pub struct Relationship;

/// A feeling and its intensity, a single-precision scalar carried as its
/// IEEE-754 bit pattern.
#[derive(Clone, Copy, Debug, PartialEq, Eq, Structural)]
pub enum Emotion {
    Happinness(u32),
    Anger(u32),
    Surprise(u32),
    Excitement(u32),
    Fear(u32),
    Disgust(u32),
    Neutral,
}

/// The gender of a character, which decides the list its first name is
/// drawn from.
#[derive(Clone, Copy, Debug, PartialEq, Eq, Structural)]
pub enum Gender {
    Male,
    Female,
}

/// The lists that names are drawn from. A list that could not be had is
/// empty.
#[derive(Clone, Debug, PartialEq, Eq)]
pub struct NameSource {
    pub male_first_names: Vec<String>,
    pub female_first_names: Vec<String>,
    pub last_names: Vec<String>,
}

/// The simulated person that the player controls.
#[derive(Clone, Debug, PartialEq, Eq)]
pub struct Human {
    /// Whether the character is undead. Nothing sets it yet.
    pub undead: bool,
    pub first_name: String,
    pub last_name: String,
    pub age: u8,
    pub gender: Gender,
    pub attributes: EntityAttributes,
    pub stats: EntityStats,
    pub inventory: Vec<Item>,
    pub relationships: Vec<Relationship>,
    pub current_location: String,
    pub mood: Vec<Emotion>,
    /// The kind of entity. A character is a human.
    pub entity_type: EntityType,
}

/// What a [`Human`] holds, as mathematical values.
pub struct HumanView {
    pub undead: bool,
    pub first_name: Seq<char>,
    pub last_name: Seq<char>,
    pub age: u8,
    pub gender: Gender,
    pub attributes: EntityAttributes,
    pub stats: EntityStats,
    pub inventory: Seq<Item>,
    pub relationships: Seq<Relationship>,
    pub current_location: Seq<char>,
    pub mood: Seq<Emotion>,
}

impl View for Human {
    type V = HumanView;

    open spec fn view(&self) -> HumanView {
        HumanView {
            undead: self.undead,
            first_name: self.first_name@,
            last_name: self.last_name@,
            age: self.age,
            gender: self.gender,
            attributes: self.attributes,
            stats: self.stats,
            inventory: self.inventory@,
            relationships: self.relationships@,
            current_location: self.current_location@,
            mood: self.mood@,
        }
    }
}

impl HumanView {
    /// A character as generation leaves it, but for what is drawn: alive,
    /// with the starting survival profile, owning nothing, knowing nobody,
    /// nowhere, and feeling nothing.
    pub open spec fn fresh(
        gender: Gender,
        age: u8,
        attributes: EntityAttributes,
        first_name: Seq<char>,
        last_name: Seq<char>,
    ) -> HumanView {
        HumanView {
            undead: false,
            first_name,
            last_name,
            age,
            gender,
            attributes,
            stats: EntityStats::initial(),
            inventory: Seq::empty(),
            relationships: Seq::empty(),
            current_location: Seq::empty(),
            mood: Seq::empty(),
        }
    }

    /// The name as it is shown: first name, a space, last name.
    pub open spec fn name_formatted(self) -> Seq<char> {
        self.first_name + " "@ + self.last_name
    }

    /// The character that nine clock readings give at generation from
    /// `names`. The first reading decides the gender, the second the age
    /// between 17 and 30, the next five the capability profile, the eighth
    /// the first name from the list for the gender, and the ninth the last
    /// name.
    pub open spec fn generated(names: NameSource, readings: Seq<u128>) -> HumanView {
        let gender = Gender::of_draw(Scalar::of_clock(readings[0]));
        HumanView::fresh(
            gender,
            clamped(Scalar::of_clock(readings[1]).between(17, 30).truncated()),
            EntityAttributes::generated(readings.subrange(2, 7)),
            picked_name(names.first_names_for(gender), Scalar::of_clock(readings[7])),
            picked_name(names.last_names@, Scalar::of_clock(readings[8])),
        )
    }
}

impl Gender {
    /// The gender that a uniform draw decides: male from one half up.
    pub open spec fn of_draw(draw: Scalar) -> Gender {
        if 2 * draw.numerator >= draw.denominator {
            Gender::Male
        } else {
            Gender::Female
        }
    }

    /// Decides a gender by a uniform draw: male from one half up.
    pub fn from_draw(draw: Scalar) -> (gender: Gender)
        requires
            draw.wf(),
            draw.is_unit(),
        ensures
            gender == Gender::of_draw(draw),
    {
        if draw.at_least_half() {
            Gender::Male
        } else {
            Gender::Female
        }
    }
}

impl NameSource {
    /// The list of first names for `gender`.
    pub open spec fn first_names_for(self, gender: Gender) -> Seq<String> {
        match gender {
            Gender::Male => self.male_first_names@,
            Gender::Female => self.female_first_names@,
        }
    }

    /// The list of first names for `gender`.
    pub fn first_names(&self, gender: &Gender) -> (names: &Vec<String>)
        ensures
            names@ == self.first_names_for(*gender),
    {
        match gender {
            Gender::Male => &self.male_first_names,
            Gender::Female => &self.female_first_names,
        }
    }
}

/// The name that `draw` picks from `names`: the entry at the whole part of
/// `draw * len`, and the empty name where the list is empty.
pub open spec fn picked_name(names: Seq<String>, draw: Scalar) -> Seq<char> {
    let index = draw.scaled(names.len());
    if index < names.len() {
        names[index as int]@
    } else {
        Seq::empty()
    }
}

/// Whether `name` is an entry of `names`, or empty where `names` has no
/// entry.
pub open spec fn name_from(names: Seq<String>, name: Seq<char>) -> bool {
    if names.len() == 0 {
        name == Seq::<char>::empty()
    } else {
        exists|i: int| 0 <= i < names.len() && name == (#[trigger] names[i])@
    }
}

/// Picks the name that `draw` falls on in `names`. An empty list gives the
/// empty name.
pub fn pick_name(names: &Vec<String>, draw: Scalar) -> (name: String)
    requires
        draw.wf(),
        draw.is_unit(),
    ensures
        name@ == picked_name(names@, draw),
        name_from(names@, name@),
{
    let index = draw.index_into(names.len());
    if index < names.len() {
        names[index].clone()
    } else {
        String::new()
    }
}

/// Draws a first name for `gender` from `names`: the name that the scalar
/// of the clock's reading picks in the list for the gender. An empty list
/// gives the empty name without a look at the clock, so that a name source
/// that could not be had never stands in the way. `None` where the list has
/// entries and the random source has no clock to read.
pub fn get_random_first_name(gender: &Gender, names: &NameSource) -> (name: Option<String>)
    ensures
        names.first_names_for(*gender).len() == 0 ==> name is Some && name->Some_0@ == Seq::<
            char,
        >::empty(),
        name matches Some(n) ==> name_from(names.first_names_for(*gender), n@) && exists|
            nanos: u128,
        |
            n@ == picked_name(names.first_names_for(*gender), #[trigger] Scalar::of_clock(nanos)),
{
    let list = names.first_names(gender);
    if list.len() == 0 {
        assert(picked_name(list@, Scalar::of_clock(0)) == Seq::<char>::empty());
        return Some(String::new());
    }
    let draw = random()?;
    let name = pick_name(list, draw);
    proof {
        let nanos = choose|nanos: u128| draw == Scalar::of_seed(#[trigger] seed_of(nanos));
        assert(name@ == picked_name(list@, Scalar::of_clock(nanos)));
    }
    Some(name)
}

/// Draws a last name from `names`: the name that the scalar of the clock's
/// reading picks in the list of last names. An empty list gives the empty
/// name without a look at the clock. `None` where the list has entries and
/// the random source has no clock to read.
pub fn get_random_last_name(names: &NameSource) -> (name: Option<String>)
    ensures
        names.last_names@.len() == 0 ==> name is Some && name->Some_0@ == Seq::<
            char,
        >::empty(),
        name matches Some(n) ==> name_from(names.last_names@, n@) && exists|nanos: u128|
            n@ == picked_name(names.last_names@, #[trigger] Scalar::of_clock(nanos)),
{
    if names.last_names.len() == 0 {
        assert(picked_name(names.last_names@, Scalar::of_clock(0)) == Seq::<char>::empty());
        return Some(String::new());
    }
    let draw = random()?;
    let name = pick_name(&names.last_names, draw);
    proof {
        let nanos = choose|nanos: u128| draw == Scalar::of_seed(#[trigger] seed_of(nanos));
        assert(name@ == picked_name(names.last_names@, Scalar::of_clock(nanos)));
    }
    Some(name)
}

impl Human {
    /// The character as generation leaves it for the given identity and
    /// capability profile.
    pub fn fresh(
        gender: Gender,
        age: u8,
        attributes: EntityAttributes,
        first_name: String,
        last_name: String,
    ) -> (human: Human)
        ensures
            human@ == HumanView::fresh(gender, age, attributes, first_name@, last_name@),
    {
        Human {
            age,
            attributes,
            current_location: String::new(),
            entity_type: EntityType::Human,
            first_name,
            gender,
            inventory: Vec::new(),
            last_name,
            mood: Vec::new(),
            relationships: Vec::new(),
            stats: EntityStats::default(),
            undead: false,
        }
    }

    /// Generates a character: gender by a coin flip, age from 17 to 30, a
    /// generated capability profile, and names drawn from `names`, the first
    /// name from the list for the gender. The character is the one that nine
    /// readings of the clock give. `None` where the random source has no
    /// clock to read.
    pub fn new(names: &NameSource) -> (human: Option<Human>)
        ensures
            human matches Some(h) ==> {
                &&& 17 <= h@.age <= 30
                &&& h@.attributes.is_initial()
                &&& name_from(names.first_names_for(h@.gender), h@.first_name)
                &&& name_from(names.last_names@, h@.last_name)
                &&& h@ == HumanView::fresh(
                    h@.gender,
                    h@.age,
                    h@.attributes,
                    h@.first_name,
                    h@.last_name,
                )
                &&& exists|readings: Seq<u128>|
                    readings.len() == 9 && h@ == #[trigger] HumanView::generated(*names, readings)
            },
    {
        let coin = random()?;
        let gender = Gender::from_draw(coin);
        let age_point = random_range(RangeLimit::Included(17), RangeLimit::Included(30))?;
        proof {
            lemma_whole_part_within(age_point, 17, 30);
        }
        let age = age_point.to_u8();
        let attributes = EntityAttributes::initial_stats()?;
        let first_name = get_random_first_name(&gender, names)?;
        let last_name = get_random_last_name(names)?;
        proof {
            let first = choose|nanos: u128| coin == Scalar::of_seed(#[trigger] seed_of(nanos));
            let second = choose|nanos: u128|
                age_point == (#[trigger] Scalar::of_clock(nanos)).between(17, 30);
            let profile = choose|readings: Seq<u128>|
                readings.len() == 5 && attributes == #[trigger] EntityAttributes::generated(
                    readings,
                );
            let eighth = choose|nanos: u128|
                first_name@ == picked_name(
                    names.first_names_for(gender),
                    #[trigger] Scalar::of_clock(nanos),
                );
            let ninth = choose|nanos: u128|
                last_name@ == picked_name(names.last_names@, #[trigger] Scalar::of_clock(nanos));
            let readings = seq![first, second] + profile + seq![eighth, ninth];
            assert(readings.subrange(2, 7) =~= profile);
            assert(HumanView::generated(*names, readings) == HumanView::fresh(
                gender,
                age,
                attributes,
                first_name@,
                last_name@,
            ));
        }
        Some(Human::fresh(gender, age, attributes, first_name, last_name))
    }

    /// Replaces the first name and hands the character back, so that calls
    /// can be chained.
    pub fn set_first_name(&mut self, name: &str) -> (human: &mut Self)
        ensures
            human@ == (HumanView { first_name: name@, ..old(self)@ }),
            *final(self) == *final(human),
    {
        self.first_name = String::from_str(name);
        self
    }

    /// Replaces the last name and hands the character back, so that calls
    /// can be chained.
    pub fn set_last_name(&mut self, name: &str) -> (human: &mut Self)
        ensures
            human@ == (HumanView { last_name: name@, ..old(self)@ }),
            *final(self) == *final(human),
    {
        self.last_name = String::from_str(name);
        self
    }

    /// Replaces the age and hands the character back, so that calls can be
    /// chained.
    pub fn set_age(&mut self, age: u8) -> (human: &mut Self)
        ensures
            human@ == (HumanView { age, ..old(self)@ }),
            *final(self) == *final(human),
    {
        self.age = age;
        self
    }

    /// The name as it is shown: first name, a space, last name.
    pub fn get_name_formatted(&self) -> (text: String)
        ensures
            text@ == self@.name_formatted(),
    {
        let mut text = self.first_name.clone();
        text.append(" ");
        text.append(self.last_name.as_str());
        text
    }

    /// The summary of the capability profile.
    pub fn get_attributes_formatted(&self) -> (text: String)
        ensures
            text@ == self@.attributes.formatted(),
    {
        self.attributes.get_formatted()
    }

    /// The summary of the survival profile, whose thirst, hunger and energy
    /// the caller has written out as `thirst`, `hunger` and `energy`.
    pub fn get_stats_formatted(&self, thirst: &str, hunger: &str, energy: &str) -> (text: String)
        ensures
            text@ == EntityStats::formatted(thirst@, hunger@, energy@),
    {
        EntityStats::get_formatted(thirst, hunger, energy)
    }
}

} // verus!
