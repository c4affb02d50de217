//! How a character lies in a snapshot: its fields one behind the other, in
//! the order in which the record declares them.

use crate::entities::human::{Emotion, Gender, Human, HumanView, Item, Relationship};
use crate::entities::structs::attributes::EntityAttributes;
use crate::entities::structs::stats::EntityStats;
use crate::entities::EntityType;
use crate::util::snapshot::{
    byte_at_front, byte_image, lemma_byte_round_trip, lemma_long_round_trip,
    lemma_text_round_trip, lemma_word_round_trip, long_at_front, long_image, put_byte, put_long,
    put_text, put_word, take_byte, take_long, take_text, take_word, text_at_front, text_image,
    word_at_front, word_image, SnapshotError,
};
use vstd::prelude::*;
use vstd::utf8::encode_utf8;

verus! {

/// The bytes of a flag: one byte, 1 for a flag that is set and 0 for one
/// that is not.
pub open spec fn flag_image(flag: bool) -> Seq<u8> {
    byte_image(
        if flag {
            1u8
        } else {
            0u8
        },
    )
}

/// The flag at the front of `bytes` and what follows it.
pub open spec fn flag_at_front(bytes: Seq<u8>) -> Option<(bool, Seq<u8>)> {
    match byte_at_front(bytes) {
        Some((value, rest)) => if value == 0 {
            Some((false, rest))
        } else if value == 1 {
            Some((true, rest))
        } else {
            None
        },
        None => None,
    }
}

impl Gender {
    /// The number that marks the gender in a snapshot.
    pub open spec fn tag(self) -> u32 {
        match self {
            Gender::Male => 0,
            Gender::Female => 1,
        }
    }

    /// The bytes of the gender: its tag as a 32-bit word.
    pub open spec fn image(self) -> Seq<u8> {
        word_image(self.tag())
    }

    /// The gender at the front of `bytes` and what follows it.
    pub open spec fn at_front(bytes: Seq<u8>) -> Option<(Gender, Seq<u8>)> {
        match word_at_front(bytes) {
            Some((tag, rest)) => if tag == 0 {
                Some((Gender::Male, rest))
            } else if tag == 1 {
                Some((Gender::Female, rest))
            } else {
                None
            },
            None => None,
        }
    }
}

impl EntityAttributes {
    /// The bytes of the profile: one byte for each attribute, in the order
    /// intelligence, strength, charisma, luck, combat.
    pub open spec fn image(self) -> Seq<u8> {
        byte_image(self.intelligence) + byte_image(self.strength) + byte_image(self.charisma)
            + byte_image(self.luck) + byte_image(self.combat)
    }

    /// The profile at the front of `bytes` and what follows it.
    pub open spec fn at_front(bytes: Seq<u8>) -> Option<(EntityAttributes, Seq<u8>)> {
        if bytes.len() >= 5 {
            Some(
                (
                    EntityAttributes {
                        intelligence: bytes[0],
                        strength: bytes[1],
                        charisma: bytes[2],
                        luck: bytes[3],
                        combat: bytes[4],
                    },
                    bytes.skip(5),
                ),
            )
        } else {
            None
        }
    }
}

impl EntityStats {
    /// The bytes of the profile: one 32-bit word for each stat, in the order
    /// thirst, hunger, energy, health.
    pub open spec fn image(self) -> Seq<u8> {
        word_image(self.thirst) + word_image(self.hunger) + word_image(self.energy) + word_image(
            self.health,
        )
    }

    /// The profile at the front of `bytes` and what follows it.
    pub open spec fn at_front(bytes: Seq<u8>) -> Option<(EntityStats, Seq<u8>)> {
        match word_at_front(bytes) {
            Some((thirst, rest)) => match word_at_front(rest) {
                Some((hunger, rest)) => match word_at_front(rest) {
                    Some((energy, rest)) => match word_at_front(rest) {
                        Some((health, rest)) => Some(
                            (EntityStats { thirst, hunger, energy, health }, rest),
                        ),
                        None => None,
                    },
                    None => None,
                },
                None => None,
            },
            None => None,
        }
    }
}

impl Emotion {
    /// The number that marks the feeling in a snapshot.
    pub open spec fn tag(self) -> u32 {
        match self {
            Emotion::Happinness(_) => 0,
            Emotion::Anger(_) => 1,
            Emotion::Surprise(_) => 2,
            Emotion::Excitement(_) => 3,
            Emotion::Fear(_) => 4,
            Emotion::Disgust(_) => 5,
            Emotion::Neutral => 6,
        }
    }

    /// The intensity of the feeling, where it has one.
    pub open spec fn intensity(self) -> Option<u32> {
        match self {
            Emotion::Happinness(v) => Some(v),
            Emotion::Anger(v) => Some(v),
            Emotion::Surprise(v) => Some(v),
            Emotion::Excitement(v) => Some(v),
            Emotion::Fear(v) => Some(v),
            Emotion::Disgust(v) => Some(v),
            Emotion::Neutral => None,
        }
    }

    /// The feeling that `tag` marks, with `intensity` where it has one.
    pub open spec fn of_tag(tag: u32, intensity: u32) -> Emotion {
        if tag == 0 {
            Emotion::Happinness(intensity)
        } else if tag == 1 {
            Emotion::Anger(intensity)
        } else if tag == 2 {
            Emotion::Surprise(intensity)
        } else if tag == 3 {
            Emotion::Excitement(intensity)
        } else if tag == 4 {
            Emotion::Fear(intensity)
        } else if tag == 5 {
            Emotion::Disgust(intensity)
        } else {
            Emotion::Neutral
        }
    }

    /// The bytes of the feeling: its tag as a 32-bit word, then its
    /// intensity as one, where it has one.
    pub open spec fn image(self) -> Seq<u8> {
        match self.intensity() {
            Some(v) => word_image(self.tag()) + word_image(v),
            None => word_image(self.tag()),
        }
    }

    /// The feeling at the front of `bytes` and what follows it.
    pub open spec fn at_front(bytes: Seq<u8>) -> Option<(Emotion, Seq<u8>)> {
        match word_at_front(bytes) {
            Some((tag, rest)) => if tag < 6 {
                match word_at_front(rest) {
                    Some((intensity, rest)) => Some((Emotion::of_tag(tag, intensity), rest)),
                    None => None,
                }
            } else if tag == 6 {
                Some((Emotion::Neutral, rest))
            } else {
                None
            },
            None => None,
        }
    }
}

/// The bytes of a run of feelings: one feeling behind the other.
pub open spec fn emotions_image(mood: Seq<Emotion>) -> Seq<u8>
    decreases mood.len(),
{
    if mood.len() == 0 {
        Seq::empty()
    } else {
        mood[0].image() + emotions_image(mood.drop_first())
    }
}

/// The `count` feelings at the front of `bytes` and what follows them.
pub open spec fn emotions_at_front(bytes: Seq<u8>, count: nat) -> Option<(Seq<Emotion>, Seq<u8>)>
    decreases count,
{
    if count == 0 {
        Some((Seq::empty(), bytes))
    } else {
        match Emotion::at_front(bytes) {
            Some((first, rest)) => match emotions_at_front(rest, (count - 1) as nat) {
                Some((others, rest)) => Some((seq![first] + others, rest)),
                None => None,
            },
            None => None,
        }
    }
}

/// The bytes of a mood: the number of its feelings as a 64-bit word, then
/// the feelings.
pub open spec fn mood_image(mood: Seq<Emotion>) -> Seq<u8> {
    long_image(mood.len() as u64) + emotions_image(mood)
}

/// The mood at the front of `bytes` and what follows it.
pub open spec fn mood_at_front(bytes: Seq<u8>) -> Option<(Seq<Emotion>, Seq<u8>)> {
    match long_at_front(bytes) {
        Some((count, rest)) => emotions_at_front(rest, count as nat),
        None => None,
    }
}

/// The number at the front of `bytes` that counts the entries of a list,
/// and what follows it. A list holds no more than `usize::MAX` entries.
pub open spec fn count_at_front(bytes: Seq<u8>) -> Option<(nat, Seq<u8>)> {
    match long_at_front(bytes) {
        Some((count, rest)) => if count <= usize::MAX {
            Some((count as nat, rest))
        } else {
            None
        },
        None => None,
    }
}

/// The bytes that mark the kind of a character: the tag 0 as a 32-bit word.
pub open spec fn kind_image() -> Seq<u8> {
    word_image(0)
}

/// What follows the mark of a character's kind at the front of `bytes`.
pub open spec fn kind_at_front(bytes: Seq<u8>) -> Option<Seq<u8>> {
    match word_at_front(bytes) {
        Some((tag, rest)) => if tag == 0 {
            Some(rest)
        } else {
            None
        },
        None => None,
    }
}

impl HumanView {
    /// Every text and every list is short enough for its length to be
    /// written down and read again.
    pub open spec fn storable(self) -> bool {
        &&& encode_utf8(self.first_name).len() <= u64::MAX
        &&& encode_utf8(self.last_name).len() <= u64::MAX
        &&& encode_utf8(self.current_location).len() <= u64::MAX
        &&& self.inventory.len() <= usize::MAX
        &&& self.relationships.len() <= usize::MAX
        &&& self.mood.len() <= u64::MAX
    }

    /// What stands in a snapshot from the inventory on: the number of items,
    /// the number of relationships, the location, the mood, and the mark of
    /// the character's kind.
    pub open spec fn tail_image(self) -> Seq<u8> {
        long_image(self.inventory.len() as u64) + long_image(self.relationships.len() as u64)
            + text_image(self.current_location) + mood_image(self.mood) + kind_image()
    }

    /// What stands in a snapshot before the inventory: the undead flag, the
    /// two names, the age, the gender, and the two profiles.
    pub open spec fn head_image(self) -> Seq<u8> {
        flag_image(self.undead) + text_image(self.first_name) + text_image(self.last_name)
            + byte_image(self.age) + self.gender.image() + self.attributes.image()
            + self.stats.image()
    }

    /// The bytes of the character in a snapshot: its fields in the order in
    /// which the record declares them.
    pub open spec fn image(self) -> Seq<u8> {
        self.head_image() + self.tail_image()
    }

    /// The fields before the inventory at the front of `bytes`, as a
    /// character that owns nothing, knows nobody, is nowhere and feels
    /// nothing, and what follows them.
    pub open spec fn head_at_front(bytes: Seq<u8>) -> Option<(HumanView, Seq<u8>)> {
        match flag_at_front(bytes) {
            Some((undead, rest)) => match text_at_front(rest) {
                Some((first_name, rest)) => match text_at_front(rest) {
                    Some((last_name, rest)) => match byte_at_front(rest) {
                        Some((age, rest)) => match Gender::at_front(rest) {
                            Some((gender, rest)) => match EntityAttributes::at_front(rest) {
                                Some((attributes, rest)) => match EntityStats::at_front(rest) {
                                    Some((stats, rest)) => Some(
                                        (
                                            HumanView {
                                                undead,
                                                first_name,
                                                last_name,
                                                age,
                                                gender,
                                                attributes,
                                                stats,
                                                inventory: Seq::empty(),
                                                relationships: Seq::empty(),
                                                current_location: Seq::empty(),
                                                mood: Seq::empty(),
                                            },
                                            rest,
                                        ),
                                    ),
                                    None => None,
                                },
                                None => None,
                            },
                            None => None,
                        },
                        None => None,
                    },
                    None => None,
                },
                None => None,
            },
            None => None,
        }
    }

    /// The character at the front of `bytes` and what follows it.
    pub open spec fn at_front(bytes: Seq<u8>) -> Option<(HumanView, Seq<u8>)> {
        match HumanView::head_at_front(bytes) {
            Some((head, rest)) => HumanView::tail_at_front(head, rest),
            None => None,
        }
    }

    /// The character whose first fields are those of `head` and whose fields
    /// from the inventory on stand at the front of `bytes`, and what follows
    /// them.
    pub open spec fn tail_at_front(head: HumanView, bytes: Seq<u8>) -> Option<
        (HumanView, Seq<u8>),
    > {
        match count_at_front(bytes) {
            Some((items, rest)) => match count_at_front(rest) {
                Some((ties, rest)) => match text_at_front(rest) {
                    Some((current_location, rest)) => match mood_at_front(rest) {
                        Some((mood, rest)) => match kind_at_front(rest) {
                            Some(rest) => Some(
                                (
                                    HumanView {
                                        inventory: Seq::new(items, |i: int| Item),
                                        relationships: Seq::new(ties, |i: int| Relationship),
                                        current_location,
                                        mood,
                                        ..head
                                    },
                                    rest,
                                ),
                            ),
                            None => None,
                        },
                        None => None,
                    },
                    None => None,
                },
                None => None,
            },
            None => None,
        }
    }
}

/// A flag is read back as it was written.
pub proof fn lemma_flag_round_trip(flag: bool, rest: Seq<u8>)
    ensures
        flag_at_front(flag_image(flag) + rest) == Some((flag, rest)),
{
    lemma_byte_round_trip(
        if flag {
            1u8
        } else {
            0u8
        },
        rest,
    );
}

/// A gender is read back as it was written.
pub proof fn lemma_gender_round_trip(gender: Gender, rest: Seq<u8>)
    ensures
        Gender::at_front(gender.image() + rest) == Some((gender, rest)),
{
    lemma_word_round_trip(gender.tag(), rest);
}

/// A capability profile is read back as it was written.
pub proof fn lemma_attributes_round_trip(attributes: EntityAttributes, rest: Seq<u8>)
    ensures
        EntityAttributes::at_front(attributes.image() + rest) == Some((attributes, rest)),
        attributes.image().len() == 5,
{
    assert((attributes.image() + rest).skip(5) =~= rest);
}

/// A survival profile is read back as it was written.
pub proof fn lemma_stats_round_trip(stats: EntityStats, rest: Seq<u8>)
    ensures
        EntityStats::at_front(stats.image() + rest) == Some((stats, rest)),
{
    let r3 = word_image(stats.health) + rest;
    let r2 = word_image(stats.energy) + r3;
    let r1 = word_image(stats.hunger) + r2;
    lemma_word_round_trip(stats.thirst, r1);
    lemma_word_round_trip(stats.hunger, r2);
    lemma_word_round_trip(stats.energy, r3);
    lemma_word_round_trip(stats.health, rest);
    assert(stats.image() + rest =~= word_image(stats.thirst) + r1);
}

/// A feeling is read back as it was written.
pub proof fn lemma_emotion_round_trip(emotion: Emotion, rest: Seq<u8>)
    ensures
        Emotion::at_front(emotion.image() + rest) == Some((emotion, rest)),
{
    match emotion.intensity() {
        Some(v) => {
            lemma_word_round_trip(emotion.tag(), word_image(v) + rest);
            lemma_word_round_trip(v, rest);
            assert(emotion.image() + rest =~= word_image(emotion.tag()) + (word_image(v) + rest));
        },
        None => {
            lemma_word_round_trip(emotion.tag(), rest);
        },
    }
}

/// A run of feelings is read back as it was written.
pub proof fn lemma_emotions_round_trip(mood: Seq<Emotion>, rest: Seq<u8>)
    ensures
        emotions_at_front(emotions_image(mood) + rest, mood.len()) == Some((mood, rest)),
    decreases mood.len(),
{
    if mood.len() == 0 {
        assert(emotions_image(mood) + rest =~= rest);
        assert(mood =~= Seq::<Emotion>::empty());
    } else {
        let others = mood.drop_first();
        let inner = emotions_image(others) + rest;
        lemma_emotion_round_trip(mood[0], inner);
        lemma_emotions_round_trip(others, rest);
        assert(emotions_image(mood) + rest =~= mood[0].image() + inner);
        assert(seq![mood[0]] + others =~= mood);
    }
}

/// The bytes of two runs of feelings, one behind the other, are those of
/// the two runs joined.
pub proof fn lemma_emotions_image_joined(front: Seq<Emotion>, back: Seq<Emotion>)
    ensures
        emotions_image(front + back) == emotions_image(front) + emotions_image(back),
    decreases front.len(),
{
    if front.len() == 0 {
        assert(front + back =~= back);
        assert(emotions_image(front) + emotions_image(back) =~= emotions_image(back));
    } else {
        lemma_emotions_image_joined(front.drop_first(), back);
        assert((front + back).drop_first() =~= front.drop_first() + back);
        assert(emotions_image(front + back) =~= emotions_image(front) + emotions_image(back));
    }
}

/// A mood is read back as it was written.
pub proof fn lemma_mood_round_trip(mood: Seq<Emotion>, rest: Seq<u8>)
    requires
        mood.len() <= u64::MAX,
    ensures
        mood_at_front(mood_image(mood) + rest) == Some((mood, rest)),
{
    lemma_long_round_trip(mood.len() as u64, emotions_image(mood) + rest);
    lemma_emotions_round_trip(mood, rest);
    assert(mood_image(mood) + rest =~= long_image(mood.len() as u64) + (emotions_image(mood)
        + rest));
}

/// The number of entries of a list is read back as it was written.
pub proof fn lemma_count_round_trip(count: nat, rest: Seq<u8>)
    requires
        count <= usize::MAX,
    ensures
        count_at_front(long_image(count as u64) + rest) == Some((count, rest)),
{
    lemma_long_round_trip(count as u64, rest);
}

/// Joining runs of bytes does not depend on where the brackets stand.
proof fn lemma_joined(a: Seq<u8>, b: Seq<u8>, c: Seq<u8>)
    ensures
        (a + b) + c == a + (b + c),
{
    assert((a + b) + c =~= a + (b + c));
}

/// What stands in a snapshot from the inventory on, with `rest` behind it,
/// field by field from the back.
proof fn lemma_tail_image_nested(human: HumanView, rest: Seq<u8>)
    ensures
        human.tail_image() + rest == long_image(human.inventory.len() as u64) + (long_image(
            human.relationships.len() as u64,
        ) + (text_image(human.current_location) + (mood_image(human.mood) + (kind_image()
            + rest)))),
{
    let a = long_image(human.inventory.len() as u64);
    let b = long_image(human.relationships.len() as u64);
    let c = text_image(human.current_location);
    let d = mood_image(human.mood);
    let e = kind_image();
    lemma_joined(a + b + c + d, e, rest);
    lemma_joined(a + b + c, d, e + rest);
    lemma_joined(a + b, c, d + (e + rest));
    lemma_joined(a, b, c + (d + (e + rest)));
}

/// What stands in a snapshot before the inventory, with `rest` behind it,
/// field by field from the back.
proof fn lemma_head_image_nested(human: HumanView, rest: Seq<u8>)
    ensures
        human.head_image() + rest == flag_image(human.undead) + (text_image(human.first_name) + (
        text_image(human.last_name) + (byte_image(human.age) + (human.gender.image() + (
        human.attributes.image() + (human.stats.image() + rest)))))),
{
    let a = flag_image(human.undead);
    let b = text_image(human.first_name);
    let c = text_image(human.last_name);
    let d = byte_image(human.age);
    let e = human.gender.image();
    let f = human.attributes.image();
    let g = human.stats.image();
    lemma_joined(a + b + c + d + e + f, g, rest);
    lemma_joined(a + b + c + d + e, f, g + rest);
    lemma_joined(a + b + c + d, e, f + (g + rest));
    lemma_joined(a + b + c, d, e + (f + (g + rest)));
    lemma_joined(a + b, c, d + (e + (f + (g + rest))));
    lemma_joined(a, b, c + (d + (e + (f + (g + rest)))));
}

/// A run of placeholders is the run of as many placeholders.
proof fn lemma_placeholders(items: Seq<Item>, ties: Seq<Relationship>)
    ensures
        Seq::new(items.len(), |i: int| Item) == items,
        Seq::new(ties.len(), |i: int| Relationship) == ties,
{
    assert(Seq::new(items.len(), |i: int| Item) =~= items);
    assert(Seq::new(ties.len(), |i: int| Relationship) =~= ties);
}

/// What stands in a snapshot from the inventory on is read back as it was
/// written.
pub proof fn lemma_tail_round_trip(human: HumanView, head: HumanView, rest: Seq<u8>)
    requires
        human.storable(),
    ensures
        HumanView::tail_at_front(head, human.tail_image() + rest) == Some(
            (
                HumanView {
                    inventory: human.inventory,
                    relationships: human.relationships,
                    current_location: human.current_location,
                    mood: human.mood,
                    ..head
                },
                rest,
            ),
        ),
{
    let r4 = kind_image() + rest;
    let r3 = mood_image(human.mood) + r4;
    let r2 = text_image(human.current_location) + r3;
    let r1 = long_image(human.relationships.len() as u64) + r2;
    lemma_tail_image_nested(human, rest);
    lemma_count_round_trip(human.inventory.len(), r1);
    lemma_count_round_trip(human.relationships.len(), r2);
    lemma_text_round_trip(human.current_location, r3);
    lemma_mood_round_trip(human.mood, r4);
    lemma_word_round_trip(0, rest);
    lemma_placeholders(human.inventory, human.relationships);
}

/// What stands in a snapshot before the inventory is read back as it was
/// written.
pub proof fn lemma_head_round_trip(human: HumanView, rest: Seq<u8>)
    requires
        human.storable(),
    ensures
        HumanView::head_at_front(human.head_image() + rest) == Some(
            (
                HumanView {
                    inventory: Seq::empty(),
                    relationships: Seq::empty(),
                    current_location: Seq::empty(),
                    mood: Seq::empty(),
                    ..human
                },
                rest,
            ),
        ),
        human.head_image().len() > 0,
{
    let r6 = human.stats.image() + rest;
    let r5 = human.attributes.image() + r6;
    let r4 = human.gender.image() + r5;
    let r3 = byte_image(human.age) + r4;
    let r2 = text_image(human.last_name) + r3;
    let r1 = text_image(human.first_name) + r2;
    lemma_head_image_nested(human, rest);
    lemma_flag_round_trip(human.undead, r1);
    lemma_text_round_trip(human.first_name, r2);
    lemma_text_round_trip(human.last_name, r3);
    lemma_byte_round_trip(human.age, r4);
    lemma_gender_round_trip(human.gender, r5);
    lemma_attributes_round_trip(human.attributes, r6);
    lemma_stats_round_trip(human.stats, rest);
}

/// A character is read back from a snapshot as it was written, whatever
/// follows it there.
pub proof fn lemma_human_round_trip(human: HumanView, rest: Seq<u8>)
    requires
        human.storable(),
    ensures
        HumanView::at_front(human.image() + rest) == Some((human, rest)),
        human.image().len() > 0,
{
    let head = HumanView {
        inventory: Seq::empty(),
        relationships: Seq::empty(),
        current_location: Seq::empty(),
        mood: Seq::empty(),
        ..human
    };
    lemma_joined(human.head_image(), human.tail_image(), rest);
    lemma_head_round_trip(human, human.tail_image() + rest);
    lemma_tail_round_trip(human, head, rest);
}

impl Emotion {
    /// The tag of the feeling and its intensity, where it has one.
    pub fn parts(&self) -> (parts: (u32, Option<u32>))
        ensures
            parts == (self.tag(), self.intensity()),
    {
        match self {
            Emotion::Happinness(v) => (0, Some(*v)),
            Emotion::Anger(v) => (1, Some(*v)),
            Emotion::Surprise(v) => (2, Some(*v)),
            Emotion::Excitement(v) => (3, Some(*v)),
            Emotion::Fear(v) => (4, Some(*v)),
            Emotion::Disgust(v) => (5, Some(*v)),
            Emotion::Neutral => (6, None),
        }
    }

    /// The feeling that `tag` marks, with `intensity` where it has one.
    pub fn from_parts(tag: u32, intensity: u32) -> (emotion: Emotion)
        ensures
            emotion == Emotion::of_tag(tag, intensity),
    {
        if tag == 0 {
            Emotion::Happinness(intensity)
        } else if tag == 1 {
            Emotion::Anger(intensity)
        } else if tag == 2 {
            Emotion::Surprise(intensity)
        } else if tag == 3 {
            Emotion::Excitement(intensity)
        } else if tag == 4 {
            Emotion::Fear(intensity)
        } else if tag == 5 {
            Emotion::Disgust(intensity)
        } else {
            Emotion::Neutral
        }
    }
}

fn write_attributes(out: &mut Vec<u8>, attributes: &EntityAttributes)
    ensures
        final(out)@ == old(out)@ + attributes.image(),
{
    put_byte(out, attributes.intelligence);
    put_byte(out, attributes.strength);
    put_byte(out, attributes.charisma);
    put_byte(out, attributes.luck);
    put_byte(out, attributes.combat);
    assert(out@ =~= old(out)@ + attributes.image());
}

fn write_stats(out: &mut Vec<u8>, stats: &EntityStats)
    ensures
        final(out)@ == old(out)@ + stats.image(),
{
    put_word(out, stats.thirst);
    put_word(out, stats.hunger);
    put_word(out, stats.energy);
    put_word(out, stats.health);
    assert(out@ =~= old(out)@ + stats.image());
}

fn write_mood(out: &mut Vec<u8>, mood: &Vec<Emotion>)
    ensures
        final(out)@ == old(out)@ + mood_image(mood@),
{
    put_long(out, mood.len() as u64);
    let ghost head = out@;
    let mut i: usize = 0;
    assert(mood@.subrange(0, 0) =~= Seq::<Emotion>::empty());
    assert(head + emotions_image(Seq::<Emotion>::empty()) =~= head);
    while i < mood.len()
        invariant
            i <= mood@.len(),
            out@ == head + emotions_image(mood@.subrange(0, i as int)),
        decreases mood@.len() - i,
    {
        let (tag, intensity) = mood[i].parts();
        let ghost before = out@;
        put_word(out, tag);
        match intensity {
            Some(v) => {
                put_word(out, v);
            },
            None => {},
        }
        proof {
            let done = mood@.subrange(0, i as int);
            let one = seq![mood@[i as int]];
            assert(out@ =~= before + mood@[i as int].image());
            assert(one.drop_first() =~= Seq::<Emotion>::empty());
            assert(emotions_image(one) =~= mood@[i as int].image()) by {
                reveal_with_fuel(emotions_image, 2);
            }
            lemma_emotions_image_joined(done, one);
            assert(done + one =~= mood@.subrange(0, i + 1));
            assert(out@ =~= head + emotions_image(mood@.subrange(0, i + 1)));
        }
        i += 1;
    }
    assert(mood@.subrange(0, i as int) =~= mood@);
    assert(out@ =~= old(out)@ + mood_image(mood@));
}

fn write_head(out: &mut Vec<u8>, human: &Human)
    ensures
        final(out)@ == old(out)@ + human@.head_image(),
{
    let ghost view = human@;
    let ghost start = out@;
    put_byte(
        out,
        if human.undead {
            1
        } else {
            0
        },
    );
    let ghost a = flag_image(view.undead);
    put_text(out, human.first_name.as_str());
    let ghost b = a + text_image(view.first_name);
    proof {
        lemma_joined(start, a, text_image(view.first_name));
    }
    put_text(out, human.last_name.as_str());
    let ghost c = b + text_image(view.last_name);
    proof {
        lemma_joined(start, b, text_image(view.last_name));
    }
    put_byte(out, human.age);
    let ghost d = c + byte_image(view.age);
    proof {
        lemma_joined(start, c, byte_image(view.age));
    }
    put_word(
        out,
        match human.gender {
            Gender::Male => 0,
            Gender::Female => 1,
        },
    );
    let ghost e = d + view.gender.image();
    proof {
        lemma_joined(start, d, view.gender.image());
    }
    write_attributes(out, &human.attributes);
    let ghost f = e + view.attributes.image();
    proof {
        lemma_joined(start, e, view.attributes.image());
    }
    write_stats(out, &human.stats);
    proof {
        lemma_joined(start, f, view.stats.image());
    }
}

fn write_tail(out: &mut Vec<u8>, human: &Human)
    ensures
        final(out)@ == old(out)@ + human@.tail_image(),
{
    let ghost view = human@;
    let ghost start = out@;
    put_long(out, human.inventory.len() as u64);
    let ghost a = long_image(view.inventory.len() as u64);
    put_long(out, human.relationships.len() as u64);
    let ghost b = a + long_image(view.relationships.len() as u64);
    proof {
        lemma_joined(start, a, long_image(view.relationships.len() as u64));
    }
    put_text(out, human.current_location.as_str());
    let ghost c = b + text_image(view.current_location);
    proof {
        lemma_joined(start, b, text_image(view.current_location));
    }
    write_mood(out, &human.mood);
    let ghost d = c + mood_image(view.mood);
    proof {
        lemma_joined(start, c, mood_image(view.mood));
    }
    put_word(out, 0);
    proof {
        lemma_joined(start, d, kind_image());
    }
}

/// Appends the bytes of `human` to `out`.
pub(crate) fn write_human(out: &mut Vec<u8>, human: &Human)
    ensures
        final(out)@ == old(out)@ + human@.image(),
{
    write_head(out, human);
    write_tail(out, human);
    proof {
        lemma_joined(old(out)@, human@.head_image(), human@.tail_image());
    }
}

fn read_flag(bytes: &[u8], at: usize) -> (taken: Result<(bool, usize), SnapshotError>)
    requires
        at <= bytes@.len(),
    ensures
        match taken {
            Ok((flag, next)) => at <= next <= bytes@.len() && flag_at_front(bytes@.skip(at as int))
                == Some((flag, bytes@.skip(next as int))),
            Err(e) => e == SnapshotError::Decode && flag_at_front(bytes@.skip(at as int)) is None,
        },
{
    let (value, next) = take_byte(bytes, at)?;
    if value == 0 {
        Ok((false, next))
    } else if value == 1 {
        Ok((true, next))
    } else {
        Err(SnapshotError::Decode)
    }
}

fn read_gender(bytes: &[u8], at: usize) -> (taken: Result<(Gender, usize), SnapshotError>)
    requires
        at <= bytes@.len(),
    ensures
        match taken {
            Ok((gender, next)) => at <= next <= bytes@.len() && Gender::at_front(
                bytes@.skip(at as int),
            ) == Some((gender, bytes@.skip(next as int))),
            Err(e) => e == SnapshotError::Decode && Gender::at_front(bytes@.skip(at as int))
                is None,
        },
{
    let (tag, next) = take_word(bytes, at)?;
    if tag == 0 {
        Ok((Gender::Male, next))
    } else if tag == 1 {
        Ok((Gender::Female, next))
    } else {
        Err(SnapshotError::Decode)
    }
}

fn read_attributes(bytes: &[u8], at: usize) -> (taken: Result<
    (EntityAttributes, usize),
    SnapshotError,
>)
    requires
        at <= bytes@.len(),
    ensures
        match taken {
            Ok((attributes, next)) => at <= next <= bytes@.len() && EntityAttributes::at_front(
                bytes@.skip(at as int),
            ) == Some((attributes, bytes@.skip(next as int))),
            Err(e) => e == SnapshotError::Decode && EntityAttributes::at_front(
                bytes@.skip(at as int),
            ) is None,
        },
{
    let (intelligence, next) = take_byte(bytes, at)?;
    let (strength, next) = take_byte(bytes, next)?;
    let (charisma, next) = take_byte(bytes, next)?;
    let (luck, next) = take_byte(bytes, next)?;
    let (combat, next) = take_byte(bytes, next)?;
    assert(bytes@.skip(at as int).skip(5) =~= bytes@.skip(next as int));
    Ok((EntityAttributes { intelligence, strength, charisma, luck, combat }, next))
}

fn read_stats(bytes: &[u8], at: usize) -> (taken: Result<(EntityStats, usize), SnapshotError>)
    requires
        at <= bytes@.len(),
    ensures
        match taken {
            Ok((stats, next)) => at <= next <= bytes@.len() && EntityStats::at_front(
                bytes@.skip(at as int),
            ) == Some((stats, bytes@.skip(next as int))),
            Err(e) => e == SnapshotError::Decode && EntityStats::at_front(bytes@.skip(at as int))
                is None,
        },
{
    let (thirst, next) = take_word(bytes, at)?;
    let (hunger, next) = take_word(bytes, next)?;
    let (energy, next) = take_word(bytes, next)?;
    let (health, next) = take_word(bytes, next)?;
    Ok((EntityStats { thirst, hunger, energy, health }, next))
}

fn read_emotion(bytes: &[u8], at: usize) -> (taken: Result<(Emotion, usize), SnapshotError>)
    requires
        at <= bytes@.len(),
    ensures
        match taken {
            Ok((emotion, next)) => at <= next <= bytes@.len() && Emotion::at_front(
                bytes@.skip(at as int),
            ) == Some((emotion, bytes@.skip(next as int))),
            Err(e) => e == SnapshotError::Decode && Emotion::at_front(bytes@.skip(at as int))
                is None,
        },
{
    let (tag, next) = take_word(bytes, at)?;
    if tag < 6 {
        let (intensity, next) = take_word(bytes, next)?;
        Ok((Emotion::from_parts(tag, intensity), next))
    } else if tag == 6 {
        Ok((Emotion::Neutral, next))
    } else {
        Err(SnapshotError::Decode)
    }
}

fn read_mood(bytes: &[u8], at: usize) -> (taken: Result<(Vec<Emotion>, usize), SnapshotError>)
    requires
        at <= bytes@.len(),
    ensures
        match taken {
            Ok((mood, next)) => at <= next <= bytes@.len() && mood_at_front(bytes@.skip(at as int))
                == Some((mood@, bytes@.skip(next as int))),
            Err(e) => e == SnapshotError::Decode && mood_at_front(bytes@.skip(at as int)) is None,
        },
{
    let (count, first) = take_long(bytes, at)?;
    let mut mood: Vec<Emotion> = Vec::new();
    let mut read: u64 = 0;
    let mut next: usize = first;
    let ghost whole = mood_at_front(bytes@.skip(at as int));
    assert(Seq::<Emotion>::empty() + whole->Some_0.0 =~= whole->Some_0.0);
    while read < count
        invariant
            read <= count,
            first <= next <= bytes@.len(),
            whole == mood_at_front(bytes@.skip(at as int)),
            whole == match emotions_at_front(bytes@.skip(next as int), (count - read) as nat) {
                Some((others, rest)) => Some((mood@ + others, rest)),
                None => None,
            },
        decreases count - read,
    {
        let ghost here = bytes@.skip(next as int);
        let ghost before = mood@;
        let (emotion, after) = match read_emotion(bytes, next) {
            Ok(taken) => taken,
            Err(e) => {
                assert(emotions_at_front(here, (count - read) as nat) is None);
                return Err(e);
            },
        };
        mood.push(emotion);
        proof {
            let left = (count - read - 1) as nat;
            match emotions_at_front(bytes@.skip(after as int), left) {
                Some((others, rest)) => {
                    assert(before + (seq![emotion] + others) =~= mood@ + others);
                },
                None => {},
            }
        }
        next = after;
        read += 1;
    }
    assert(mood@ + Seq::<Emotion>::empty() =~= mood@);
    Ok((mood, next))
}

fn read_count(bytes: &[u8], at: usize) -> (taken: Result<(usize, usize), SnapshotError>)
    requires
        at <= bytes@.len(),
    ensures
        match taken {
            Ok((count, next)) => at <= next <= bytes@.len() && count_at_front(
                bytes@.skip(at as int),
            ) == Some((count as nat, bytes@.skip(next as int))),
            Err(e) => e == SnapshotError::Decode && count_at_front(bytes@.skip(at as int))
                is None,
        },
{
    let (count, next) = take_long(bytes, at)?;
    if count <= usize::MAX as u64 {
        Ok((count as usize, next))
    } else {
        Err(SnapshotError::Decode)
    }
}

fn read_kind(bytes: &[u8], at: usize) -> (taken: Result<(EntityType, usize), SnapshotError>)
    requires
        at <= bytes@.len(),
    ensures
        match taken {
            Ok((kind, next)) => at <= next <= bytes@.len() && kind_at_front(bytes@.skip(at as int))
                == Some(bytes@.skip(next as int)),
            Err(e) => e == SnapshotError::Decode && kind_at_front(bytes@.skip(at as int)) is None,
        },
{
    let (tag, next) = take_word(bytes, at)?;
    if tag == 0 {
        Ok((EntityType::Human, next))
    } else {
        Err(SnapshotError::Decode)
    }
}

fn items(count: usize) -> (inventory: Vec<Item>)
    ensures
        inventory@ == Seq::new(count as nat, |i: int| Item),
{
    let mut inventory: Vec<Item> = Vec::new();
    let mut made: usize = 0;
    while made < count
        invariant
            made <= count,
            inventory@.len() == made,
        decreases count - made,
    {
        inventory.push(Item);
        made += 1;
    }
    assert(inventory@ =~= Seq::new(count as nat, |i: int| Item));
    inventory
}

fn relationships(count: usize) -> (ties: Vec<Relationship>)
    ensures
        ties@ == Seq::new(count as nat, |i: int| Relationship),
{
    let mut ties: Vec<Relationship> = Vec::new();
    let mut made: usize = 0;
    while made < count
        invariant
            made <= count,
            ties@.len() == made,
        decreases count - made,
    {
        ties.push(Relationship);
        made += 1;
    }
    assert(ties@ =~= Seq::new(count as nat, |i: int| Relationship));
    ties
}

fn read_head(bytes: &[u8], at: usize) -> (taken: Result<(Human, usize), SnapshotError>)
    requires
        at <= bytes@.len(),
    ensures
        match taken {
            Ok((head, next)) => at <= next <= bytes@.len() && HumanView::head_at_front(
                bytes@.skip(at as int),
            ) == Some((head@, bytes@.skip(next as int))),
            Err(e) => e == SnapshotError::Decode && HumanView::head_at_front(
                bytes@.skip(at as int),
            ) is None,
        },
{
    let (undead, next) = read_flag(bytes, at)?;
    let (first_name, next) = take_text(bytes, next)?;
    let (last_name, next) = take_text(bytes, next)?;
    let (age, next) = take_byte(bytes, next)?;
    let (gender, next) = read_gender(bytes, next)?;
    let (attributes, next) = read_attributes(bytes, next)?;
    let (stats, next) = read_stats(bytes, next)?;
    let head = Human {
        undead,
        first_name,
        last_name,
        age,
        gender,
        attributes,
        stats,
        inventory: Vec::new(),
        relationships: Vec::new(),
        current_location: String::new(),
        mood: Vec::new(),
        entity_type: EntityType::Human,
    };
    Ok((head, next))
}

fn read_tail(head: Human, bytes: &[u8], at: usize) -> (taken: Result<(Human, usize), SnapshotError>)
    requires
        at <= bytes@.len(),
    ensures
        match taken {
            Ok((human, next)) => at <= next <= bytes@.len() && HumanView::tail_at_front(
                head@,
                bytes@.skip(at as int),
            ) == Some((human@, bytes@.skip(next as int))),
            Err(e) => e == SnapshotError::Decode && HumanView::tail_at_front(
                head@,
                bytes@.skip(at as int),
            ) is None,
        },
{
    let (item_count, next) = read_count(bytes, at)?;
    let (tie_count, next) = read_count(bytes, next)?;
    let (current_location, next) = take_text(bytes, next)?;
    let (mood, next) = read_mood(bytes, next)?;
    let (entity_type, next) = read_kind(bytes, next)?;
    let mut human = head;
    human.inventory = items(item_count);
    human.relationships = relationships(tie_count);
    human.current_location = current_location;
    human.mood = mood;
    human.entity_type = entity_type;
    Ok((human, next))
}

/// Reads the character that starts at place `at` of `bytes`.
pub(crate) fn read_human(bytes: &[u8], at: usize) -> (taken: Result<(Human, usize), SnapshotError>)
    requires
        at <= bytes@.len(),
    ensures
        match taken {
            Ok((human, next)) => at <= next <= bytes@.len() && HumanView::at_front(
                bytes@.skip(at as int),
            ) == Some((human@, bytes@.skip(next as int))),
            Err(e) => e == SnapshotError::Decode && HumanView::at_front(bytes@.skip(at as int))
                is None,
        },
{
    let (head, next) = read_head(bytes, at)?;
    read_tail(head, bytes, next)
}

} // verus!
