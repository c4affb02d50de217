//! The player: one character, what its creation grants it, and what each
//! entry of the turn menu does.

use crate::entities::codec::{lemma_human_round_trip, read_human, write_human};
use crate::entities::human::{Human, HumanView, Item};
use crate::entities::structs::attributes::{EntityAttribute, EntityAttributes};
use crate::entities::structs::stats::EntityStats;
use crate::util::random::clamped;
use crate::util::snapshot::SnapshotError;
use crate::util::text::{decimal, decimal_text};
use vstd::prelude::*;

verus! {

/// Where the snapshot of the player lies.
pub const SAVE_PATH: &'static str = "saved/player.dat";

/// What the answer to the creation question adds to one attribute.
pub const STAT_GAIN: u8 = 3;

/// How many answers the creation question has.
pub const CREATION_OPTIONS: usize = 5;

/// How many entries the turn menu has.
pub const MENU_OPTIONS: usize = 5;

/// How long a summary stays on the screen, in milliseconds.
pub const DISPLAY_PAUSE: u64 = 2000;

/// The player of a save slot: a single character.
#[derive(Clone, Debug, PartialEq, Eq)]
pub struct Player {
    pub human: Human,
}

/// What a choice from the turn menu asks of the loop.
#[derive(Clone, Debug, PartialEq, Eq)]
pub enum MenuEffect {
    /// Show the survival profile and wait `pause` milliseconds.
    ShowStats { pause: u64 },
    /// Show `text`, the capability profile, and wait `pause` milliseconds.
    ShowAttributes { text: String, pause: u64 },
    /// Show `text`, the inventory.
    ShowInventory { text: String },
    /// Nothing to do: the turn ends.
    Continue,
    /// Persist the player and leave the loop.
    Exit,
}

/// What [`MenuEffect`] holds, as mathematical values.
pub enum MenuEffectView {
    ShowStats { pause: u64 },
    ShowAttributes { text: Seq<char>, pause: u64 },
    ShowInventory { text: Seq<char> },
    Continue,
    Exit,
}

impl View for MenuEffect {
    type V = MenuEffectView;

    open spec fn view(&self) -> MenuEffectView {
        match self {
            MenuEffect::ShowStats { pause } => MenuEffectView::ShowStats { pause: *pause },
            MenuEffect::ShowAttributes { text, pause } => MenuEffectView::ShowAttributes {
                text: text@,
                pause: *pause,
            },
            MenuEffect::ShowInventory { text } => MenuEffectView::ShowInventory { text: text@ },
            MenuEffect::Continue => MenuEffectView::Continue,
            MenuEffect::Exit => MenuEffectView::Exit,
        }
    }
}

impl MenuEffect {
    /// Whether the effect ends the session.
    pub fn is_shutdown(&self) -> (yes: bool)
        ensures
            yes == (self@ is Exit),
    {
        match self {
            MenuEffect::Exit => true,
            _ => false,
        }
    }
}

/// The attribute that answer `choice` to the creation question raises, with
/// the gain it grants.
pub open spec fn creation_bonus(choice: int) -> EntityAttribute {
    if choice == 0 {
        EntityAttribute::Intelligence(STAT_GAIN)
    } else if choice == 1 {
        EntityAttribute::Strength(STAT_GAIN)
    } else if choice == 2 {
        EntityAttribute::Charisma(STAT_GAIN)
    } else if choice == 3 {
        EntityAttribute::Luck(STAT_GAIN)
    } else {
        EntityAttribute::Combat(STAT_GAIN)
    }
}

/// What answer `choice` to the creation question calls the player.
pub open spec fn creation_title(choice: int) -> Seq<char> {
    if choice == 0 {
        "Thinker"@
    } else if choice == 1 {
        "Hard worker"@
    } else if choice == 2 {
        "Socialite"@
    } else if choice == 3 {
        "Fortunate"@
    } else {
        "Fighter"@
    }
}

/// The name of the attribute that answer `choice` raises.
pub open spec fn creation_attribute(choice: int) -> Seq<char> {
    if choice == 0 {
        "Intelligence"@
    } else if choice == 1 {
        "Strength"@
    } else if choice == 2 {
        "Charisma"@
    } else if choice == 3 {
        "Luck"@
    } else {
        "Combat"@
    }
}

/// The answer `choice` as the creation question words it.
pub open spec fn creation_option(choice: int) -> Seq<char> {
    creation_title(choice) + " (+"@ + decimal_text(STAT_GAIN as nat) + " "@ + creation_attribute(
        choice,
    ) + ")"@
}

/// The entry `choice` of the turn menu.
pub open spec fn menu_option(choice: int) -> Seq<char> {
    if choice == 0 {
        "Display Stats"@
    } else if choice == 1 {
        "Display Attributes"@
    } else if choice == 2 {
        "Inventory"@
    } else if choice == 3 {
        "Continue"@
    } else {
        "Exit"@
    }
}

/// An inventory of `count` items as it is shown: the items in square
/// brackets, with a comma and a space between two of them.
pub open spec fn inventory_text(count: nat) -> Seq<char> {
    "["@ + inventory_items(count) + "]"@
}

/// The items of an inventory of `count` items, as they are shown.
pub open spec fn inventory_items(count: nat) -> Seq<char>
    decreases count,
{
    if count == 0 {
        Seq::empty()
    } else if count == 1 {
        "Item"@
    } else {
        inventory_items((count - 1) as nat) + ", Item"@
    }
}

/// The five answers to the creation question, in their order.
pub fn creation_options() -> (options: Vec<String>)
    ensures
        options@.len() == CREATION_OPTIONS,
        forall|i: int| 0 <= i < CREATION_OPTIONS ==> (#[trigger] options@[i])@ == creation_option(i),
{
    let mut options: Vec<String> = Vec::new();
    let mut choice: usize = 0;
    while choice < CREATION_OPTIONS
        invariant
            choice <= CREATION_OPTIONS,
            options@.len() == choice,
            forall|i: int| 0 <= i < choice ==> (#[trigger] options@[i])@ == creation_option(i),
        decreases CREATION_OPTIONS - choice,
    {
        let title = if choice == 0 {
            "Thinker"
        } else if choice == 1 {
            "Hard worker"
        } else if choice == 2 {
            "Socialite"
        } else if choice == 3 {
            "Fortunate"
        } else {
            "Fighter"
        };
        let attribute = if choice == 0 {
            "Intelligence"
        } else if choice == 1 {
            "Strength"
        } else if choice == 2 {
            "Charisma"
        } else if choice == 3 {
            "Luck"
        } else {
            "Combat"
        };
        let mut option = String::from_str(title);
        option.append(" (+");
        option.append(decimal(STAT_GAIN as u64).as_str());
        option.append(" ");
        option.append(attribute);
        option.append(")");
        options.push(option);
        choice += 1;
    }
    options
}

/// The five entries of the turn menu, in their order.
pub fn menu_options() -> (options: Vec<String>)
    ensures
        options@.len() == MENU_OPTIONS,
        forall|i: int| 0 <= i < MENU_OPTIONS ==> (#[trigger] options@[i])@ == menu_option(i),
{
    let mut options: Vec<String> = Vec::new();
    options.push(String::from_str("Display Stats"));
    options.push(String::from_str("Display Attributes"));
    options.push(String::from_str("Inventory"));
    options.push(String::from_str("Continue"));
    options.push(String::from_str("Exit"));
    options
}

/// Renders an inventory as it is shown.
pub fn inventory_formatted(inventory: &Vec<Item>) -> (text: String)
    ensures
        text@ == inventory_text(inventory@.len()),
{
    let mut text = String::from_str("[");
    let mut shown: usize = 0;
    while shown < inventory.len()
        invariant
            shown <= inventory@.len(),
            text@ == "["@ + inventory_items(shown as nat),
        decreases inventory@.len() - shown,
    {
        if shown == 0 {
            text.append("Item");
        } else {
            text.append(", Item");
        }
        shown += 1;
        assert(text@ =~= "["@ + inventory_items(shown as nat));
    }
    text.append("]");
    text
}

/// A character whose texts and lists can be stored is loaded from its
/// snapshot as it was saved, and is not taken for a missing one.
pub proof fn lemma_player_round_trip(human: HumanView)
    requires
        human.storable(),
    ensures
        Player::loaded(human.image()) == Ok::<HumanView, SnapshotError>(human),
{
    lemma_human_round_trip(human, Seq::empty());
    assert(human.image() + Seq::<u8>::empty() =~= human.image());
}

impl Player {
    /// The character after answer `choice` to the creation question: the
    /// attribute that the answer names is raised by [`STAT_GAIN`] and held at
    /// 255, and nothing else changes.
    pub open spec fn created(human: HumanView, choice: int) -> HumanView {
        let bonus = creation_bonus(choice);
        HumanView {
            attributes: human.attributes.with_field(
                bonus,
                clamped(human.attributes.field(bonus) + STAT_GAIN),
            ),
            ..human
        }
    }

    /// The line that heads every turn: the name, then the age in brackets.
    pub open spec fn status(human: HumanView) -> Seq<char> {
        human.name_formatted() + " (Age: "@ + decimal_text(human.age as nat) + ")"@
    }

    /// What is told to a player who has just been created, with the survival
    /// profile as the caller has written it out in `stats`.
    pub open spec fn introduction(human: HumanView, stats: Seq<char>) -> Seq<char> {
        "Your name is "@ + human.name_formatted() + "\nYou are "@ + decimal_text(human.age as nat)
            + " years old\n\nThese are your attributes:\n"@ + human.attributes.formatted()
            + "\n\nThese are your stats:\n"@ + stats + "\n"@
    }

    /// What entry `choice` of the turn menu asks of the loop for a player
    /// whose character is `human`.
    pub open spec fn menu_effect(human: HumanView, choice: int) -> MenuEffectView {
        if choice == 0 {
            MenuEffectView::ShowStats { pause: DISPLAY_PAUSE }
        } else if choice == 1 {
            MenuEffectView::ShowAttributes {
                text: human.attributes.formatted(),
                pause: DISPLAY_PAUSE,
            }
        } else if choice == 2 {
            MenuEffectView::ShowInventory { text: inventory_text(human.inventory.len()) }
        } else if choice == 3 {
            MenuEffectView::Continue
        } else {
            MenuEffectView::Exit
        }
    }

    /// What loading makes of the bytes of a snapshot: of none that the player
    /// is missing; of any others the character that they hold at their
    /// front, if they hold one.
    pub open spec fn loaded(bytes: Seq<u8>) -> Result<HumanView, SnapshotError> {
        if bytes.len() == 0 {
            Err(SnapshotError::Missing)
        } else {
            match HumanView::at_front(bytes) {
                Some((human, _)) => Ok(human),
                None => Err(SnapshotError::Decode),
            }
        }
    }

    /// Loads the player from the bytes of its snapshot. An empty snapshot
    /// stands for a player that was never stored, and is no record to read.
    pub fn load(bytes: &[u8]) -> (found: Result<Player, SnapshotError>)
        ensures
            match found {
                Ok(player) => Player::loaded(bytes@) == Ok::<HumanView, SnapshotError>(
                    player.human@,
                ),
                Err(e) => Player::loaded(bytes@) == Err::<HumanView, SnapshotError>(e),
            },
    {
        if bytes.len() == 0 {
            return Err(SnapshotError::Missing);
        }
        assert(bytes@.skip(0) =~= bytes@);
        let (human, _) = read_human(bytes, 0)?;
        Ok(Player { human })
    }

    /// Writes the player out as the bytes of its snapshot: those of its
    /// character. The snapshot is never empty, and loading it gives this
    /// character back.
    pub fn save(&self) -> (bytes: Vec<u8>)
        ensures
            bytes@ == self.human@.image(),
            bytes@.len() > 0,
            Player::loaded(bytes@) == Ok::<HumanView, SnapshotError>(self.human@),
    {
        let mut out: Vec<u8> = Vec::new();
        write_human(&mut out, &self.human);
        proof {
            let human = self.human@;
            assert(out@ =~= human.image());
            assert(out@.len() == out.len());
            assert(human.inventory.len() == self.human.inventory.len());
            assert(human.relationships.len() == self.human.relationships.len());
            assert(human.mood.len() == self.human.mood.len());
            assert(human.storable());
            lemma_player_round_trip(human);
            lemma_human_round_trip(human, Seq::empty());
        }
        out
    }

    /// Takes up the player of a save slot from the bytes of its snapshot:
    /// the player that they hold, or `None` where the snapshot is empty and
    /// a player has yet to be created.
    pub fn init(bytes: &[u8]) -> (found: Result<Option<Player>, SnapshotError>)
        ensures
            match Player::loaded(bytes@) {
                Ok(human) => found matches Ok(Some(player)) && player.human@ == human,
                Err(SnapshotError::Missing) => found matches Ok(None),
                Err(e) => found matches Err(error) && error == e,
            },
    {
        match Player::load(bytes) {
            Ok(player) => Ok(Some(player)),
            Err(SnapshotError::Missing) => Ok(None),
            Err(e) => Err(e),
        }
    }

    /// Makes a player of a generated character and the answer `choice`, from
    /// zero, that was given to the creation question.
    pub fn new(human: Human, choice: usize) -> (player: Player)
        requires
            choice < CREATION_OPTIONS,
        ensures
            player.human@ == Player::created(human@, choice as int),
    {
        let mut player = Player { human };
        if choice == 0 {
            player.human.attributes.add_attribute(EntityAttribute::Intelligence(STAT_GAIN));
        } else if choice == 1 {
            player.human.attributes.add_attribute(EntityAttribute::Strength(STAT_GAIN));
        } else if choice == 2 {
            player.human.attributes.add_attribute(EntityAttribute::Charisma(STAT_GAIN));
        } else if choice == 3 {
            player.human.attributes.add_attribute(EntityAttribute::Luck(STAT_GAIN));
        } else {
            player.human.attributes.add_attribute(EntityAttribute::Combat(STAT_GAIN));
        }
        player
    }

    /// What is told to a player who has just been created: name, age,
    /// capability profile, and the survival profile as the caller has written
    /// it out in `stats`.
    pub fn introduce(&self, stats: &str) -> (text: String)
        ensures
            text@ == Player::introduction(self.human@, stats@),
    {
        let mut text = String::from_str("Your name is ");
        text.append(self.human.get_name_formatted().as_str());
        text.append("\nYou are ");
        text.append(decimal(self.human.age as u64).as_str());
        text.append(" years old\n\nThese are your attributes:\n");
        text.append(self.human.get_attributes_formatted().as_str());
        text.append("\n\nThese are your stats:\n");
        text.append(stats);
        text.append("\n");
        text
    }

    /// The line that heads every turn: the name, then the age in brackets.
    pub fn print_status(&self) -> (text: String)
        ensures
            text@ == Player::status(self.human@),
    {
        let mut text = self.human.get_name_formatted();
        text.append(" (Age: ");
        text.append(decimal(self.human.age as u64).as_str());
        text.append(")");
        text
    }

    /// Decides what entry `choice`, from zero, of the turn menu asks of the
    /// loop. Only the last entry ends the session.
    pub fn print_menu(&self, choice: usize) -> (effect: MenuEffect)
        requires
            choice < MENU_OPTIONS,
        ensures
            effect@ == Player::menu_effect(self.human@, choice as int),
            effect@ is Exit <==> choice == MENU_OPTIONS - 1,
    {
        if choice == 0 {
            MenuEffect::ShowStats { pause: DISPLAY_PAUSE }
        } else if choice == 1 {
            MenuEffect::ShowAttributes {
                text: self.human.attributes.get_formatted(),
                pause: DISPLAY_PAUSE,
            }
        } else if choice == 2 {
            MenuEffect::ShowInventory { text: inventory_formatted(&self.human.inventory) }
        } else if choice == 3 {
            MenuEffect::Continue
        } else {
            MenuEffect::Exit
        }
    }
}

} // verus!
