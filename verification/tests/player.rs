use lifesim::entities::player::{creation_options, inventory_formatted, menu_options};
use lifesim::entities::{
    Emotion, EntityAttributes, EntityStats, Gender, Human, Item, MenuEffect, NameSource, Player,
    Relationship,
};
use lifesim::util::SnapshotError;

fn ann() -> Human {
    Human::fresh(
        Gender::Female,
        21,
        EntityAttributes { intelligence: 1, strength: 2, charisma: 3, luck: 4, combat: 5 },
        "Ann".to_string(),
        "Lee".to_string(),
    )
}

fn busy() -> Human {
    let mut human = Human::fresh(
        Gender::Male,
        30,
        EntityAttributes { intelligence: 255, strength: 0, charisma: 128, luck: 7, combat: 9 },
        "Zoë".to_string(),
        "O'Neil 東".to_string(),
    );
    human.undead = true;
    human.stats = EntityStats {
        thirst: 0.5f32.to_bits(),
        hunger: 2.25f32.to_bits(),
        energy: f32::NAN.to_bits(),
        health: (-1.0f32).to_bits(),
    };
    human.inventory = vec![Item, Item, Item];
    human.relationships = vec![Relationship];
    human.current_location = "New York".to_string();
    human.mood = vec![
        Emotion::Happinness(0.75f32.to_bits()),
        Emotion::Neutral,
        Emotion::Disgust(1.0f32.to_bits()),
        Emotion::Anger(0),
        Emotion::Surprise(1),
        Emotion::Excitement(2),
        Emotion::Fear(u32::MAX),
    ];
    human
}

#[test]
fn the_creation_question_has_five_answers() {
    assert_eq!(
        creation_options(),
        vec![
            "Thinker (+3 Intelligence)",
            "Hard worker (+3 Strength)",
            "Socialite (+3 Charisma)",
            "Fortunate (+3 Luck)",
            "Fighter (+3 Combat)",
        ]
    );
}

#[test]
fn the_turn_menu_has_five_entries() {
    assert_eq!(
        menu_options(),
        vec!["Display Stats", "Display Attributes", "Inventory", "Continue", "Exit"]
    );
}

#[test]
fn each_answer_raises_its_attribute_by_three() {
    let base = ann().attributes;
    let raised = |choice: usize| Player::new(ann(), choice).human.attributes;
    assert_eq!(raised(0), EntityAttributes { intelligence: 4, ..base });
    assert_eq!(raised(1), EntityAttributes { strength: 5, ..base });
    assert_eq!(raised(2), EntityAttributes { charisma: 6, ..base });
    assert_eq!(raised(3), EntityAttributes { luck: 7, ..base });
    assert_eq!(raised(4), EntityAttributes { combat: 8, ..base });
}

#[test]
fn the_answer_changes_nothing_but_the_attribute() {
    let player = Player::new(ann(), 1);
    let mut expected = ann();
    expected.attributes.strength = 5;
    assert_eq!(player.human, expected);
}

#[test]
fn the_creation_bonus_stops_at_the_ceiling() {
    let mut human = ann();
    human.attributes.strength = 254;
    assert_eq!(Player::new(human, 1).human.attributes.strength, 255);
    let mut human = ann();
    human.attributes.combat = 252;
    assert_eq!(Player::new(human, 4).human.attributes.combat, 255);
}

#[test]
fn a_new_player_is_introduced() {
    let player = Player::new(ann(), 0);
    assert_eq!(
        player.introduce("Thirst: 0\nHunger: 0\nEnergy: 1"),
        "Your name is Ann Lee\nYou are 21 years old\n\nThese are your attributes:\n\
         Intelligence: 4\nStrength: 2\nCharisma: 3\nLuck: 4\nCombat: 5\n\n\
         These are your stats:\nThirst: 0\nHunger: 0\nEnergy: 1\n"
    );
}

#[test]
fn the_status_line_shows_name_and_age() {
    assert_eq!(Player { human: ann() }.print_status(), "Ann Lee (Age: 21)");
    let mut old = ann();
    old.set_age(255);
    assert_eq!(Player { human: old }.print_status(), "Ann Lee (Age: 255)");
}

#[test]
fn each_menu_entry_has_its_effect() {
    let player = Player { human: busy() };
    assert_eq!(player.print_menu(0), MenuEffect::ShowStats { pause: 2000 });
    assert_eq!(
        player.print_menu(1),
        MenuEffect::ShowAttributes {
            text: "Intelligence: 255\nStrength: 0\nCharisma: 128\nLuck: 7\nCombat: 9".to_string(),
            pause: 2000,
        }
    );
    assert_eq!(
        player.print_menu(2),
        MenuEffect::ShowInventory { text: "[Item, Item, Item]".to_string() }
    );
    assert_eq!(player.print_menu(3), MenuEffect::Continue);
    assert_eq!(player.print_menu(4), MenuEffect::Exit);
}

#[test]
fn only_exit_shuts_the_session_down() {
    let player = Player { human: ann() };
    for choice in 0..4 {
        assert!(!player.print_menu(choice).is_shutdown());
    }
    assert!(player.print_menu(4).is_shutdown());
}

#[test]
fn the_inventory_is_shown_like_a_debug_listing() {
    assert_eq!(inventory_formatted(&vec![]), format!("{:?}", Vec::<Item>::new()));
    assert_eq!(inventory_formatted(&vec![Item]), format!("{:?}", vec![Item]));
    assert_eq!(inventory_formatted(&vec![Item, Item]), format!("{:?}", vec![Item, Item]));
}

#[test]
fn a_saved_player_is_loaded_as_it_was() {
    for human in [ann(), busy()] {
        let player = Player { human };
        let bytes = player.save();
        assert!(!bytes.is_empty());
        assert_eq!(Player::load(&bytes), Ok(player.clone()));
        assert_eq!(Player::init(&bytes), Ok(Some(player)));
    }
}

#[test]
fn a_generated_player_is_loaded_as_it_was() {
    let names = NameSource {
        male_first_names: vec!["Adam".to_string()],
        female_first_names: vec!["Eve".to_string()],
        last_names: vec!["Smith".to_string()],
    };
    let player = Player::new(Human::new(&names).unwrap(), 2);
    let bytes = player.save();
    assert_eq!(Player::load(&bytes), Ok(player));
}

#[test]
fn an_empty_snapshot_holds_no_player() {
    assert_eq!(Player::load(&[]), Err(SnapshotError::Missing));
    assert_eq!(Player::init(&[]), Ok(None));
}

#[test]
fn a_damaged_snapshot_is_refused() {
    let bytes = Player { human: busy() }.save();
    for cut in 1..bytes.len() {
        assert_eq!(Player::load(&bytes[..cut]), Err(SnapshotError::Decode), "cut at {cut}");
        assert_eq!(Player::init(&bytes[..cut]), Err(SnapshotError::Decode));
    }
    let mut flag = bytes.clone();
    flag[0] = 2;
    assert_eq!(Player::load(&flag), Err(SnapshotError::Decode));
    let mut kind = bytes.clone();
    let last = kind.len() - 4;
    kind[last] = 1;
    assert_eq!(Player::load(&kind), Err(SnapshotError::Decode));
    let mut text = Player { human: ann() }.save();
    text[9] = 0xff;
    assert_eq!(Player::load(&text), Err(SnapshotError::Decode));
}

#[test]
fn bytes_behind_the_record_are_not_looked_at() {
    let player = Player { human: busy() };
    let mut bytes = player.save();
    bytes.extend_from_slice(&[1, 2, 3]);
    assert_eq!(Player::load(&bytes), Ok(player));
}

#[test]
fn the_snapshot_is_the_encoding_of_the_record_field_by_field() {
    let bytes = Player { human: ann() }.save();
    let expected = bincode::serialize(&(
        false,
        "Ann",
        "Lee",
        21u8,
        1u32,
        (1u8, 2u8, 3u8, 4u8, 5u8),
        (0.0f32, 0.0f32, 1.0f32, 100.0f32),
        Vec::<()>::new(),
        Vec::<()>::new(),
        "",
        Vec::<u32>::new(),
        0u32,
    ))
    .unwrap();
    assert_eq!(bytes, expected);

    let bytes = Player { human: busy() }.save();
    let expected = bincode::serialize(&(
        true,
        "Zoë",
        "O'Neil 東",
        30u8,
        0u32,
        (255u8, 0u8, 128u8, 7u8, 9u8),
        (0.5f32, 2.25f32, f32::NAN, -1.0f32),
        vec![(), (), ()],
        vec![()],
        "New York",
        (
            7u64,
            (0u32, 0.75f32),
            6u32,
            (5u32, 1.0f32),
            (1u32, 0u32),
            (2u32, 1u32),
            (3u32, 2u32),
            (4u32, u32::MAX),
        ),
        0u32,
    ))
    .unwrap();
    assert_eq!(bytes, expected);
}
