use lifesim::entities::human::{get_random_first_name, get_random_last_name, pick_name};
use lifesim::entities::{
    EntityAttributes, EntityStats, EntityType, Gender, Human, NameSource,
};
use lifesim::util::Scalar;

fn names() -> NameSource {
    NameSource {
        male_first_names: vec!["Adam".to_string(), "Bob".to_string(), "Carl".to_string()],
        female_first_names: vec!["Dana".to_string(), "Eve".to_string()],
        last_names: vec!["Fox".to_string(), "Gray".to_string(), "Hill".to_string(), "Ito".to_string()],
    }
}

fn nobody() -> NameSource {
    NameSource { male_first_names: vec![], female_first_names: vec![], last_names: vec![] }
}

fn ann() -> Human {
    Human::fresh(
        Gender::Female,
        21,
        EntityAttributes { intelligence: 1, strength: 2, charisma: 3, luck: 4, combat: 5 },
        "Ann".to_string(),
        "Lee".to_string(),
    )
}

#[test]
fn a_fresh_character_has_the_starting_state() {
    let human = ann();
    assert!(!human.undead);
    assert_eq!(human.first_name, "Ann");
    assert_eq!(human.last_name, "Lee");
    assert_eq!(human.age, 21);
    assert_eq!(human.gender, Gender::Female);
    assert_eq!(human.stats, EntityStats::default());
    assert!(human.inventory.is_empty());
    assert!(human.relationships.is_empty());
    assert!(human.mood.is_empty());
    assert_eq!(human.current_location, "");
    assert_eq!(human.entity_type, EntityType::Human);
}

#[test]
fn default_stats_are_the_bit_patterns_of_0_0_1_and_100() {
    let stats = EntityStats::default();
    assert_eq!(f32::from_bits(stats.thirst), 0.0);
    assert_eq!(f32::from_bits(stats.hunger), 0.0);
    assert_eq!(f32::from_bits(stats.energy), 1.0);
    assert_eq!(f32::from_bits(stats.health), 100.0);
}

#[test]
fn stats_are_summarised_in_the_fixed_order() {
    let stats = EntityStats::default();
    let shown = |bits: u32| format!("{}", f32::from_bits(bits));
    assert_eq!(
        EntityStats::get_formatted(&shown(stats.thirst), &shown(stats.hunger), &shown(stats.energy)),
        "Thirst: 0\nHunger: 0\nEnergy: 1"
    );
    assert_eq!(ann().get_stats_formatted("0.5", "2", "0.25"), "Thirst: 0.5\nHunger: 2\nEnergy: 0.25");
}

#[test]
fn generated_characters_keep_to_their_ranges() {
    let names = names();
    for _ in 0..300 {
        let human = Human::new(&names).expect("Time went backwards");
        assert!((17..=30).contains(&human.age));
        let a = human.attributes;
        for value in [a.intelligence, a.strength, a.charisma, a.luck, a.combat] {
            assert!(value <= 5);
        }
        let first_names = match human.gender {
            Gender::Male => &names.male_first_names,
            Gender::Female => &names.female_first_names,
        };
        assert!(first_names.contains(&human.first_name));
        assert!(names.last_names.contains(&human.last_name));
        assert_eq!(human.stats, EntityStats::default());
        assert!(!human.undead);
        assert!(human.inventory.is_empty() && human.relationships.is_empty());
        assert!(human.mood.is_empty() && human.current_location.is_empty());
    }
}

#[test]
fn a_missing_name_source_gives_empty_names() {
    let human = Human::new(&nobody()).expect("Time went backwards");
    assert_eq!(human.first_name, "");
    assert_eq!(human.last_name, "");
    assert_eq!(get_random_first_name(&Gender::Male, &nobody()), Some(String::new()));
    assert_eq!(get_random_last_name(&nobody()), Some(String::new()));
}

#[test]
fn a_list_with_entries_never_gives_the_empty_name() {
    let names = names();
    for _ in 0..200 {
        assert_ne!(get_random_first_name(&Gender::Male, &names), Some(String::new()));
        assert_ne!(get_random_last_name(&names), Some(String::new()));
    }
}

#[test]
fn drawn_names_come_from_the_list_for_the_gender() {
    let names = names();
    for _ in 0..100 {
        let male = get_random_first_name(&Gender::Male, &names).unwrap();
        assert!(names.male_first_names.contains(&male));
        let female = get_random_first_name(&Gender::Female, &names).unwrap();
        assert!(names.female_first_names.contains(&female));
        let last = get_random_last_name(&names).unwrap();
        assert!(names.last_names.contains(&last));
    }
}

#[test]
fn a_draw_picks_the_name_at_its_place() {
    let list = names().last_names;
    assert_eq!(pick_name(&list, Scalar { numerator: 0, denominator: 10 }), "Fox");
    assert_eq!(pick_name(&list, Scalar { numerator: 25, denominator: 100 }), "Gray");
    assert_eq!(pick_name(&list, Scalar { numerator: 5, denominator: 10 }), "Hill");
    assert_eq!(pick_name(&list, Scalar { numerator: 99, denominator: 100 }), "Ito");
    assert_eq!(pick_name(&vec![], Scalar { numerator: 1, denominator: 10 }), "");
}

#[test]
fn a_draw_decides_the_gender() {
    assert_eq!(Gender::from_draw(Scalar { numerator: 5, denominator: 10 }), Gender::Male);
    assert_eq!(Gender::from_draw(Scalar { numerator: 99, denominator: 100 }), Gender::Male);
    assert_eq!(Gender::from_draw(Scalar { numerator: 49, denominator: 100 }), Gender::Female);
    assert_eq!(Gender::from_draw(Scalar { numerator: 0, denominator: 10 }), Gender::Female);
}

#[test]
fn the_first_names_are_keyed_by_gender() {
    let names = names();
    assert_eq!(names.first_names(&Gender::Male), &names.male_first_names);
    assert_eq!(names.first_names(&Gender::Female), &names.female_first_names);
}

#[test]
fn setters_change_one_field_and_chain() {
    let mut human = ann();
    human.set_first_name("Bea").set_last_name("Moss").set_age(44);
    let mut expected = ann();
    expected.first_name = "Bea".to_string();
    expected.last_name = "Moss".to_string();
    expected.age = 44;
    assert_eq!(human, expected);
}

#[test]
fn the_name_is_first_then_last() {
    assert_eq!(ann().get_name_formatted(), "Ann Lee");
    let mut blank = ann();
    blank.set_first_name("").set_last_name("");
    assert_eq!(blank.get_name_formatted(), " ");
}

#[test]
fn the_character_summarises_its_attributes() {
    assert_eq!(
        ann().get_attributes_formatted(),
        "Intelligence: 1\nStrength: 2\nCharisma: 3\nLuck: 4\nCombat: 5"
    );
}
