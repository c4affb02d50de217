use lifesim::entities::{EntityAttributes, Gender, Human, MenuEffect, NameSource, Player};
use lifesim::game::{Event, Game, LoadedGame, Phase, Timestamp, GAME_START_EPOCH};
use lifesim::util::{collect_with_options, SnapshotError};
use std::time::{Duration, SystemTime, UNIX_EPOCH};

fn ann() -> Player {
    Player {
        human: Human::fresh(
            Gender::Female,
            21,
            EntityAttributes { intelligence: 1, strength: 2, charisma: 3, luck: 4, combat: 5 },
            "Ann".to_string(),
            "Lee".to_string(),
        ),
    }
}

#[test]
fn the_world_starts_at_a_fixed_date() {
    let game = Game::default();
    assert_eq!(
        game.time,
        Timestamp { secs_since_epoch: 1672549200, nanos_since_epoch: 0 }
    );
    assert_eq!(Game::new(), game);
    assert_eq!(GAME_START_EPOCH, 1672549200);
}

#[test]
fn the_world_snapshot_is_seconds_then_nanoseconds() {
    let game = Game { time: Timestamp { secs_since_epoch: 0x0102030405060708, nanos_since_epoch: 0x0a0b0c0d } };
    assert_eq!(game.save(), vec![8, 7, 6, 5, 4, 3, 2, 1, 0x0d, 0x0c, 0x0b, 0x0a]);
}

#[test]
fn the_world_snapshot_is_the_encoding_of_a_system_time() {
    let time: SystemTime = UNIX_EPOCH + Duration::from_secs(GAME_START_EPOCH);
    assert_eq!(Game::default().save(), bincode::serialize(&time).unwrap());
    let time: SystemTime = UNIX_EPOCH + Duration::new(5, 999_999_999);
    let game = Game { time: Timestamp { secs_since_epoch: 5, nanos_since_epoch: 999_999_999 } };
    let bytes = bincode::serialize(&time).unwrap();
    assert_eq!(game.save(), bytes);
    assert_eq!(Game::load(&bytes), Ok(LoadedGame { game, fresh: false }));
}

#[test]
fn a_saved_world_is_loaded_as_it_was() {
    for (secs, nanos) in [(0, 0), (1672549200, 0), (u64::MAX, 999_999_999), (77, 1)] {
        let game = Game { time: Timestamp { secs_since_epoch: secs, nanos_since_epoch: nanos } };
        let bytes = game.save();
        assert_eq!(bytes.len(), 12);
        assert_eq!(Game::load(&bytes), Ok(LoadedGame { game, fresh: false }));
    }
}

#[test]
fn an_empty_snapshot_gives_a_new_world_every_time() {
    let first = Game::load(&[]);
    assert_eq!(first, Ok(LoadedGame { game: Game::default(), fresh: true }));
    assert_eq!(Game::load(&[]), first);
    let persisted = first.unwrap().game.save();
    assert!(!persisted.is_empty());
    assert_eq!(
        Game::load(&persisted),
        Ok(LoadedGame { game: Game::default(), fresh: false })
    );
}

#[test]
fn whole_seconds_among_the_nanoseconds_are_carried_over() {
    let bytes = bincode::serialize(&(10u64, 2_500_000_000u32)).unwrap();
    assert_eq!(
        Game::load(&bytes),
        Ok(LoadedGame {
            game: Game { time: Timestamp { secs_since_epoch: 12, nanos_since_epoch: 500_000_000 } },
            fresh: false,
        })
    );
    let bytes = bincode::serialize(&(u64::MAX, 1_000_000_000u32)).unwrap();
    assert_eq!(Game::load(&bytes), Err(SnapshotError::Decode));
    let bytes = bincode::serialize(&(u64::MAX - 4, u32::MAX)).unwrap();
    assert_eq!(
        Game::load(&bytes),
        Ok(LoadedGame {
            game: Game { time: Timestamp { secs_since_epoch: u64::MAX, nanos_since_epoch: 294_967_295 } },
            fresh: false,
        })
    );
}

#[test]
fn a_short_world_snapshot_is_refused() {
    let bytes = Game::default().save();
    for cut in 1..bytes.len() {
        assert_eq!(Game::load(&bytes[..cut]), Err(SnapshotError::Decode));
    }
    let mut longer = bytes.clone();
    longer.push(9);
    assert_eq!(Game::load(&longer), Ok(LoadedGame { game: Game::default(), fresh: false }));
}

#[test]
fn a_session_begins_by_the_save_folder() {
    assert_eq!(Game::init(false), Phase::Creating);
    assert_eq!(Game::init(true), Phase::Resuming);
}

#[test]
fn the_phases_follow_one_another() {
    let probe = |exists| Event::SaveFolderProbed { exists };
    assert_eq!(Phase::Uninitialized.next(probe(false)), Phase::Creating);
    assert_eq!(Phase::Uninitialized.next(probe(true)), Phase::Resuming);
    assert_eq!(Phase::Creating.next(Event::Established), Phase::Running);
    assert_eq!(Phase::Resuming.next(Event::Established), Phase::Running);
    assert_eq!(Phase::Running.next(Event::TurnPlayed), Phase::Running);
    assert_eq!(Phase::Running.next(Event::ExitChosen), Phase::Exiting);
    assert_eq!(Phase::Exiting.next(Event::ShutdownHookRan), Phase::Terminated);
}

#[test]
fn an_event_out_of_turn_changes_nothing() {
    let phases = [
        Phase::Uninitialized,
        Phase::Creating,
        Phase::Resuming,
        Phase::Running,
        Phase::Exiting,
        Phase::Terminated,
    ];
    let events = [
        Event::SaveFolderProbed { exists: true },
        Event::SaveFolderProbed { exists: false },
        Event::Established,
        Event::TurnPlayed,
        Event::ExitChosen,
        Event::ShutdownHookRan,
    ];
    let mut moves = 0;
    for phase in phases {
        for event in events {
            let next = phase.next(event);
            if next != phase {
                moves += 1;
            }
            assert_eq!(Phase::Terminated.next(event), Phase::Terminated);
        }
    }
    assert_eq!(moves, 6);
    assert_eq!(Phase::Running.next(Event::ShutdownHookRan), Phase::Running);
    assert_eq!(Phase::Creating.next(Event::ExitChosen), Phase::Creating);
    assert!(Phase::Running.is_running());
    assert!(!Phase::Exiting.is_running());
}

#[test]
fn a_turn_ends_the_session_only_on_exit() {
    let game = Game::default();
    let player = ann();
    for choice in 0..4 {
        let (effect, phase) = game.tick(&player, choice);
        assert_eq!(effect, player.print_menu(choice));
        assert_eq!(phase, Phase::Running);
    }
    assert_eq!(game.tick(&player, 4), (MenuEffect::Exit, Phase::Exiting));
}

#[test]
fn the_shutdown_hook_ends_a_leaving_session() {
    assert_eq!(Game::exit_gracefully(Phase::Exiting), Phase::Terminated);
    assert_eq!(Game::exit_gracefully(Phase::Running), Phase::Running);
    assert_eq!(Game::exit_gracefully(Phase::Terminated), Phase::Terminated);
}

#[test]
fn a_first_session_from_boot_to_exit() {
    // No save folder: the session creates.
    let mut phase = Game::init(false);
    assert_eq!(phase, Phase::Creating);
    let world = Game::load(&[]).unwrap();
    assert!(world.fresh);
    let world_bytes = world.game.save();
    assert_eq!(Player::init(&[]), Ok(None));

    let names = NameSource {
        male_first_names: vec!["Adam".to_string()],
        female_first_names: vec!["Eve".to_string()],
        last_names: vec!["Smith".to_string()],
    };
    let human = Human::new(&names).expect("Time went backwards");
    assert!((17..=30).contains(&human.age));
    let base = human.attributes;
    for value in [base.intelligence, base.strength, base.charisma, base.luck, base.combat] {
        assert!(value <= 5);
    }

    // The player answers "2": Hard worker.
    let options = lifesim::entities::player::creation_options();
    assert_eq!(options[1], "Hard worker (+3 Strength)");
    let choice = collect_with_options(options.len(), "2\n").unwrap();
    let player = Player::new(human, choice);
    assert_eq!(player.human.attributes, EntityAttributes { strength: base.strength + 3, ..base });
    let player_bytes = player.save();
    assert!(!world_bytes.is_empty() && !player_bytes.is_empty());

    phase = phase.next(Event::Established);
    assert_eq!(phase, Phase::Running);

    // A turn that shows the attributes, then the turn that leaves.
    let (effect, next) = world.game.tick(&player, collect_with_options(5, "2").unwrap());
    assert!(matches!(effect, MenuEffect::ShowAttributes { pause: 2000, .. }));
    assert_eq!(next, phase);
    let (effect, next) = world.game.tick(&player, collect_with_options(5, "5").unwrap());
    assert_eq!(effect, MenuEffect::Exit);
    phase = next;
    assert_eq!(phase, Phase::Exiting);
    phase = Game::exit_gracefully(phase);
    assert_eq!(phase, Phase::Terminated);

    // The next session resumes with what was persisted.
    assert_eq!(Game::init(true), Phase::Resuming);
    assert_eq!(Game::load(&world_bytes), Ok(LoadedGame { game: world.game, fresh: false }));
    assert_eq!(Player::init(&player_bytes), Ok(Some(player)));
}
