//! The world state and the life cycle of a session.

use crate::entities::player::{MenuEffect, MenuEffectView, Player, MENU_OPTIONS};
use crate::util::snapshot::{
    lemma_long_round_trip, lemma_word_round_trip, long_at_front, long_image, put_long, put_word,
    take_long, take_word, word_at_front, word_image, SnapshotError,
};
use vstd::prelude::*;

verus! {

/// The folder that holds the snapshots. That it is missing is the one sign
/// of a first run.
pub const SAVE_FOLDER: &'static str = "saved";

/// Where the snapshot of the world lies.
pub const GAME_FILEPATH: &'static str = "saved/game.dat";

/// Where simulated time starts, in seconds since the Unix epoch.
pub const GAME_START_EPOCH: u64 = 1672549200;

/// How many nanoseconds make a second.
pub const NANOS_PER_SEC: u32 = 1_000_000_000;

/// A point in time: whole seconds since the Unix epoch and the nanoseconds
/// into the second that follows.
#[derive(Clone, Copy, Debug, PartialEq, Eq, Structural)]
pub struct Timestamp {
    pub secs_since_epoch: u64,
    pub nanos_since_epoch: u32,
}

impl Timestamp {
    /// The nanoseconds stay below one second.
    pub open spec fn wf(self) -> bool {
        self.nanos_since_epoch < NANOS_PER_SEC
    }

    /// The bytes of the timestamp in a snapshot: the seconds as a 64-bit
    /// word, then the nanoseconds as a 32-bit word.
    pub open spec fn image(self) -> Seq<u8> {
        long_image(self.secs_since_epoch) + word_image(self.nanos_since_epoch)
    }

    /// The timestamp that `secs` seconds and `nanos` nanoseconds come to,
    /// with the whole seconds among the nanoseconds carried over. There is
    /// none where the seconds pass what a 64-bit word holds.
    pub open spec fn carried(secs: u64, nanos: u32) -> Option<Timestamp> {
        if secs + nanos / NANOS_PER_SEC <= u64::MAX {
            Some(
                Timestamp {
                    secs_since_epoch: (secs + nanos / NANOS_PER_SEC) as u64,
                    nanos_since_epoch: nanos % NANOS_PER_SEC,
                },
            )
        } else {
            None
        }
    }

    /// The timestamp at the front of `bytes` and what follows it.
    pub open spec fn at_front(bytes: Seq<u8>) -> Option<(Timestamp, Seq<u8>)> {
        match long_at_front(bytes) {
            Some((secs, rest)) => match word_at_front(rest) {
                Some((nanos, rest)) => match Timestamp::carried(secs, nanos) {
                    Some(time) => Some((time, rest)),
                    None => None,
                },
                None => None,
            },
            None => None,
        }
    }
}

/// A world as [`Game::load`] found it.
#[derive(Clone, Copy, Debug, PartialEq, Eq, Structural)]
pub struct LoadedGame {
    pub game: Game,
    /// The snapshot was empty and the world is new: it has to be persisted
    /// at once.
    pub fresh: bool,
}

/// The world state: simulated time.
#[derive(Clone, Copy, Debug, PartialEq, Eq, Structural)]
pub struct Game {
    pub time: Timestamp,
}

/// Where a session stands.
#[derive(Clone, Copy, Debug, PartialEq, Eq, Structural)]
pub enum Phase {
    /// Nothing is known of the save folder yet.
    Uninitialized,
    /// There was no save folder: world and player are being made.
    Creating,
    /// There was a save folder: world and player are being loaded.
    Resuming,
    /// World and player stand: turns are being played.
    Running,
    /// The player chose to leave: the shutdown hook is due.
    Exiting,
    /// The session is over. No turn follows.
    Terminated,
}

/// What can happen to a session.
#[derive(Clone, Copy, Debug, PartialEq, Eq, Structural)]
pub enum Event {
    /// The save folder was looked for.
    SaveFolderProbed { exists: bool },
    /// World and player stand in memory and on disk.
    Established,
    /// A turn was played and did not end the session.
    TurnPlayed,
    /// A turn was played, the player chose to leave and was persisted.
    ExitChosen,
    /// The shutdown hook has run.
    ShutdownHookRan,
}

impl Phase {
    /// The phase that follows `self` on `event`. An event that the phase does
    /// not wait for changes nothing.
    pub open spec fn after(self, event: Event) -> Phase {
        match (self, event) {
            (Phase::Uninitialized, Event::SaveFolderProbed { exists }) => if exists {
                Phase::Resuming
            } else {
                Phase::Creating
            },
            (Phase::Creating, Event::Established) => Phase::Running,
            (Phase::Resuming, Event::Established) => Phase::Running,
            (Phase::Running, Event::TurnPlayed) => Phase::Running,
            (Phase::Running, Event::ExitChosen) => Phase::Exiting,
            (Phase::Exiting, Event::ShutdownHookRan) => Phase::Terminated,
            _ => self,
        }
    }

    /// How far a session has come: a phase never goes back.
    pub open spec fn rank(self) -> nat {
        match self {
            Phase::Uninitialized => 0,
            Phase::Creating => 1,
            Phase::Resuming => 1,
            Phase::Running => 2,
            Phase::Exiting => 3,
            Phase::Terminated => 4,
        }
    }

    /// Moves the session on by `event`.
    pub fn next(self, event: Event) -> (phase: Phase)
        ensures
            phase == self.after(event),
    {
        match self {
            Phase::Uninitialized => match event {
                Event::SaveFolderProbed { exists } => if exists {
                    Phase::Resuming
                } else {
                    Phase::Creating
                },
                _ => self,
            },
            Phase::Creating => match event {
                Event::Established => Phase::Running,
                _ => self,
            },
            Phase::Resuming => match event {
                Event::Established => Phase::Running,
                _ => self,
            },
            Phase::Running => match event {
                Event::TurnPlayed => Phase::Running,
                Event::ExitChosen => Phase::Exiting,
                _ => self,
            },
            Phase::Exiting => match event {
                Event::ShutdownHookRan => Phase::Terminated,
                _ => self,
            },
            Phase::Terminated => self,
        }
    }

    /// Whether turns are played in this phase.
    pub fn is_running(&self) -> (yes: bool)
        ensures
            yes == (*self == Phase::Running),
    {
        match self {
            Phase::Running => true,
            _ => false,
        }
    }
}

/// Only the choice to leave takes a session out of its turns, only the
/// shutdown hook ends it, and an ended session stays ended.
pub proof fn lemma_exit_is_the_only_way_out(phase: Phase, event: Event)
    ensures
        phase.rank() <= phase.after(event).rank(),
        phase == Phase::Running && phase.after(event) != Phase::Running ==> event
            == Event::ExitChosen,
        phase != Phase::Terminated && phase.after(event) == Phase::Terminated ==> phase
            == Phase::Exiting && event == Event::ShutdownHookRan,
        Phase::Terminated.after(event) == Phase::Terminated,
{
}

/// A world whose time is well formed is loaded from its snapshot as it was
/// saved, and is not taken for a new one.
pub proof fn lemma_world_round_trip(game: Game)
    requires
        game.time.wf(),
    ensures
        Game::loaded(game.image()) == Ok::<LoadedGame, SnapshotError>(
            LoadedGame { game, fresh: false },
        ),
        game.image().len() == 12,
{
    let time = game.time;
    let tail = word_image(time.nanos_since_epoch);
    lemma_long_round_trip(time.secs_since_epoch, tail);
    lemma_word_round_trip(time.nanos_since_epoch, Seq::empty());
    assert(tail + Seq::<u8>::empty() =~= tail);
    assert(time.nanos_since_epoch / NANOS_PER_SEC == 0);
    assert(time.nanos_since_epoch % NANOS_PER_SEC == time.nanos_since_epoch);
}

/// Loading from a snapshot that was never written gives the world at the
/// start of simulated time and asks for it to be persisted; loading from
/// what is then persisted gives the same world again.
pub proof fn lemma_empty_bootstrap_is_idempotent()
    ensures
        Game::loaded(Seq::empty()) == Ok::<LoadedGame, SnapshotError>(
            LoadedGame { game: Game::initial(), fresh: true },
        ),
        Game::loaded(Game::initial().image()) == Ok::<LoadedGame, SnapshotError>(
            LoadedGame { game: Game::initial(), fresh: false },
        ),
{
    lemma_world_round_trip(Game::initial());
}

impl Default for Game {
    /// The world at the start of simulated time.
    fn default() -> (game: Self)
        ensures
            game == Game::initial(),
    {
        Game { time: Timestamp { secs_since_epoch: GAME_START_EPOCH, nanos_since_epoch: 0 } }
    }
}

impl Game {
    /// The world at the start of simulated time: a fixed date, whenever the
    /// session runs.
    pub open spec fn initial() -> Game {
        Game { time: Timestamp { secs_since_epoch: GAME_START_EPOCH, nanos_since_epoch: 0 } }
    }

    /// The event that a turn ends in, by what the player's choice asked for.
    pub open spec fn turn_event(effect: MenuEffectView) -> Event {
        if effect is Exit {
            Event::ExitChosen
        } else {
            Event::TurnPlayed
        }
    }

    /// The bytes of the world in a snapshot: its time.
    pub open spec fn image(self) -> Seq<u8> {
        self.time.image()
    }

    /// What loading makes of the bytes of a snapshot: of none the world at
    /// the start of simulated time, which is new; of any others the world
    /// that they hold at their front, if they hold one.
    pub open spec fn loaded(bytes: Seq<u8>) -> Result<LoadedGame, SnapshotError> {
        if bytes.len() == 0 {
            Ok(LoadedGame { game: Game::initial(), fresh: true })
        } else {
            match Timestamp::at_front(bytes) {
                Some((time, _)) => Ok(LoadedGame { game: Game { time }, fresh: false }),
                None => Err(SnapshotError::Decode),
            }
        }
    }

    /// Loads the world from the bytes of its snapshot. An empty snapshot
    /// stands for a world that was never stored: it gives the world at the
    /// start of simulated time, marked as new.
    pub fn load(bytes: &[u8]) -> (found: Result<LoadedGame, SnapshotError>)
        ensures
            found == Game::loaded(bytes@),
    {
        if bytes.len() == 0 {
            return Ok(LoadedGame { game: Game::default(), fresh: true });
        }
        assert(bytes@.skip(0) =~= bytes@);
        let (secs, at) = take_long(bytes, 0)?;
        let (nanos, _) = take_word(bytes, at)?;
        let whole = (nanos / NANOS_PER_SEC) as u64;
        match secs.checked_add(whole) {
            Some(carried) => Ok(
                LoadedGame {
                    game: Game {
                        time: Timestamp {
                            secs_since_epoch: carried,
                            nanos_since_epoch: nanos % NANOS_PER_SEC,
                        },
                    },
                    fresh: false,
                },
            ),
            None => Err(SnapshotError::Decode),
        }
    }

    /// Writes the world out as the bytes of its snapshot. The snapshot is
    /// never empty, and loading it gives this world back.
    pub fn save(&self) -> (bytes: Vec<u8>)
        ensures
            bytes@ == self.image(),
            bytes@.len() == 12,
            self.time.wf() ==> Game::loaded(bytes@) == Ok::<LoadedGame, SnapshotError>(
                LoadedGame { game: *self, fresh: false },
            ),
    {
        let mut out: Vec<u8> = Vec::new();
        put_long(&mut out, self.time.secs_since_epoch);
        put_word(&mut out, self.time.nanos_since_epoch);
        proof {
            assert(out@ =~= self.image());
            lemma_long_round_trip(self.time.secs_since_epoch, Seq::empty());
            lemma_word_round_trip(self.time.nanos_since_epoch, Seq::empty());
            if self.time.wf() {
                lemma_world_round_trip(*self);
            }
        }
        out
    }

    /// Starts a session: a save folder that exists is resumed from, one that
    /// does not is created.
    pub fn init(save_folder_exists: bool) -> (phase: Phase)
        ensures
            phase == Phase::Uninitialized.after(
                Event::SaveFolderProbed { exists: save_folder_exists },
            ),
            phase == if save_folder_exists {
                Phase::Resuming
            } else {
                Phase::Creating
            },
    {
        Phase::Uninitialized.next(Event::SaveFolderProbed { exists: save_folder_exists })
    }

    /// A world that is started, as opposed to loaded: the world at the start
    /// of simulated time.
    pub fn new() -> (game: Self)
        ensures
            game == Game::initial(),
    {
        Game::default()
    }

    /// Plays one turn of a running session: the player's `choice`, from
    /// zero, from the turn menu decides what the loop is asked to do and
    /// where the session stands after it.
    pub fn tick(&self, player: &Player, choice: usize) -> (turn: (MenuEffect, Phase))
        requires
            choice < MENU_OPTIONS,
        ensures
            turn.0@ == Player::menu_effect(player.human@, choice as int),
            turn.1 == Phase::Running.after(Game::turn_event(turn.0@)),
            turn.1 == if choice == MENU_OPTIONS - 1 {
                Phase::Exiting
            } else {
                Phase::Running
            },
    {
        let effect = player.print_menu(choice);
        let event = if effect.is_shutdown() {
            Event::ExitChosen
        } else {
            Event::TurnPlayed
        };
        (effect, Phase::Running.next(event))
    }

    /// The shutdown hook: ends a session that is leaving. It does nothing
    /// else.
    pub fn exit_gracefully(phase: Phase) -> (ended: Phase)
        ensures
            ended == phase.after(Event::ShutdownHookRan),
            phase == Phase::Exiting ==> ended == Phase::Terminated,
    {
        phase.next(Event::ShutdownHookRan)
    }
}

} // verus!
