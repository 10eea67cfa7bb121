//! The turn: what a key means, and what a command does to the session.
//!
//! Where a command needs something from outside first (a choice from a menu,
//! a new field of view), the session is left as it is and the caller is told
//! what to get; it comes back with `handle_choice`.

use vstd::prelude::*;
use vstd::string::StringExecFns;
use crate::dungeon::PLAYER;
use crate::game::{descended, Game, GameView};
use crate::game::next_level;
use crate::inventory::{
    drop_item, lemma_drop_item_wf, lemma_pick_item_up_wf, lemma_use_item_wf, pick_item_up,
    use_item,
};
use crate::movement::{move_by, spec_move_by};
use crate::object::{Object, Stats};

verus! {

/// The keys that the game tells apart by their code.
#[derive(Clone, Copy, Debug, PartialEq, Eq, Structural)]
pub enum KeyCode {
    NoKey,
    Enter,
    Escape,
    Up,
    Down,
    Left,
    Right,
    Home,
    PageUp,
    End,
    PageDown,
    NumPad1,
    NumPad2,
    NumPad3,
    NumPad4,
    NumPad5,
    NumPad6,
    NumPad7,
    NumPad8,
    NumPad9,
    Char,
    Other,
}

/// A key press: the key's code, the character that it prints, and whether Alt
/// was held.
#[derive(Clone, Copy, Debug, PartialEq, Eq, Structural)]
pub struct Key {
    pub code: KeyCode,
    pub printable: char,
    pub alt: bool,
}

/// What the player asks for.
#[derive(Clone, Copy, Debug, PartialEq, Eq, Structural)]
pub enum Command {
    /// Switch between window and full screen.
    ToggleFullscreen,
    /// Leave the game.
    Exit,
    /// Step by `(dx, dy)`.
    Move { dx: i32, dy: i32 },
    /// Let a turn pass.
    Wait,
    /// Pick up what lies under the player.
    PickUp,
    /// Choose an item and use it.
    UseItem,
    /// Choose an item and drop it.
    DropItem,
    /// Take the stairs down.
    Descend,
    /// Show the player's gauges.
    ShowCharacter,
    /// Nothing that the game knows.
    Nothing,
}

/// What became of a command.
#[derive(Clone, Copy, Debug, PartialEq, Eq, Structural)]
pub enum PlayerAction {
    TookTurn,
    DidntTakeTurn,
    Exit,
}

/// What the caller has to do after a command, before the next one.
#[derive(Clone, Copy, Debug, PartialEq, Eq, Structural)]
pub enum Prompt {
    /// Nothing.
    Nothing,
    /// Switch between window and full screen.
    ToggleFullscreen,
    /// Show the inventory, and hand the choice to `handle_choice`.
    ChooseItemToUse,
    /// Show the inventory, and hand the choice to `handle_choice`.
    ChooseItemToDrop,
    /// Show these gauges.
    ShowCharacter(Stats),
    /// The player is on a new level: work out the field of view afresh.
    LevelChanged,
}

/// The command that a key stands for. Alt with Enter and Escape work at any
/// time, the rest only while the player is alive. The keys to move go by
/// their code, the others by the character that they print.
pub open spec fn spec_command_for(key: Key, player_alive: bool) -> Command {
    if key.code == KeyCode::Enter && key.alt {
        Command::ToggleFullscreen
    } else if key.code == KeyCode::Escape {
        Command::Exit
    } else if !player_alive {
        Command::Nothing
    } else {
        match key.code {
            KeyCode::Up | KeyCode::NumPad8 => Command::Move { dx: 0, dy: (-1) as i32 },
            KeyCode::Down | KeyCode::NumPad2 => Command::Move { dx: 0, dy: 1 },
            KeyCode::Left | KeyCode::NumPad4 => Command::Move { dx: (-1) as i32, dy: 0 },
            KeyCode::Right | KeyCode::NumPad6 => Command::Move { dx: 1, dy: 0 },
            KeyCode::Home | KeyCode::NumPad7 => Command::Move { dx: (-1) as i32, dy: (-1) as i32 },
            KeyCode::PageUp | KeyCode::NumPad9 => Command::Move { dx: 1, dy: (-1) as i32 },
            KeyCode::End | KeyCode::NumPad1 => Command::Move { dx: (-1) as i32, dy: 1 },
            KeyCode::PageDown | KeyCode::NumPad3 => Command::Move { dx: 1, dy: 1 },
            KeyCode::NumPad5 => Command::Wait,
            _ => if key.printable == 'g' {
                Command::PickUp
            } else if key.printable == 'i' {
                Command::UseItem
            } else if key.printable == 'd' {
                Command::DropItem
            } else if key.printable == '<' {
                Command::Descend
            } else if key.printable == 'c' {
                Command::ShowCharacter
            } else {
                Command::Nothing
            },
        }
    }
}

/// The command that a key stands for.
pub fn command_for(key: Key, player_alive: bool) -> (command: Command)
    ensures
        command == spec_command_for(key, player_alive),
{
    match (key.code, key.alt, player_alive) {
        // Alt+Enter: toggle fullscreen
        (KeyCode::Enter, true, _) => Command::ToggleFullscreen,
        // exit game
        (KeyCode::Escape, _, _) => Command::Exit,
        // movement keys
        (KeyCode::Up, _, true) | (KeyCode::NumPad8, _, true) => Command::Move { dx: 0, dy: -1 },
        (KeyCode::Down, _, true) | (KeyCode::NumPad2, _, true) => Command::Move { dx: 0, dy: 1 },
        (KeyCode::Left, _, true) | (KeyCode::NumPad4, _, true) => Command::Move { dx: -1, dy: 0 },
        (KeyCode::Right, _, true) | (KeyCode::NumPad6, _, true) => Command::Move { dx: 1, dy: 0 },
        (KeyCode::Home, _, true) | (KeyCode::NumPad7, _, true) => Command::Move { dx: -1, dy: -1 },
        (KeyCode::PageUp, _, true) | (KeyCode::NumPad9, _, true) => Command::Move { dx: 1, dy: -1 },
        (KeyCode::End, _, true) | (KeyCode::NumPad1, _, true) => Command::Move { dx: -1, dy: 1 },
        (KeyCode::PageDown, _, true) | (KeyCode::NumPad3, _, true) => Command::Move {
            dx: 1,
            dy: 1,
        },
        // do nothing, i.e. wait for the monster to come to you
        (KeyCode::NumPad5, _, true) => Command::Wait,
        (_, _, true) => {
            if key.printable == 'g' {
                // pick up an item
                Command::PickUp
            } else if key.printable == 'i' {
                // show the inventory: if an item is selected, use it
                Command::UseItem
            } else if key.printable == 'd' {
                // show the inventory; if an item is selected, drop it
                Command::DropItem
            } else if key.printable == '<' {
                // go down stairs, if the player is on them
                Command::Descend
            } else if key.printable == 'c' {
                // show character information
                Command::ShowCharacter
            } else {
                Command::Nothing
            }
        },
        _ => Command::Nothing,
    }
}

/// Whether a command takes a turn, takes none, or ends the game: moving and
/// waiting take a turn, leaving ends the game, and nothing else takes a turn.
pub open spec fn spec_player_action(command: Command) -> PlayerAction {
    match command {
        Command::Exit => PlayerAction::Exit,
        Command::Move { .. } => PlayerAction::TookTurn,
        Command::Wait => PlayerAction::TookTurn,
        _ => PlayerAction::DidntTakeTurn,
    }
}

/// The object is an item that lies at `(x, y)`.
pub open spec fn is_item_at(object: Object, x: int, y: int) -> bool {
    object.x == x && object.y == y && object.item is Some
}

/// The index of the first item at `(x, y)` among the objects from index
/// `start` on, if there is one.
pub open spec fn first_item_from(objects: Seq<Object>, x: int, y: int, start: int) -> Option<int>
    decreases objects.len() - start,
{
    if start < 0 || start >= objects.len() {
        None
    } else if is_item_at(objects[start], x, y) {
        Some(start)
    } else {
        first_item_from(objects, x, y, start + 1)
    }
}

/// The index of the first item at `(x, y)`, if there is one.
pub open spec fn first_item_at(objects: Seq<Object>, x: int, y: int) -> Option<int> {
    first_item_from(objects, x, y, 0)
}

/// What `first_item_from` finds is an item at `(x, y)` with none such between
/// `start` and it; it finds nothing only where no item lies at `(x, y)` from
/// `start` on.
pub proof fn lemma_first_item_from(objects: Seq<Object>, x: int, y: int, start: int)
    requires
        0 <= start,
    ensures
        match first_item_from(objects, x, y, start) {
            Some(i) => start <= i < objects.len() && is_item_at(objects[i], x, y) && forall|
                j: int,
            |
                start <= j < i ==> !is_item_at(#[trigger] objects[j], x, y),
            None => forall|j: int|
                start <= j < objects.len() ==> !is_item_at(#[trigger] objects[j], x, y),
        },
    decreases objects.len() - start,
{
    if start < objects.len() && !is_item_at(objects[start], x, y) {
        lemma_first_item_from(objects, x, y, start + 1);
    }
}

/// The index of the first item at `(x, y)`, if there is one.
pub fn find_item_at(objects: &[Object], x: i32, y: i32) -> (found: Option<usize>)
    ensures
        first_item_at(objects@, x as int, y as int) == match found {
            Some(i) => Some(i as int),
            None => None,
        },
        found is Some ==> found.unwrap() < objects.len() && is_item_at(
            objects@[found.unwrap() as int],
            x as int,
            y as int,
        ),
{
    let mut i: usize = 0;
    while i < objects.len()
        invariant
            i <= objects.len(),
            first_item_at(objects@, x as int, y as int) == first_item_from(
                objects@,
                x as int,
                y as int,
                i as int,
            ),
        decreases objects.len() - i,
    {
        if objects[i].x == x && objects[i].y == y && objects[i].item.is_some() {
            return Some(i);
        }
        i += 1;
    }
    None
}

/// The object is a flight of stairs at `(x, y)`.
pub open spec fn is_stairs_at(object: Object, x: int, y: int) -> bool {
    object.x == x && object.y == y && object.name@ == "stairs"@
}

/// The player stands on stairs.
pub open spec fn on_stairs(objects: Seq<Object>) -> bool {
    exists|i: int|
        0 <= i < objects.len() && is_stairs_at(
            #[trigger] objects[i],
            objects[0].x as int,
            objects[0].y as int,
        )
}

/// Whether the player stands on stairs.
pub fn player_on_stairs(objects: &[Object]) -> (on: bool)
    requires
        objects.len() > 0,
    ensures
        on == on_stairs(objects@),
{
    let stairs = String::from_str("stairs");
    let x: i32 = objects[0].x;
    let y: i32 = objects[0].y;
    let mut i: usize = 0;
    while i < objects.len()
        invariant
            i <= objects.len(),
            objects.len() > 0,
            x == objects@[0].x,
            y == objects@[0].y,
            stairs@ == "stairs"@,
            forall|k: int| 0 <= k < i ==> !is_stairs_at(#[trigger] objects@[k], x as int, y as int),
        decreases objects.len() - i,
    {
        if objects[i].x == x && objects[i].y == y && objects[i].name == stairs {
            return true;
        }
        i += 1;
    }
    false
}

impl GameView {
    /// The session after a command that needs nothing from outside. Moving
    /// moves the player if its way is free; picking up takes the first item
    /// under the player, if one lies there; everything else leaves the
    /// session as it is.
    pub open spec fn resolve(self, command: Command) -> GameView {
        match command {
            Command::Move { dx, dy } => GameView {
                objects: spec_move_by(0, dx as int, dy as int, self.map, self.objects),
                ..self
            },
            Command::PickUp => match first_item_at(
                self.objects,
                self.objects[0].x as int,
                self.objects[0].y as int,
            ) {
                Some(id) => self.pick_item_up(id),
                None => self,
            },
            _ => self,
        }
    }

    /// What the caller is asked to do after a command.
    pub open spec fn prompt(self, command: Command) -> Prompt {
        match command {
            Command::ToggleFullscreen => Prompt::ToggleFullscreen,
            Command::UseItem => Prompt::ChooseItemToUse,
            Command::DropItem => Prompt::ChooseItemToDrop,
            Command::Descend => if on_stairs(self.objects) {
                Prompt::LevelChanged
            } else {
                Prompt::Nothing
            },
            Command::ShowCharacter => match self.objects[0].stats {
                Some(stats) => Prompt::ShowCharacter(stats),
                None => Prompt::Nothing,
            },
            _ => Prompt::Nothing,
        }
    }

    /// The session after the player has chosen from the inventory, or has
    /// chosen nothing: the chosen item is used or dropped, as the prompt
    /// asked. A choice that names no item changes nothing, and neither does
    /// any other prompt.
    pub open spec fn after_choice(self, prompt: Prompt, choice: Option<usize>) -> GameView {
        match (prompt, choice) {
            (Prompt::ChooseItemToUse, Some(id)) => if id < self.inventory.len() {
                self.use_item(id as int)
            } else {
                self
            },
            (Prompt::ChooseItemToDrop, Some(id)) => if id < self.inventory.len() {
                self.drop_item(id as int)
            } else {
                self
            },
            _ => self,
        }
    }
}

/// Carries out a command.
///
/// Going down the stairs, for a player who stands on them, makes a new
/// level: see `descended`. Every other command does what `GameView::resolve`
/// says. A session in good order stays so.
pub fn resolve(command: Command, game: &mut Game) -> (outcome: (PlayerAction, Prompt))
    requires
        old(game).objects.len() > 0,
        command == Command::Descend && on_stairs(old(game).objects@) ==> old(game).dungeon_level
            < u32::MAX,
    ensures
        outcome.0 == spec_player_action(command),
        outcome.1 == old(game)@.prompt(command),
        if command == Command::Descend && on_stairs(old(game)@.objects) {
            descended(old(game)@, final(game)@)
        } else {
            final(game)@ == old(game)@.resolve(command)
        },
        old(game).wf() ==> final(game).wf(),
{
    match command {
        Command::ToggleFullscreen => (PlayerAction::DidntTakeTurn, Prompt::ToggleFullscreen),
        Command::Exit => (PlayerAction::Exit, Prompt::Nothing),
        Command::Move { dx, dy } => {
            move_by(PLAYER, dx, dy, &game.map, game.objects.as_mut_slice());
            (PlayerAction::TookTurn, Prompt::Nothing)
        },
        Command::Wait => (PlayerAction::TookTurn, Prompt::Nothing),
        Command::PickUp => {
            // pick up an item
            let x: i32 = game.objects[PLAYER].x;
            let y: i32 = game.objects[PLAYER].y;
            let item_id = find_item_at(game.objects.as_slice(), x, y);
            if let Some(item_id) = item_id {
                proof {
                    if game.wf() {
                        lemma_pick_item_up_wf(game@, item_id as int);
                    }
                }
                pick_item_up(item_id, game);
            }
            (PlayerAction::DidntTakeTurn, Prompt::Nothing)
        },
        Command::UseItem => (PlayerAction::DidntTakeTurn, Prompt::ChooseItemToUse),
        Command::DropItem => (PlayerAction::DidntTakeTurn, Prompt::ChooseItemToDrop),
        Command::Descend => {
            // go down stairs, if the player is on them
            if player_on_stairs(game.objects.as_slice()) {
                next_level(game);
                (PlayerAction::DidntTakeTurn, Prompt::LevelChanged)
            } else {
                (PlayerAction::DidntTakeTurn, Prompt::Nothing)
            }
        },
        Command::ShowCharacter => {
            // show character information
            match game.objects[PLAYER].stats {
                Some(stats) => (PlayerAction::DidntTakeTurn, Prompt::ShowCharacter(stats)),
                None => (PlayerAction::DidntTakeTurn, Prompt::Nothing),
            }
        },
        Command::Nothing => (PlayerAction::DidntTakeTurn, Prompt::Nothing),
    }
}

/// Carries out what a key stands for: see `command_for` and `resolve`.
pub fn handle_keys(key: Key, game: &mut Game) -> (outcome: (PlayerAction, Prompt))
    requires
        old(game).objects.len() > 0,
        spec_command_for(key, old(game).objects[0].alive) == Command::Descend && on_stairs(
            old(game).objects@,
        ) ==> old(game).dungeon_level < u32::MAX,
    ensures
        outcome.0 == spec_player_action(spec_command_for(key, old(game).objects[0].alive)),
        outcome.1 == old(game)@.prompt(spec_command_for(key, old(game).objects[0].alive)),
        if spec_command_for(key, old(game).objects[0].alive) == Command::Descend && on_stairs(
            old(game)@.objects,
        ) {
            descended(old(game)@, final(game)@)
        } else {
            final(game)@ == old(game)@.resolve(spec_command_for(key, old(game).objects[0].alive))
        },
        old(game).wf() ==> final(game).wf(),
{
    let player_alive: bool = game.objects[PLAYER].alive;
    resolve(command_for(key, player_alive), game)
}

/// Takes the player's choice from the inventory, made after `ChooseItemToUse`
/// or `ChooseItemToDrop`, and uses or drops the chosen item.
pub fn handle_choice(prompt: Prompt, choice: Option<usize>, game: &mut Game)
    requires
        old(game).objects.len() > 0,
        prompt == Prompt::ChooseItemToUse ==> old(game).objects[0].stats is Some,
    ensures
        final(game)@ == old(game)@.after_choice(prompt, choice),
        old(game).wf() ==> final(game).wf(),
{
    match (prompt, choice) {
        (Prompt::ChooseItemToUse, Some(inventory_index)) => {
            if inventory_index < game.inventory.len() {
                proof {
                    if game.wf() {
                        lemma_use_item_wf(game@, inventory_index as int);
                    }
                }
                use_item(inventory_index, game);
            }
        },
        (Prompt::ChooseItemToDrop, Some(inventory_index)) => {
            if inventory_index < game.inventory.len() {
                proof {
                    if game.wf() {
                        lemma_drop_item_wf(game@, inventory_index as int);
                    }
                }
                drop_item(inventory_index, game);
            }
        },
        _ => {},
    }
}

} // verus!
