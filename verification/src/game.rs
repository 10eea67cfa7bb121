//! A session: the level the player is on, what lies and stands on it, what
//! the player carries, and the log.

use vstd::prelude::*;
use vstd::string::StringExecFns;
use crate::colors::{dark_red, orange, red, sky, white, Color};
use crate::dungeon::{generated, level_item, make_map};
use crate::messages::{framed, MessageLog, Messages};
use crate::object::{DeathCallback, Equipment, Item, Object, ObjectView, Slot, Stats};
use crate::rect::Rect;
use crate::tile::{grid_wf, TileGrid, MAP_HEIGHT, MAP_WIDTH};

verus! {

/// The most that the player can carry: one item for each letter of the
/// inventory menu.
pub const INVENTORY_CAPACITY: usize = 26;

/// The state of a session.
#[derive(Debug, PartialEq)]
pub struct Game {
    pub map: TileGrid,
    pub log: Messages,
    pub inventory: Vec<Object>,
    pub dungeon_level: u32,
    pub objects: Vec<Object>,
}

/// A session as plain values: its collections as sequences, its log as text.
#[verifier::ext_equal]
pub struct GameView {
    pub map: TileGrid,
    pub log: Seq<(Seq<char>, Color)>,
    pub inventory: Seq<Object>,
    pub dungeon_level: u32,
    pub objects: Seq<Object>,
}

impl View for Game {
    type V = GameView;

    open spec fn view(&self) -> GameView {
        GameView {
            map: self.map,
            log: self.log.entries(),
            inventory: self.inventory@,
            dungeon_level: self.dungeon_level,
            objects: self.objects@,
        }
    }
}

/// Something in the inventory is worn in `slot`.
pub open spec fn slot_taken(inventory: Seq<Object>, slot: Slot) -> bool {
    exists|i: int| 0 <= i < inventory.len() && (#[trigger] inventory[i]).equipped_in(slot)
}

/// Both are worn, and in the same slot.
pub open spec fn clash(a: Object, b: Object) -> bool {
    &&& a.equipment is Some
    &&& b.equipment is Some
    &&& a.equipment.unwrap().equipped
    &&& b.equipment.unwrap().equipped
    &&& a.equipment.unwrap().slot == b.equipment.unwrap().slot
}

/// No slot holds two things at once.
pub open spec fn slots_exclusive(inventory: Seq<Object>) -> bool {
    forall|i: int, j: int|
        0 <= i < j < inventory.len() ==> !clash(#[trigger] inventory[i], #[trigger] inventory[j])
}

/// What is carried: items only, no more than fit, and no slot holds two of
/// them at once.
pub open spec fn inventory_wf(inventory: Seq<Object>) -> bool {
    &&& inventory.len() <= INVENTORY_CAPACITY
    &&& forall|i: int| 0 <= i < inventory.len() ==> (#[trigger] inventory[i]).item is Some
    &&& slots_exclusive(inventory)
}

/// What is on the level: the player, who is first, is an actor with sound
/// gauges and no item; and nothing on the level is worn.
pub open spec fn objects_wf(objects: Seq<Object>) -> bool {
    &&& objects.len() >= 1
    &&& objects[0].stats is Some
    &&& objects[0].stats.unwrap().wf()
    &&& objects[0].item is None
    &&& forall|i: int|
        0 <= i < objects.len() ==> (#[trigger] objects[i]).equipment is Some
            ==> !objects[i].equipment.unwrap().equipped
}

impl GameView {
    /// A session in good order.
    pub open spec fn wf(self) -> bool {
        &&& grid_wf(self.map)
        &&& inventory_wf(self.inventory)
        &&& objects_wf(self.objects)
    }
}

impl Game {
    /// A session in good order: see `GameView::wf`.
    pub open spec fn wf(self) -> bool {
        self@.wf()
    }
}

/// Whether a grid has the fixed dimensions.
pub fn grid_is_valid(map: &TileGrid) -> (ok: bool)
    ensures
        ok == grid_wf(*map),
{
    if map.len() != MAP_WIDTH as usize {
        return false;
    }
    let mut x: usize = 0;
    while x < map.len()
        invariant
            x <= map.len(),
            map.len() == MAP_WIDTH,
            forall|a: int| 0 <= a < x ==> (#[trigger] map[a]).len() == MAP_HEIGHT,
        decreases map.len() - x,
    {
        if map[x].len() != MAP_HEIGHT as usize {
            return false;
        }
        x += 1;
    }
    true
}

/// Whether both are worn, and in the same slot.
fn clashes(a: &Object, b: &Object) -> (hit: bool)
    ensures
        hit == clash(*a, *b),
{
    match (a.equipment, b.equipment) {
        (Some(first), Some(second)) => first.equipped && second.equipped && first.slot
            == second.slot,
        _ => false,
    }
}

/// Whether what is carried is in good order: see `inventory_wf`.
pub fn inventory_is_valid(inventory: &[Object]) -> (ok: bool)
    ensures
        ok == inventory_wf(inventory@),
{
    if inventory.len() > INVENTORY_CAPACITY {
        return false;
    }
    let mut j: usize = 0;
    while j < inventory.len()
        invariant
            j <= inventory.len(),
            forall|k: int| 0 <= k < j ==> (#[trigger] inventory@[k]).item is Some,
            forall|a: int, b: int|
                0 <= a < b < j ==> !clash(#[trigger] inventory@[a], #[trigger] inventory@[b]),
        decreases inventory.len() - j,
    {
        if inventory[j].item.is_none() {
            return false;
        }
        let mut i: usize = 0;
        while i < j
            invariant
                i <= j < inventory.len(),
                forall|a: int| 0 <= a < i ==> !clash(#[trigger] inventory@[a], inventory@[j as int]),
            decreases j - i,
        {
            if clashes(&inventory[i], &inventory[j]) {
                return false;
            }
            i += 1;
        }
        j += 1;
    }
    true
}

/// Whether what is on the level is in good order: see `objects_wf`.
pub fn objects_are_valid(objects: &[Object]) -> (ok: bool)
    ensures
        ok == objects_wf(objects@),
{
    if objects.len() == 0 {
        return false;
    }
    match objects[0].stats {
        Some(stats) => {
            if !stats.is_valid() {
                return false;
            }
        },
        None => {
            return false;
        },
    }
    if objects[0].item.is_some() {
        return false;
    }
    let mut i: usize = 0;
    while i < objects.len()
        invariant
            i <= objects.len(),
            forall|k: int|
                0 <= k < i ==> (#[trigger] objects@[k]).equipment is Some
                    ==> !objects@[k].equipment.unwrap().equipped,
        decreases objects.len() - i,
    {
        match objects[i].equipment {
            Some(equipment) => {
                if equipment.equipped {
                    return false;
                }
            },
            None => {},
        }
        i += 1;
    }
    true
}

impl Game {
    /// Whether the session is in good order: see `GameView::wf`. A session
    /// that comes from outside, from a saved game, is to be held to this
    /// before it is played.
    pub fn is_valid(&self) -> (ok: bool)
        ensures
            ok == self.wf(),
    {
        grid_is_valid(&self.map) && inventory_is_valid(self.inventory.as_slice())
            && objects_are_valid(self.objects.as_slice())
    }
}

/// The gauges of a new player: all full.
pub open spec fn full_stats() -> Stats {
    Stats {
        base_max_all_stats: 100,
        hunger: 100,
        comfort: 100,
        hygiene: 100,
        bladder: 100,
        energy: 100,
        fun: 100,
        social: 100,
        room: 100,
        on_death: DeathCallback::Player,
    }
}

/// A new player as it stands at `(x, y)`.
pub open spec fn new_player_view(x: i32, y: i32) -> ObjectView {
    ObjectView {
        x,
        y,
        char: '@',
        color: white(),
        name: "player"@,
        blocks: true,
        alive: true,
        stats: Some(full_stats()),
        ai: None,
        item: None,
        equipment: None,
        always_visible: false,
    }
}

/// The weapon that a new player carries: a dagger, worn in the left hand.
pub open spec fn dagger_view() -> ObjectView {
    ObjectView {
        x: 0,
        y: 0,
        char: '-',
        color: sky(),
        name: "dagger"@,
        blocks: false,
        alive: false,
        stats: None,
        ai: None,
        item: Some(Item::Sword),
        equipment: Some(
            Equipment {
                equipped: true,
                slot: Slot::LeftHand,
                max_hp_bonus: 0,
                defense_bonus: 0,
                power_bonus: 2,
            },
        ),
        always_visible: false,
    }
}

/// The first message of a session.
pub open spec fn welcome_text() -> Seq<char> {
    "Welcome to your new home!"@
}

/// The message on the way down.
pub open spec fn descend_text() -> Seq<char> {
    "After a rare moment of peace, you descend deeper into the heart of the dungeon..."@
}

/// A player in good order: an actor with sound gauges who is no item and
/// wears nothing.
pub open spec fn player_wf(player: Object) -> bool {
    &&& player.stats is Some
    &&& player.stats.unwrap().wf()
    &&& player.item is None
    &&& player.equipment is Some ==> !player.equipment.unwrap().equipped
}

/// On a generated level the player is the one actor: nothing else has
/// gauges or is alive, and nothing lies about that is worn.
pub proof fn lemma_generated_objects(
    map: TileGrid,
    rooms: Seq<Rect>,
    objects: Seq<Object>,
    player: Object,
    level: u32,
)
    requires
        generated(map, rooms, objects, player, level),
    ensures
        forall|j: int|
            1 <= j < objects.len() ==> (#[trigger] objects[j]).stats is None && !objects[j].alive
                && !objects[j].blocks,
        player_wf(player) ==> objects_wf(objects),
{
    assert forall|j: int| 1 <= j < objects.len() implies (#[trigger] objects[j]).stats is None
        && !objects[j].alive && !objects[j].blocks && (objects[j].equipment is Some
        ==> !objects[j].equipment.unwrap().equipped) by {
        if j < objects.len() - 1 {
            assert(level_item(objects, j, rooms, level));
        } else {
            assert(objects[j] == objects.last());
        }
    }
    if player_wf(player) {
        assert forall|i: int| 0 <= i < objects.len() && (#[trigger] objects[i]).equipment
            is Some implies !objects[i].equipment.unwrap().equipped by {
            if i >= 1 {
                assert(objects[i].stats is None);
            }
        }
    }
}

/// `after` is `before` one level further down: the log has gained the message
/// of the descent, the level counts one more, and a level has been generated
/// for it around the player. What the player carries is untouched.
pub open spec fn descended(before: GameView, after: GameView) -> bool {
    &&& after.log == before.log.push((descend_text(), red()))
    &&& after.dungeon_level == before.dungeon_level + 1
    &&& after.inventory == before.inventory
    &&& exists|rooms: Seq<Rect>|
        generated(after.map, rooms, after.objects, before.objects[0], after.dungeon_level)
}

/// A new session: level one of a fresh dungeon, the player with full gauges
/// in its first room, a dagger in the left hand, and a welcome in the log.
pub fn new_game() -> (game: Game)
    ensures
        game.wf(),
        game.dungeon_level == 1,
        game.log.entries() == seq![(welcome_text(), red())],
        game.inventory.len() == 1,
        game.inventory[0]@ == dagger_view(),
        exists|rooms: Seq<Rect>, player: Object|
            player@ == new_player_view(0, 0) && generated(
                game.map,
                rooms,
                game.objects@,
                player,
                1,
            ),
        forall|j: int| 1 <= j < game.objects.len() ==> (#[trigger] game.objects[j]).stats is None,
{
    // create object representing the player
    let mut player = Object::new(0, 0, '@', "player", white(), true);
    player.alive = true;
    player.stats = Some(
        Stats {
            base_max_all_stats: 100,
            hunger: 100,
            comfort: 100,
            hygiene: 100,
            bladder: 100,
            energy: 100,
            fun: 100,
            social: 100,
            room: 100,
            on_death: DeathCallback::Player,
        },
    );
    let ghost start = player;

    let mut objects: Vec<Object> = Vec::new();
    objects.push(player);
    let level: u32 = 1;

    // generate map (at this point it's not drawn to the screen)
    let generated_level = make_map(&mut objects, level);
    let ghost rooms = generated_level.rooms@;
    let mut game = Game {
        map: generated_level.map,
        // create the list of game messages and their colors, starts empty
        log: Vec::new(),
        inventory: Vec::new(),
        dungeon_level: level,
        objects: objects,
    };

    // initial equipment: a dagger
    let mut dagger = Object::new(0, 0, '-', "dagger", sky(), false);
    dagger.item = Some(Item::Sword);
    dagger.equipment = Some(
        Equipment {
            equipped: true,
            slot: Slot::LeftHand,
            max_hp_bonus: 0,
            defense_bonus: 0,
            power_bonus: 2,
        },
    );
    game.inventory.push(dagger);

    // a warm welcoming message!
    game.log.add(String::from_str("Welcome to your new home!"), red());

    proof {
        lemma_generated_objects(game.map, rooms, game.objects@, start, 1);
        assert(generated(game.map, rooms, game.objects@, start, 1));
        assert(game.log.entries() =~= seq![(welcome_text(), red())]);
    }
    game
}

/// Advance to the next level
pub fn next_level(game: &mut Game)
    requires
        old(game).objects.len() >= 1,
        old(game).dungeon_level < u32::MAX,
    ensures
        descended(old(game)@, final(game)@),
        old(game).wf() ==> final(game).wf(),
{
    game.log.add(
        String::from_str(
            "After a rare moment of peace, you descend deeper into the heart of the dungeon...",
        ),
        red(),
    );
    game.dungeon_level += 1;
    let generated_level = make_map(&mut game.objects, game.dungeon_level);
    game.map = generated_level.map;
    proof {
        let rooms = generated_level.rooms@;
        let before = old(game)@;
        let after = game@;
        assert(generated(after.map, rooms, after.objects, before.objects[0], after.dungeon_level));
        assert(after.log == before.log.push((descend_text(), red())));
        assert(after.inventory == before.inventory);
        lemma_generated_objects(
            game.map,
            rooms,
            game.objects@,
            old(game).objects[0],
            game.dungeon_level,
        );
    }
}

/// The message for an actor that died.
pub open spec fn death_text(name: Seq<char>) -> Seq<char> {
    "Oh no! "@ + name + " is dead!"@
}

/// The name of what is left of an actor.
pub open spec fn remains_name(name: Seq<char>) -> Seq<char> {
    "remains of "@ + name
}

/// The game ended: the log says so and the player turns into a corpse.
pub fn player_death(player: &mut Object, game: &mut Game)
    ensures
        *final(player) == (Object { char: '%', color: dark_red(), ..*old(player) }),
        final(game)@ == (GameView { log: old(game)@.log.push(("You died!"@, red())), ..old(game)@ }),
{
    // the game ended!
    game.log.add(String::from_str("You died!"), red());

    // for added effect, transform the player into a corpse!
    player.char = '%';
    player.color = dark_red();
}

/// Transforms an actor into a corpse: it doesn't block, can't be attacked and
/// doesn't move.
pub fn npc_death(npc: &mut Object, game: &mut Game)
    ensures
        final(npc)@ == (ObjectView {
            char: '%',
            color: dark_red(),
            blocks: false,
            stats: None,
            ai: None,
            name: remains_name(old(npc).name@),
            ..old(npc)@
        }),
        final(game)@ == (GameView {
            log: old(game)@.log.push((death_text(old(npc).name@), orange())),
            ..old(game)@
        }),
{
    let text = framed("Oh no! ", npc.name.as_str(), " is dead!");
    game.log.add(text, orange());
    npc.char = '%';
    npc.color = dark_red();
    npc.blocks = false;
    npc.stats = None;
    npc.ai = None;
    npc.name = framed("remains of ", npc.name.as_str(), "");
    proof {
        reveal_strlit("");
        assert(final(npc).name@ =~= remains_name(old(npc).name@));
    }
}

impl DeathCallback {
    /// Does what is due when `object` dies.
    pub fn callback(self, object: &mut Object, game: &mut Game)
        ensures
            match self {
                DeathCallback::Player => *final(object) == (Object {
                    char: '%',
                    color: dark_red(),
                    ..*old(object)
                }) && final(game)@ == (GameView {
                    log: old(game)@.log.push(("You died!"@, red())),
                    ..old(game)@
                }),
                DeathCallback::NPC => final(object)@ == (ObjectView {
                    char: '%',
                    color: dark_red(),
                    blocks: false,
                    stats: None,
                    ai: None,
                    name: remains_name(old(object).name@),
                    ..old(object)@
                }) && final(game)@ == (GameView {
                    log: old(game)@.log.push((death_text(old(object).name@), orange())),
                    ..old(game)@
                }),
            },
    {
        match self {
            DeathCallback::Player => player_death(object, game),
            DeathCallback::NPC => npc_death(object, game),
        }
    }
}

} // verus!
