//! Entities: the player, items, stairs and whatever else stands on a level,
//! with the optional capabilities that decide what each can do.

use vstd::prelude::*;
use vstd::string::StringExecFns;
use crate::colors::{light_green, light_yellow, red, Color};
use crate::messages::MessageLog;

verus! {

/// Where a piece of equipment is worn.
#[derive(Clone, Copy, Debug, PartialEq, Eq, Structural)]
pub enum Slot {
    LeftHand,
    RightHand,
    Head,
}

impl Slot {
    /// The slot's name as it appears in messages.
    pub open spec fn spec_text(self) -> Seq<char> {
        match self {
            Slot::LeftHand => "left hand"@,
            Slot::RightHand => "right hand"@,
            Slot::Head => "head"@,
        }
    }

    /// The slot's name as it appears in messages.
    pub fn as_str(&self) -> (text: &'static str)
        ensures
            text@ == self.spec_text(),
    {
        match self {
            Slot::LeftHand => "left hand",
            Slot::RightHand => "right hand",
            Slot::Head => "head",
        }
    }

    /// The slot's name as an owned string.
    pub fn to_string(&self) -> (text: String)
        ensures
            text@ == self.spec_text(),
    {
        String::from_str(self.as_str())
    }
}

/// An object that can be equipped, yielding bonuses.
#[derive(Clone, Copy, Debug, PartialEq, Eq, Structural)]
pub struct Equipment {
    pub slot: Slot,
    pub equipped: bool,
    pub max_hp_bonus: i32,
    pub defense_bonus: i32,
    pub power_bonus: i32,
}

/// What an item is: this selects the effect of using it.
#[derive(Clone, Copy, Debug, PartialEq, Eq, Structural)]
pub enum Item {
    Heal,
    Lightning,
    Confuse,
    Fireball,
    Sword,
    Shield,
}

/// How the use of an item ended.
#[derive(Clone, Copy, Debug, PartialEq, Eq, Structural)]
pub enum UseResult {
    UsedUp,
    UsedAndKept,
    Cancelled,
}

/// What happens to an actor when it dies.
#[derive(Clone, Copy, Debug, PartialEq, Eq, Structural)]
pub enum DeathCallback {
    Player,
    NPC,
}

/// How a monster decides what to do. Nothing advances it yet.
#[derive(Debug, PartialEq)]
pub enum Ai {
    Basic,
    Confused { previous_ai: Box<Ai>, num_turns: i32 },
}

impl Clone for Ai {
    fn clone(&self) -> (res: Self)
        ensures
            res == *self,
        decreases *self,
    {
        match self {
            Ai::Basic => Ai::Basic,
            Ai::Confused { previous_ai, num_turns } => Ai::Confused {
                previous_ai: Box::new((**previous_ai).clone()),
                num_turns: *num_turns,
            },
        }
    }
}

/// The needs of an actor: eight gauges with one common maximum.
#[derive(Clone, Copy, Debug, PartialEq, Eq, Structural)]
pub struct Stats {
    pub base_max_all_stats: i32,
    pub hunger: i32,
    pub comfort: i32,
    pub hygiene: i32,
    pub bladder: i32,
    pub energy: i32,
    pub fun: i32,
    pub social: i32,
    pub room: i32,
    pub on_death: DeathCallback,
}

impl Stats {
    /// Every gauge lies between zero and the common maximum.
    pub open spec fn wf(self) -> bool {
        &&& 0 <= self.hunger <= self.base_max_all_stats
        &&& 0 <= self.comfort <= self.base_max_all_stats
        &&& 0 <= self.hygiene <= self.base_max_all_stats
        &&& 0 <= self.bladder <= self.base_max_all_stats
        &&& 0 <= self.energy <= self.base_max_all_stats
        &&& 0 <= self.fun <= self.base_max_all_stats
        &&& 0 <= self.social <= self.base_max_all_stats
        &&& 0 <= self.room <= self.base_max_all_stats
    }

    /// Whether every gauge lies between zero and the common maximum.
    pub fn is_valid(&self) -> (ok: bool)
        ensures
            ok == self.wf(),
    {
        let max: i32 = self.base_max_all_stats;
        0 <= self.hunger && self.hunger <= max && 0 <= self.comfort && self.comfort <= max && 0
            <= self.hygiene && self.hygiene <= max && 0 <= self.bladder && self.bladder <= max && 0
            <= self.energy && self.energy <= max && 0 <= self.fun && self.fun <= max && 0
            <= self.social && self.social <= max && 0 <= self.room && self.room <= max
    }
}

/// A gauge raised by `amount` and held at `max`: the gauge never ends above
/// its maximum.
pub open spec fn spec_raised(value: int, amount: int, max: int) -> int {
    if value + amount > max {
        max
    } else {
        value + amount
    }
}

/// Raises a gauge by `amount`, stopping at `max`.
pub fn raised(value: i32, amount: i32, max: i32) -> (res: i32)
    requires
        0 <= amount,
    ensures
        res == spec_raised(value as int, amount as int, max as int),
        res <= max,
        0 <= value <= max ==> value <= res,
{
    let sum: i64 = value as i64 + amount as i64;
    if sum > max as i64 {
        max
    } else {
        sum as i32
    }
}

/// This is a generic object: the player, a monster, an item, the stairs...
/// It's always represented by a character on screen.
#[derive(Debug, PartialEq)]
pub struct Object {
    pub x: i32,
    pub y: i32,
    pub char: char,
    pub color: Color,
    pub name: String,
    pub blocks: bool,
    pub alive: bool,
    pub stats: Option<Stats>,
    pub ai: Option<Ai>,
    pub item: Option<Item>,
    pub equipment: Option<Equipment>,
    pub always_visible: bool,
}

/// An object as plain values: its name as a sequence of characters.
pub struct ObjectView {
    pub x: i32,
    pub y: i32,
    pub char: char,
    pub color: Color,
    pub name: Seq<char>,
    pub blocks: bool,
    pub alive: bool,
    pub stats: Option<Stats>,
    pub ai: Option<Ai>,
    pub item: Option<Item>,
    pub equipment: Option<Equipment>,
    pub always_visible: bool,
}

impl View for Object {
    type V = ObjectView;

    open spec fn view(&self) -> ObjectView {
        ObjectView {
            x: self.x,
            y: self.y,
            char: self.char,
            color: self.color,
            name: self.name@,
            blocks: self.blocks,
            alive: self.alive,
            stats: self.stats,
            ai: self.ai,
            item: self.item,
            equipment: self.equipment,
            always_visible: self.always_visible,
        }
    }
}

/// The text that `{:?}` gives for an object with these values.
pub uninterp spec fn debug_text(object: ObjectView) -> Seq<char>;

/// Formats an object with `std::format!` and `{:?}`, through the `Debug` that
/// the type derives. The text depends on the object's values alone; what it
/// reads like is not stated.
#[verifier::external_body]
fn debug_string(object: &Object) -> (text: String)
    ensures
        text@ == debug_text(object@),
{
    format!("{:?}", object)
}

/// The message for something equipped.
pub open spec fn equipped_text(name: Seq<char>, slot: Slot) -> Seq<char> {
    "Equipped "@ + name + " on "@ + slot.spec_text() + "."@
}

/// The message for something taken off.
pub open spec fn unequipped_text(name: Seq<char>, slot: Slot) -> Seq<char> {
    "unequipped "@ + name + " from "@ + slot.spec_text() + "."@
}

/// The message for an attempt to equip or unequip what is no item (`what` is
/// `"an Item"`) or no equipment (`"an Equipment"`).
pub open spec fn refusal_text(verb: Seq<char>, object: ObjectView, what: Seq<char>) -> Seq<char> {
    "Can't "@ + verb + " "@ + debug_text(object) + " because it's not "@ + what + "."@
}

/// Builds the refusal message.
fn refusal(verb: &str, object: &Object, what: &str) -> (text: String)
    ensures
        text@ == refusal_text(verb@, object@, what@),
{
    let mut text = String::from_str("Can't ");
    text.append(verb);
    text.append(" ");
    text.append(debug_string(object).as_str());
    text.append(" because it's not ");
    text.append(what);
    text.append(".");
    text
}

impl Object {
    /// The object after `equip`.
    pub open spec fn spec_equip(self) -> Object {
        if self.item is Some && self.equipment is Some {
            Object {
                equipment: Some(Equipment { equipped: true, ..self.equipment.unwrap() }),
                ..self
            }
        } else {
            self
        }
    }

    /// What `equip` writes to the log.
    pub open spec fn equip_entries(self) -> Seq<(Seq<char>, Color)> {
        if self.item is None {
            seq![(refusal_text("equip"@, self@, "an Item"@), red())]
        } else if self.equipment is None {
            seq![(refusal_text("equip"@, self@, "an Equipment"@), red())]
        } else if !self.equipment.unwrap().equipped {
            seq![(equipped_text(self.name@, self.equipment.unwrap().slot), light_green())]
        } else {
            Seq::empty()
        }
    }

    /// The object after `unequip`.
    pub open spec fn spec_unequip(self) -> Object {
        if self.item is Some && self.equipment is Some {
            Object {
                equipment: Some(Equipment { equipped: false, ..self.equipment.unwrap() }),
                ..self
            }
        } else {
            self
        }
    }

    /// What `unequip` writes to the log.
    pub open spec fn unequip_entries(self) -> Seq<(Seq<char>, Color)> {
        if self.item is None {
            seq![(refusal_text("unequip"@, self@, "an Item"@), red())]
        } else if self.equipment is None {
            seq![(refusal_text("unequip"@, self@, "an Equipment"@), red())]
        } else if self.equipment.unwrap().equipped {
            seq![(unequipped_text(self.name@, self.equipment.unwrap().slot), light_yellow())]
        } else {
            Seq::empty()
        }
    }

    /// Whether this is equipment that is worn in `slot` right now.
    pub open spec fn equipped_in(self, slot: Slot) -> bool {
        self.equipment is Some && self.equipment.unwrap().equipped && self.equipment.unwrap().slot
            == slot
    }

    /// The common maximum of the gauges, or zero for what has no stats.
    pub open spec fn spec_max(self) -> i32 {
        match self.stats {
            Some(stats) => stats.base_max_all_stats,
            None => 0,
        }
    }

    /// A new object with no capabilities. It is not alive and not always
    /// visible.
    pub fn new(x: i32, y: i32, char: char, name: &str, color: Color, blocks: bool) -> (object:
        Self)
        ensures
            object@ == (ObjectView {
                x,
                y,
                char,
                color,
                name: name@,
                blocks,
                alive: false,
                stats: None,
                ai: None,
                item: None,
                equipment: None,
                always_visible: false,
            }),
    {
        Object {
            x: x,
            y: y,
            char: char,
            color: color,
            name: String::from_str(name),
            blocks: blocks,
            alive: false,
            stats: None,
            ai: None,
            item: None,
            equipment: None,
            always_visible: false,
        }
    }

    /// The object's position.
    pub fn pos(&self) -> (p: (i32, i32))
        ensures
            p == (self.x, self.y),
    {
        (self.x, self.y)
    }

    /// Moves the object to `(x, y)`.
    pub fn set_pos(&mut self, x: i32, y: i32)
        ensures
            *final(self) == (Object { x, y, ..*old(self) }),
    {
        self.x = x;
        self.y = y;
    }

    /// The square of the distance to `(x, y)`.
    pub open spec fn spec_distance_squared(self, x: int, y: int) -> int {
        (x - self.x) * (x - self.x) + (y - self.y) * (y - self.y)
    }

    /// The square of the distance to some coordinates: the distance itself
    /// is its square root.
    pub fn distance_squared(&self, x: i32, y: i32) -> (d: u128)
        ensures
            d == self.spec_distance_squared(x as int, y as int),
    {
        let dx: i128 = x as i128 - self.x as i128;
        let dy: i128 = y as i128 - self.y as i128;
        assert(0 <= dx * dx <= 0x1_0000_0000 * 0x1_0000_0000) by (nonlinear_arith)
            requires
                -0x1_0000_0000 <= dx <= 0x1_0000_0000,
        ;
        assert(0 <= dy * dy <= 0x1_0000_0000 * 0x1_0000_0000) by (nonlinear_arith)
            requires
                -0x1_0000_0000 <= dy <= 0x1_0000_0000,
        ;
        (dx * dx + dy * dy) as u128
    }

    /// The square of the distance to another object.
    pub fn distance_squared_to(&self, other: &Object) -> (d: u128)
        ensures
            d == self.spec_distance_squared(other.x as int, other.y as int),
    {
        self.distance_squared(other.x, other.y)
    }

    /// Equip object and show a message about it. What is no item, or no
    /// equipment, stays as it is and the log says why; what is equipped
    /// already stays so in silence.
    pub fn equip(&mut self, log: &mut Vec<(String, Color)>)
        ensures
            *final(self) == old(self).spec_equip(),
            final(log).entries() == old(log).entries() + old(self).equip_entries(),
    {
        if self.item.is_none() {
            let text = refusal("equip", self, "an Item");
            log.add(text, red());
            return ;
        }
        match self.equipment {
            Some(equipment) => {
                if !equipment.equipped {
                    self.equipment = Some(Equipment { equipped: true, ..equipment });
                    let mut text = String::from_str("Equipped ");
                    text.append(self.name.as_str());
                    text.append(" on ");
                    text.append(equipment.slot.as_str());
                    text.append(".");
                    log.add(text, light_green());
                }
            },
            None => {
                let text = refusal("equip", self, "an Equipment");
                log.add(text, red());
            },
        }
    }

    /// Unequip object and show a message about it. What is no item, or no
    /// equipment, stays as it is and the log says why; what is not equipped
    /// stays so in silence.
    pub fn unequip(&mut self, log: &mut Vec<(String, Color)>)
        ensures
            *final(self) == old(self).spec_unequip(),
            final(log).entries() == old(log).entries() + old(self).unequip_entries(),
    {
        if self.item.is_none() {
            let text = refusal("unequip", self, "an Item");
            log.add(text, red());
            return ;
        }
        match self.equipment {
            Some(equipment) => {
                if equipment.equipped {
                    self.equipment = Some(Equipment { equipped: false, ..equipment });
                    let mut text = String::from_str("unequipped ");
                    text.append(self.name.as_str());
                    text.append(" from ");
                    text.append(equipment.slot.as_str());
                    text.append(".");
                    log.add(text, light_yellow());
                }
            },
            None => {
                let text = refusal("unequip", self, "an Equipment");
                log.add(text, red());
            },
        }
    }

    /// The most that the hunger gauge can hold.
    pub fn max_hunger(&self) -> (max: i32)
        ensures
            max == self.spec_max(),
    {
        match self.stats {
            Some(stats) => stats.base_max_all_stats,
            None => 0,
        }
    }

    /// The most that the comfort gauge can hold.
    pub fn max_comfort(&self) -> (max: i32)
        ensures
            max == self.spec_max(),
    {
        self.max_hunger()
    }

    /// The most that the hygiene gauge can hold.
    pub fn max_hygiene(&self) -> (max: i32)
        ensures
            max == self.spec_max(),
    {
        self.max_hunger()
    }

    /// The most that the bladder gauge can hold.
    pub fn max_bladder(&self) -> (max: i32)
        ensures
            max == self.spec_max(),
    {
        self.max_hunger()
    }

    /// The most that the energy gauge can hold.
    pub fn max_energy(&self) -> (max: i32)
        ensures
            max == self.spec_max(),
    {
        self.max_hunger()
    }

    /// The most that the fun gauge can hold.
    pub fn max_fun(&self) -> (max: i32)
        ensures
            max == self.spec_max(),
    {
        self.max_hunger()
    }

    /// The most that the social gauge can hold.
    pub fn max_social(&self) -> (max: i32)
        ensures
            max == self.spec_max(),
    {
        self.max_hunger()
    }

    /// The most that the room gauge can hold.
    pub fn max_room(&self) -> (max: i32)
        ensures
            max == self.spec_max(),
    {
        self.max_hunger()
    }
}

} // verus!
