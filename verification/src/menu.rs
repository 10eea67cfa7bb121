//! Menus and prompts: which option a key chooses, what the inventory menu
//! offers, and when the choice of a target is made.

use vstd::prelude::*;
use vstd::string::StringExecFns;
use crate::object::Object;
use crate::tile::{MAP_HEIGHT, MAP_WIDTH};
use crate::visibility::Fov;

verus! {

/// The most options that a menu can offer: one for each letter.
pub const MENU_CAPACITY: usize = 26;

/// The place of a letter in the alphabet, counted from zero, whether it is
/// written small or large; `None` for everything else.
pub open spec fn letter_index(c: char) -> Option<int> {
    if 'a' <= c <= 'z' {
        Some(c as int - 'a' as int)
    } else if 'A' <= c <= 'Z' {
        Some(c as int - 'A' as int)
    } else {
        None
    }
}

/// The option that a key chooses in a menu of `option_count` options.
pub open spec fn spec_menu_choice(printable: char, option_count: int) -> Option<usize> {
    match letter_index(printable) {
        Some(index) => if index < option_count {
            Some(index as usize)
        } else {
            None
        },
        None => None,
    }
}

/// convert the ASCII code to an index; if it corresponds to an option, return it
///
/// The options are lettered from `a` on, and a letter chooses its option
/// whether it is typed small or large. Any other key chooses nothing.
pub fn menu_choice(printable: char, option_count: usize) -> (choice: Option<usize>)
    requires
        option_count <= MENU_CAPACITY,
    ensures
        choice == spec_menu_choice(printable, option_count as int),
{
    let code: u32 = printable as u32;
    let index: u32 = if 'a' as u32 <= code && code <= 'z' as u32 {
        code - 'a' as u32
    } else if 'A' as u32 <= code && code <= 'Z' as u32 {
        code - 'A' as u32
    } else {
        return None;
    };
    if (index as usize) < option_count {
        Some(index as usize)
    } else {
        None
    }
}

/// What the inventory menu offers when there is nothing to offer.
pub open spec fn empty_inventory_text() -> Seq<char> {
    "Inventory is empty."@
}

/// How an item is listed: by its name, and if it is worn, with the slot.
pub open spec fn item_label(item: Object) -> Seq<char> {
    match item.equipment {
        Some(equipment) => if equipment.equipped {
            item.name@ + " (on "@ + equipment.slot.spec_text() + ")"@
        } else {
            item.name@
        },
        None => item.name@,
    }
}

/// The options of the inventory menu: one line for each item, or one line
/// that says that there is none.
pub open spec fn spec_inventory_options(inventory: Seq<Object>) -> Seq<Seq<char>> {
    if inventory.len() == 0 {
        seq![empty_inventory_text()]
    } else {
        inventory.map_values(|item: Object| item_label(item))
    }
}

/// The options of the inventory menu.
pub fn inventory_options(inventory: &[Object]) -> (options: Vec<String>)
    ensures
        options@.map_values(|option: String| option@) == spec_inventory_options(inventory@),
{
    let mut options: Vec<String> = Vec::new();
    if inventory.len() == 0 {
        options.push(String::from_str("Inventory is empty."));
        assert(options@.map_values(|option: String| option@) =~= spec_inventory_options(
            inventory@,
        ));
        return options;
    }
    let mut i: usize = 0;
    while i < inventory.len()
        invariant
            i <= inventory.len(),
            options.len() == i,
            forall|k: int| 0 <= k < i ==> (#[trigger] options[k])@ == item_label(inventory@[k]),
        decreases inventory.len() - i,
    {
        let item = &inventory[i];
        // show additional information, in case it's equipped
        let mut label = String::from_str(item.name.as_str());
        match item.equipment {
            Some(equipment) => {
                if equipment.equipped {
                    label.append(" (on ");
                    label.append(equipment.slot.as_str());
                    label.append(")");
                }
            },
            None => {},
        }
        options.push(label);
        i += 1;
    }
    assert(options@.map_values(|option: String| option@) =~= spec_inventory_options(inventory@));
    options
}

/// What a choice in the inventory menu names: the item at that index, and
/// nothing where the inventory is empty.
pub fn inventory_choice(inventory_len: usize, choice: Option<usize>) -> (index: Option<usize>)
    ensures
        index == if inventory_len > 0 {
            choice
        } else {
            None
        },
{
    // if an item was chosen, return it
    if inventory_len > 0 {
        choice
    } else {
        None
    }
}

/// How far the choice of a target has come.
#[derive(Clone, Copy, Debug, PartialEq, Eq, Structural)]
pub enum Targeting {
    /// The player has clicked on this cell, which can be a target.
    Chosen(i32, i32),
    /// The player has given up.
    Cancelled,
    /// The player has not decided yet.
    Pending,
}

/// What the mouse and the keys say, once, while the player chooses a target.
#[derive(Clone, Copy, Debug, PartialEq, Eq, Structural)]
pub struct Pointer {
    /// The cell under the mouse.
    pub x: i32,
    pub y: i32,
    pub left_pressed: bool,
    pub right_pressed: bool,
    pub escape_pressed: bool,
}

/// A cell can be a target if it lies on the grid, is in sight, and is within
/// range.
pub open spec fn can_target(x: int, y: int, fov: Fov, in_range: bool) -> bool {
    x < MAP_WIDTH && y < MAP_HEIGHT && fov.sees(x, y) && in_range
}

/// Whether the choice of a target is made. A left click on a cell that can
/// be a target chooses it; else a right click or Escape cancels; else the
/// choice is still open.
pub open spec fn spec_target_step(pointer: Pointer, fov: Fov, in_range: bool) -> Targeting {
    if pointer.left_pressed && can_target(pointer.x as int, pointer.y as int, fov, in_range) {
        Targeting::Chosen(pointer.x, pointer.y)
    } else if pointer.right_pressed || pointer.escape_pressed {
        Targeting::Cancelled
    } else {
        Targeting::Pending
    }
}

/// Whether the choice of a target is made. `in_range` says whether the cell
/// under the mouse is as near to the player as the target has to be.
pub fn target_step(pointer: Pointer, fov: &Fov, in_range: bool) -> (step: Targeting)
    ensures
        step == spec_target_step(pointer, *fov, in_range),
{
    let (x, y) = (pointer.x, pointer.y);

    // accept the target if the player clicked in FOV, and in case a range
    // is specified, if it's in that range
    let in_fov: bool = (x < MAP_WIDTH) && (y < MAP_HEIGHT) && fov.is_in_fov(x, y);
    if pointer.left_pressed && in_fov && in_range {
        return Targeting::Chosen(x, y);
    }
    if pointer.right_pressed || pointer.escape_pressed {
        return Targeting::Cancelled;  // cancel if the player right-clicked or pressed Escape
    }
    Targeting::Pending
}

} // verus!
