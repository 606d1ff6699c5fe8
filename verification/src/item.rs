//! The things that lie on the map and in the player's inventory.

use vstd::prelude::*;
use vstd::string::StringExecFns;
use crate::game_state::Position;

verus! {

/// The kinds of thing that the game knows.
#[derive(Clone, Copy, Debug, PartialEq, Eq, Structural)]
pub enum ItemKind {
    Pickaxe,
    TreeItem,
}

/// A thing that can lie on the map and be carried.
pub trait Item {
    /// The name under which the thing's picture is kept.
    fn get_name(&self) -> String;

    /// The thing as it enters an inventory.
    fn to_inventory_item(&self) -> InventoryItem;
}

/// A thing in an inventory, and how many of it.
#[derive(Clone, Copy, Debug, PartialEq, Eq, Structural)]
pub struct InventoryItem {
    pub number: i32,
    pub item: ItemKind,
}

/// The name of a kind of thing.
pub open spec fn item_name(kind: ItemKind) -> Seq<char> {
    match kind {
        ItemKind::Pickaxe => "Pickaxe"@,
        ItemKind::TreeItem => "TreeItem"@,
    }
}

impl Item for ItemKind {
    fn get_name(&self) -> (name: String)
        ensures
            name@ == item_name(*self),
    {
        match self {
            ItemKind::Pickaxe => String::from_str("Pickaxe"),
            ItemKind::TreeItem => String::from_str("TreeItem"),
        }
    }

    fn to_inventory_item(&self) -> (entry: InventoryItem)
        ensures
            entry == (InventoryItem { number: 0, item: *self }),
    {
        InventoryItem { number: 0, item: *self }
    }
}

#[derive(Clone, Copy, Debug, PartialEq, Eq, Structural)]
pub struct Pickaxe {}

impl Item for Pickaxe {
    fn get_name(&self) -> (name: String)
        ensures
            name@ == item_name(ItemKind::Pickaxe),
    {
        String::from_str("Pickaxe")
    }

    fn to_inventory_item(&self) -> (entry: InventoryItem)
        ensures
            entry == (InventoryItem { number: 0, item: ItemKind::Pickaxe }),
    {
        InventoryItem { number: 0, item: ItemKind::Pickaxe }
    }
}

/// What is left of a tree that was broken.
#[derive(Clone, Copy, Debug, PartialEq, Eq, Structural)]
pub struct TreeItem {}

impl Item for TreeItem {
    fn get_name(&self) -> (name: String)
        ensures
            name@ == item_name(ItemKind::TreeItem),
    {
        String::from_str("TreeItem")
    }

    fn to_inventory_item(&self) -> (entry: InventoryItem)
        ensures
            entry == (InventoryItem { number: 0, item: ItemKind::TreeItem }),
    {
        InventoryItem { number: 0, item: ItemKind::TreeItem }
    }
}

/// A thing that lies on the map.
#[derive(Clone, Copy, Debug, PartialEq, Eq, Structural)]
pub struct MapItem {
    pub position: Position,
    pub item: ItemKind,
}

/// Whether `index` is the place in the list of the first thing that lies at `position`.
pub open spec fn is_first_at(
    items: Seq<MapItem>,
    position: Position,
    index: int,
) -> bool {
    &&& 0 <= index < items.len()
    &&& items[index].position == position
    &&& forall|earlier: int| 0 <= earlier < index ==> (#[trigger] items[earlier]).position != position
}

/// The place in the list of the first thing that lies at `position`.
pub fn find_item_at(items: &Vec<MapItem>, position: Position) -> (found: Option<
    usize,
>)
    ensures
        match found {
            Some(index) => is_first_at(items@, position, index as int),
            None => forall|index: int|
                0 <= index < items@.len() ==> (#[trigger] items@[index]).position != position,
        },
{
    let mut index: usize = 0;
    while index < items.len()
        invariant
            index <= items.len(),
            forall|earlier: int|
                0 <= earlier < index ==> (#[trigger] items@[earlier]).position != position,
        decreases items.len() - index,
    {
        if items[index].position.x == position.x && items[index].position.y == position.y {
            return Some(index);
        }
        index += 1;
    }
    None
}

} // verus!
