//! The equipment grid: where each gear slot stands and what a slot shows.

use crate::text;
use vstd::prelude::*;

verus! {

/// The gear slots of a character.
#[derive(Clone, Copy, Debug, PartialEq, Eq)]
pub enum GearSlot {
    Head,
    Cape,
    Neck,
    Ammo,
    Weapon,
    Body,
    Shield,
    Legs,
    Hands,
    Feet,
    Ring,
}

/// The rows of the grid from top to bottom, each from left to right.
pub open spec fn grid_layout() -> Seq<Seq<GearSlot>> {
    seq![
        seq![GearSlot::Head],
        seq![GearSlot::Cape, GearSlot::Neck, GearSlot::Ammo],
        seq![GearSlot::Weapon, GearSlot::Body, GearSlot::Shield],
        seq![GearSlot::Legs],
        seq![GearSlot::Hands, GearSlot::Feet, GearSlot::Ring],
    ]
}

/// The view of a list of rows.
pub open spec fn rows_view(rows: Seq<Vec<GearSlot>>) -> Seq<Seq<GearSlot>> {
    Seq::new(rows.len(), |i: int| rows[i]@)
}

/// Builds the rows of the grid.
pub fn grid_rows() -> (rows: Vec<Vec<GearSlot>>)
    ensures
        rows_view(rows@) == grid_layout(),
{
    let mut rows: Vec<Vec<GearSlot>> = Vec::new();
    rows.push(vec![GearSlot::Head]);
    rows.push(vec![GearSlot::Cape, GearSlot::Neck, GearSlot::Ammo]);
    rows.push(vec![GearSlot::Weapon, GearSlot::Body, GearSlot::Shield]);
    rows.push(vec![GearSlot::Legs]);
    rows.push(vec![GearSlot::Hands, GearSlot::Feet, GearSlot::Ring]);
    proof {
        let got = rows_view(rows@);
        let want = grid_layout();
        assert(got.len() == want.len());
        assert(got[0] =~= want[0]);
        assert(got[1] =~= want[1]);
        assert(got[2] =~= want[2]);
        assert(got[3] =~= want[3]);
        assert(got[4] =~= want[4]);
        assert(got =~= want);
    }
    rows
}

/// Law: every gear slot stands in the grid exactly once.
pub proof fn lemma_grid_holds_each_slot_once(slot: GearSlot)
    ensures
        exists|r: int, c: int|
            0 <= r < grid_layout().len() && 0 <= c < grid_layout()[r].len()
                && #[trigger] grid_layout()[r][c] == slot,
        forall|r1: int, c1: int, r2: int, c2: int|
            0 <= r1 < grid_layout().len() && 0 <= c1 < grid_layout()[r1].len() && 0 <= r2
                < grid_layout().len() && 0 <= c2 < grid_layout()[r2].len()
                && #[trigger] grid_layout()[r1][c1] == #[trigger] grid_layout()[r2][c2] ==> r1
                == r2 && c1 == c2,
{
    let g = grid_layout();
    match slot {
        GearSlot::Head => assert(g[0][0] == slot),
        GearSlot::Cape => assert(g[1][0] == slot),
        GearSlot::Neck => assert(g[1][1] == slot),
        GearSlot::Ammo => assert(g[1][2] == slot),
        GearSlot::Weapon => assert(g[2][0] == slot),
        GearSlot::Body => assert(g[2][1] == slot),
        GearSlot::Shield => assert(g[2][2] == slot),
        GearSlot::Legs => assert(g[3][0] == slot),
        GearSlot::Hands => assert(g[4][0] == slot),
        GearSlot::Feet => assert(g[4][1] == slot),
        GearSlot::Ring => assert(g[4][2] == slot),
    }
}

/// What a gear slot holds, as far as the grid shows it.
#[derive(Debug, PartialEq, Eq)]
pub struct SlotItem {
    pub name: String,
    /// File name of the item's picture; empty where it has none.
    pub image: String,
}

/// The picture in a slot of the grid.
#[derive(Debug, PartialEq, Eq)]
pub enum SlotImage {
    /// The greyed picture of the empty slot.
    Placeholder { src: String },
    /// The picture of the item in the slot.
    Item { src: String },
}

/// What the grid shows for one slot.
#[derive(Debug, PartialEq, Eq)]
pub struct SlotView {
    /// Tooltip: the item's name, empty for an empty slot.
    pub title: String,
    /// Whether a press on the slot takes the item off.
    pub occupied: bool,
    pub image: SlotImage,
    /// Whether to warn that the item has no picture.
    pub missing_image: bool,
}

/// Path of the greyed picture of a slot, from the slot's display name.
pub open spec fn placeholder_path_text(slot_name: Seq<char>) -> Seq<char> {
    "/assets/placeholders/"@ + slot_name + ".png"@
}

pub fn placeholder_path(slot_name: &str) -> (path: String)
    ensures
        path@ == placeholder_path_text(slot_name@),
{
    text::join3("/assets/placeholders/", slot_name, ".png")
}

/// Whether an item is shown by its own picture: the bare-hands entry and an
/// item without a picture are shown as an empty slot.
pub open spec fn shows_own_picture(item: SlotItem) -> bool {
    item.name@ != "Unarmed"@ && item.image@.len() > 0
}

/// What the grid shows for a slot with this content.
pub fn slot_view(item: &Option<SlotItem>, slot_name: &str) -> (view: SlotView)
    ensures
        view.occupied == item is Some,
        view.title@ == match *item {
            Some(held) => held.name@,
            None => Seq::<char>::empty(),
        },
        match *item {
            Some(held) => if shows_own_picture(held) {
                view.image matches SlotImage::Item { src } && src@ == "/assets/equipment/"@
                    + held.image@
            } else {
                view.image matches SlotImage::Placeholder { src } && src@ == placeholder_path_text(
                    slot_name@,
                )
            },
            None => view.image matches SlotImage::Placeholder { src } && src@
                == placeholder_path_text(slot_name@),
        },
        view.missing_image == (*item matches Some(held) && held.name@ != "Unarmed"@
            && held.image@.len() == 0),
{
    match item {
        Some(held) => {
            let title = held.name.clone();
            if text::same_text(held.name.as_str(), "Unarmed") {
                SlotView {
                    title,
                    occupied: true,
                    image: SlotImage::Placeholder { src: placeholder_path(slot_name) },
                    missing_image: false,
                }
            } else if held.image.as_str().is_empty() {
                SlotView {
                    title,
                    occupied: true,
                    image: SlotImage::Placeholder { src: placeholder_path(slot_name) },
                    missing_image: true,
                }
            } else {
                SlotView {
                    title,
                    occupied: true,
                    image: SlotImage::Item {
                        src: text::join2("/assets/equipment/", held.image.as_str()),
                    },
                    missing_image: false,
                }
            }
        },
        None => SlotView {
            title: String::new(),
            occupied: false,
            image: SlotImage::Placeholder { src: placeholder_path(slot_name) },
            missing_image: false,
        },
    }
}

} // verus!
