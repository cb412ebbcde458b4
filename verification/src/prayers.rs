//! The prayer panel: the grid of prayers, the summary of the lit ones, and
//! what a press on a prayer asks of the game rules.

use crate::text;
use vstd::prelude::*;

verus! {

/// The prayers of the grid. `Empty` fills the cells that hold no prayer.
#[derive(Clone, Copy, Debug, PartialEq, Eq, Structural)]
pub enum Prayer {
    ClarityOfThought,
    BurstOfStrength,
    ThickSkin,
    SharpEye,
    MysticWill,
    ImprovedReflexes,
    SuperhumanStrength,
    RockSkin,
    HawkEye,
    MysticLore,
    IncredibleReflexes,
    UltimateStrength,
    SteelSkin,
    EagleEye,
    MysticMight,
    Chivalry,
    Deadeye,
    MysticVigour,
    Piety,
    Rigour,
    Augury,
    Empty,
}

/// Cells in a row of the grid.
pub const GRID_WIDTH: usize = 5;

/// The cells of the grid, row after row.
pub open spec fn prayer_order() -> Seq<Prayer> {
    seq![
        Prayer::ClarityOfThought,
        Prayer::BurstOfStrength,
        Prayer::ThickSkin,
        Prayer::SharpEye,
        Prayer::MysticWill,
        Prayer::ImprovedReflexes,
        Prayer::SuperhumanStrength,
        Prayer::RockSkin,
        Prayer::HawkEye,
        Prayer::MysticLore,
        Prayer::IncredibleReflexes,
        Prayer::UltimateStrength,
        Prayer::SteelSkin,
        Prayer::EagleEye,
        Prayer::MysticMight,
        Prayer::Chivalry,
        Prayer::Deadeye,
        Prayer::MysticVigour,
        Prayer::Empty,
        Prayer::Empty,
        Prayer::Piety,
        Prayer::Rigour,
        Prayer::Augury,
        Prayer::Empty,
        Prayer::Empty,
    ]
}

/// The cell in row `row` and column `col` of the grid.
pub open spec fn cell(row: int, col: int) -> Prayer {
    prayer_order()[row * 5 + col]
}

/// The cells of the grid, row after row.
pub fn grid_cells() -> (cells: Vec<Prayer>)
    ensures
        cells@ == prayer_order(),
{
    let cells = vec![
        Prayer::ClarityOfThought,
        Prayer::BurstOfStrength,
        Prayer::ThickSkin,
        Prayer::SharpEye,
        Prayer::MysticWill,
        Prayer::ImprovedReflexes,
        Prayer::SuperhumanStrength,
        Prayer::RockSkin,
        Prayer::HawkEye,
        Prayer::MysticLore,
        Prayer::IncredibleReflexes,
        Prayer::UltimateStrength,
        Prayer::SteelSkin,
        Prayer::EagleEye,
        Prayer::MysticMight,
        Prayer::Chivalry,
        Prayer::Deadeye,
        Prayer::MysticVigour,
        Prayer::Empty,
        Prayer::Empty,
        Prayer::Piety,
        Prayer::Rigour,
        Prayer::Augury,
        Prayer::Empty,
        Prayer::Empty,
    ];
    assert(cells@ =~= prayer_order());
    cells
}

/// The grid as rows of `GRID_WIDTH` cells.
pub fn prayer_rows() -> (rows: Vec<Vec<Prayer>>)
    ensures
        rows@.len() == 5,
        forall|r: int| 0 <= r < 5 ==> (#[trigger] rows@[r])@.len() == 5,
        forall|r: int, c: int| 0 <= r < 5 && 0 <= c < 5 ==> (#[trigger] rows@[r]@[c]) == cell(r, c),
{
    let cells = grid_cells();
    let mut rows: Vec<Vec<Prayer>> = Vec::new();
    let mut r: usize = 0;
    while r < 5
        invariant
            r <= 5,
            cells@ == prayer_order(),
            rows@.len() == r,
            forall|i: int| 0 <= i < r ==> (#[trigger] rows@[i])@.len() == 5,
            forall|i: int, c: int|
                0 <= i < r && 0 <= c < 5 ==> (#[trigger] rows@[i]@[c]) == cell(i, c),
        decreases 5 - r,
    {
        let mut row: Vec<Prayer> = Vec::new();
        let mut c: usize = 0;
        while c < 5
            invariant
                c <= 5,
                r < 5,
                cells@ == prayer_order(),
                row@.len() == c,
                forall|j: int| 0 <= j < c ==> (#[trigger] row@[j]) == cell(r as int, j),
            decreases 5 - c,
        {
            row.push(cells[r * 5 + c]);
            c += 1;
        }
        rows.push(row);
        r += 1;
    }
    rows
}

/// Whether a cell shows a prayer.
pub fn shown_in_grid(prayer: Prayer) -> (shown: bool)
    ensures
        shown == (prayer != Prayer::Empty),
{
    prayer != Prayer::Empty
}

/// Whether a list of prayers holds a prayer.
pub fn is_active(active: &Vec<Prayer>, prayer: Prayer) -> (found: bool)
    ensures
        found == active@.contains(prayer),
{
    let mut i: usize = 0;
    while i < active.len()
        invariant
            i <= active.len(),
            forall|j: int| 0 <= j < i ==> active@[j] != prayer,
        decreases active.len() - i,
    {
        if active[i] == prayer {
            return true;
        }
        i += 1;
    }
    false
}

/// The test "this cell shows a prayer that is lit".
pub open spec fn lit_test(active: Seq<Prayer>) -> spec_fn(Prayer) -> bool {
    |prayer: Prayer| prayer != Prayer::Empty && active.contains(prayer)
}

/// The lit prayers in the order of the grid.
pub open spec fn lit_in_grid_order(active: Seq<Prayer>) -> Seq<Prayer> {
    prayer_order().filter(lit_test(active))
}

/// The prayers that the summary of the collapsed panel shows: the lit ones,
/// in the order of the grid.
pub fn lit_prayers(active: &Vec<Prayer>) -> (lit: Vec<Prayer>)
    ensures
        lit@ == lit_in_grid_order(active@),
{
    let cells = grid_cells();
    let mut lit: Vec<Prayer> = Vec::new();
    let mut i: usize = 0;
    proof {
        reveal(Seq::filter);
        assert(cells@.take(0) =~= Seq::<Prayer>::empty());
    }
    while i < cells.len()
        invariant
            i <= cells.len(),
            cells@ == prayer_order(),
            lit@ == cells@.take(i as int).filter(lit_test(active@)),
        decreases cells.len() - i,
    {
        proof {
            reveal(Seq::filter);
            assert(cells@.take(i + 1).drop_last() =~= cells@.take(i as int));
            assert(cells@.take(i + 1).last() == cells@[i as int]);
        }
        if cells[i] != Prayer::Empty && is_active(active, cells[i]) {
            lit.push(cells[i]);
        }
        i += 1;
    }
    assert(cells@.take(i as int) =~= cells@);
    lit
}

/// Law: the summary shows a prayer iff it is lit and stands in the grid,
/// and never the filler.
pub proof fn lemma_lit_in_grid_order(active: Seq<Prayer>, prayer: Prayer)
    ensures
        lit_in_grid_order(active).contains(prayer) <==> prayer != Prayer::Empty && active.contains(
            prayer,
        ) && prayer_order().contains(prayer),
        lit_in_grid_order(active).len() <= 25,
{
    let pred = lit_test(active);
    let order = prayer_order();
    order.lemma_filter_len(pred);
    if order.filter(pred).contains(prayer) {
        let k = choose|k: int| 0 <= k < order.filter(pred).len() && order.filter(pred)[k] == prayer;
        order.lemma_filter_pred(pred, k);
        order.lemma_filter_contains_rev(pred, prayer);
    }
    if prayer != Prayer::Empty && active.contains(prayer) && order.contains(prayer) {
        let i = choose|i: int| 0 <= i < order.len() && order[i] == prayer;
        order.lemma_filter_contains(pred, i);
    }
}

/// What a press on a prayer asks of the game rules.
#[derive(Clone, Copy, Debug, PartialEq, Eq)]
pub enum PrayerAction {
    Add,
    Remove,
}

/// A press on a prayer switches it: off if it is lit, on if it is not.
pub fn toggle(active: &Vec<Prayer>, prayer: Prayer) -> (action: PrayerAction)
    ensures
        action == if active@.contains(prayer) {
            PrayerAction::Remove
        } else {
            PrayerAction::Add
        },
{
    if is_active(active, prayer) {
        PrayerAction::Remove
    } else {
        PrayerAction::Add
    }
}

/// Path of a prayer's picture in the prayer assets folder: the prayer's
/// name with underscores for spaces.
pub open spec fn prayer_img_path_text(folder: Seq<char>, name: Seq<char>) -> Seq<char> {
    folder + "/"@ + text::replaced(name, " "@, "_"@) + ".png"@
}

pub fn prayer_img_path(folder: &str, name: &str) -> (path: String)
    ensures
        path@ == prayer_img_path_text(folder@, name@),
{
    proof {
        reveal_strlit(" ");
    }
    let file = text::replace(name, " ", "_");
    let mut path = text::join3(folder, "/", file.as_str());
    path.append(".png");
    path
}

/// Path of the overlay that marks a lit prayer.
pub fn selected_overlay_path(folder: &str) -> (path: String)
    ensures
        path@ == folder@ + "/selected.png"@,
{
    text::join2(folder, "/selected.png")
}

} // verus!
