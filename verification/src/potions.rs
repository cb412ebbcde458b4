//! The boost panel: which potions are active, which can still be picked,
//! and how many fit.

use crate::search_bar;
use crate::search_bar::SearchBarProps;
use crate::search_bar::SearchItem;
use crate::text;
use vstd::prelude::*;

verus! {

/// How many potions can be active at once.
pub const MAX_ACTIVE_POTIONS: usize = 4;

/// Rows the potion selector shows at most.
pub const POTION_MAX_RESULTS: usize = 10;

/// A kind of potion. Two values stand for the same kind iff their codes agree.
#[derive(Debug, PartialEq, Eq)]
pub struct Potion {
    pub code: u32,
    /// The name the potion is shown and searched by.
    pub name: String,
}

impl Clone for Potion {
    fn clone(&self) -> (copy: Self)
        ensures
            copy == *self,
    {
        Potion { code: self.code, name: self.name.clone() }
    }
}

impl SearchItem for Potion {
    /// A potion is a hit if the term occurs in its lowercase name.
    open spec fn matches(&self, term: Seq<char>) -> bool {
        text::is_substring(term, text::lowercased(self.name@))
    }

    /// A potion is keyed by its code and name.
    open spec fn key_text(&self) -> Seq<char> {
        text::tagged(self.code as nat, self.name@)
    }

    /// A potion is told apart by its code.
    open spec fn ident(&self) -> nat {
        self.code as nat
    }

    proof fn lemma_key_identifies(&self, other: &Self) {
        text::lemma_tagged_distinct(self.code as nat, self.name@, other.code as nat, other.name@);
    }

    fn is_match(&self, term: &str) -> (hit: bool) {
        let name = text::to_lowercase(self.name.as_str());
        text::contains(name.as_str(), term)
    }

    fn key(&self) -> (k: String) {
        text::tag(self.code as usize, self.name.as_str())
    }
}

/// A potion name without the strength marks ` (-)` and ` (+)`.
pub open spec fn base_name(name: Seq<char>) -> Seq<char> {
    text::replaced(text::replaced(name, " (-)"@, Seq::empty()), " (+)"@, Seq::empty())
}

/// Path of a potion's picture: all strengths of a potion share one.
pub open spec fn potion_img_path_text(name: Seq<char>) -> Seq<char> {
    "/assets/potions/"@ + base_name(name) + ".png"@
}

/// Writes the path of the picture of the potion with this name.
pub fn potion_img_path(name: &str) -> (path: String)
    ensures
        path@ == potion_img_path_text(name@),
{
    proof {
        reveal_strlit(" (-)");
        reveal_strlit(" (+)");
        reveal_strlit("");
        assert(""@ =~= Seq::<char>::empty());
    }
    let weak = text::replace(name, " (-)", "");
    let plain = text::replace(weak.as_str(), " (+)", "");
    text::join3("/assets/potions/", plain.as_str(), ".png")
}

/// The potion codes behind the boosts of a character, one list per boosted
/// skill; `None` where a skill has no boost list.
#[derive(Debug, PartialEq, Eq)]
pub struct PotionBoosts {
    pub attack: Option<Vec<u32>>,
    pub strength: Option<Vec<u32>>,
    pub defence: Option<Vec<u32>>,
    pub ranged: Option<Vec<u32>>,
    pub magic: Option<Vec<u32>>,
}

/// The codes of a boost list, none for a missing list.
pub open spec fn list_codes(list: Option<Vec<u32>>) -> Seq<u32> {
    match list {
        Some(codes) => codes@,
        None => Seq::empty(),
    }
}

impl PotionBoosts {
    /// All boost codes: attack first, then strength, defence, ranged, magic.
    pub open spec fn codes(&self) -> Seq<u32> {
        list_codes(self.attack) + list_codes(self.strength) + list_codes(self.defence)
            + list_codes(self.ranged) + list_codes(self.magic)
    }
}

/// `seen` followed by the values of `more` that are new, each once, in the
/// order of their first occurrence.
pub open spec fn merged(seen: Seq<u32>, more: Seq<u32>) -> Seq<u32>
    decreases more.len(),
{
    if more.len() == 0 {
        seen
    } else {
        let before = merged(seen, more.drop_last());
        if before.contains(more.last()) {
            before
        } else {
            before.push(more.last())
        }
    }
}

/// The distinct values of a sequence in the order of their first occurrence.
pub open spec fn first_occurrences(s: Seq<u32>) -> Seq<u32> {
    merged(Seq::empty(), s)
}

/// Merging a concatenation is merging its parts one after the other.
pub proof fn lemma_merged_concat(seen: Seq<u32>, a: Seq<u32>, b: Seq<u32>)
    ensures
        merged(seen, a + b) == merged(merged(seen, a), b),
    decreases b.len(),
{
    if b.len() == 0 {
        assert(a + b =~= a);
    } else {
        lemma_merged_concat(seen, a, b.drop_last());
        assert((a + b).drop_last() =~= a + b.drop_last());
        assert((a + b).last() == b.last());
    }
}

/// Law of merging. What was seen stays in front; nothing occurs twice that
/// did not before; the result holds exactly the values of both; and a new
/// value stands behind all values that occurred before it.
pub proof fn lemma_merged(seen: Seq<u32>, more: Seq<u32>)
    requires
        seen.no_duplicates(),
    ensures
        merged(seen, more).no_duplicates(),
        seen.len() <= merged(seen, more).len() <= seen.len() + more.len(),
        merged(seen, more).take(seen.len() as int) == seen,
        forall|x: u32|
            merged(seen, more).contains(x) <==> seen.contains(x) || more.contains(x),
        forall|j: int, k: int|
            #![trigger merged(seen, more)[j], more[k]]
            seen.len() <= j < merged(seen, more).len() && 0 <= k < more.len() && more[k]
                == merged(seen, more)[j] ==> forall|i: int|
                0 <= i < j ==> seen.contains(#[trigger] merged(seen, more)[i]) || more.take(
                    k,
                ).contains(merged(seen, more)[i]),
    decreases more.len(),
{
    let out = merged(seen, more);
    if more.len() == 0 {
        assert(out.take(seen.len() as int) =~= seen);
    } else {
        let rest = more.drop_last();
        let last = more.last();
        let before = merged(seen, rest);
        lemma_merged(seen, rest);
        assert(out.take(seen.len() as int) =~= before.take(seen.len() as int));
        assert forall|x: u32| out.contains(x) <==> seen.contains(x) || more.contains(x) by {
            if out.contains(x) {
                let i = choose|i: int| 0 <= i < out.len() && out[i] == x;
                if i < before.len() {
                    assert(before.contains(x));
                    if rest.contains(x) {
                        let r = choose|r: int| 0 <= r < rest.len() && rest[r] == x;
                        assert(more[r] == x);
                    }
                } else {
                    assert(more[more.len() - 1] == x);
                }
            }
            if seen.contains(x) {
                assert(before.contains(x));
                let i = choose|i: int| 0 <= i < before.len() && before[i] == x;
                assert(out[i] == x);
            }
            if more.contains(x) {
                let r = choose|r: int| 0 <= r < more.len() && more[r] == x;
                if r < rest.len() {
                    assert(rest[r] == x);
                    assert(before.contains(x));
                    let i = choose|i: int| 0 <= i < before.len() && before[i] == x;
                    assert(out[i] == x);
                } else {
                    if before.contains(x) {
                        let i = choose|i: int| 0 <= i < before.len() && before[i] == x;
                        assert(out[i] == x);
                    } else {
                        assert(out[out.len() - 1] == x);
                    }
                }
            }
        }
        assert forall|j: int, k: int|
            #![trigger out[j], more[k]]
            seen.len() <= j < out.len() && 0 <= k < more.len() && more[k]
                == out[j] implies forall|i: int|
            0 <= i < j ==> seen.contains(#[trigger] out[i]) || more.take(k).contains(out[i]) by {
            assert forall|i: int| 0 <= i < j implies seen.contains(#[trigger] out[i]) || more.take(
                k,
            ).contains(out[i]) by {
                if j < before.len() {
                    assert(before[j] == out[j]);
                    assert(before[i] == out[i]);
                    if k < rest.len() {
                        assert(rest[k] == before[j]);
                        assert(rest.take(k) =~= more.take(k));
                    } else {
                        // the value at j occurred in `seen` or in `rest`
                        assert(before.contains(before[j]));
                        if seen.contains(before[j]) {
                            let p = choose|p: int| 0 <= p < seen.len() && seen[p] == before[j];
                            assert(before.take(seen.len() as int)[p] == seen[p]);
                            assert(before[p] == before[j]);
                            assert(false);
                        }
                        let r = choose|r: int| 0 <= r < rest.len() && rest[r] == before[j];
                        assert(rest[r] == before[j]);
                        if !seen.contains(before[i]) {
                            assert(rest.take(r).contains(before[i]));
                            let q = choose|q: int|
                                0 <= q < rest.take(r).len() && rest.take(r)[q] == before[i];
                            assert(more.take(k)[q] == before[i]);
                        }
                    }
                } else {
                    // j is the new last position: the value is new
                    assert(out[j] == last);
                    assert(before[i] == out[i]);
                    assert(before.contains(out[i]));
                    if !seen.contains(out[i]) {
                        assert(rest.contains(out[i]));
                        let r = choose|r: int| 0 <= r < rest.len() && rest[r] == out[i];
                        if k < rest.len() {
                            assert(rest[k] == last);
                            assert(rest.contains(last));
                            assert(false);
                        }
                        assert(more.take(k)[r] == out[i]);
                    }
                }
            }
        }
    }
}

/// Law: the active potions hold every boost code once, in the order in which
/// the codes first occur.
pub proof fn lemma_first_occurrences(s: Seq<u32>)
    ensures
        first_occurrences(s).no_duplicates(),
        first_occurrences(s).len() <= s.len(),
        forall|x: u32| first_occurrences(s).contains(x) <==> s.contains(x),
        s.no_duplicates() ==> first_occurrences(s) == s,
    decreases s.len(),
{
    lemma_merged(Seq::empty(), s);
    if s.len() > 0 {
        lemma_first_occurrences(s.drop_last());
        if s.no_duplicates() {
            let rest = s.drop_last();
            assert(rest.no_duplicates());
            if rest.contains(s.last()) {
                let r = choose|r: int| 0 <= r < rest.len() && rest[r] == s.last();
                assert(s[r] == s[s.len() - 1]);
                assert(false);
            }
            assert(rest.push(s.last()) =~= s);
        }
    }
}

/// Whether a list holds a code.
pub fn holds(codes: &Vec<u32>, code: u32) -> (found: bool)
    ensures
        found == codes@.contains(code),
{
    let mut i: usize = 0;
    while i < codes.len()
        invariant
            i <= codes.len(),
            forall|j: int| 0 <= j < i ==> codes@[j] != code,
        decreases codes.len() - i,
    {
        if codes[i] == code {
            return true;
        }
        i += 1;
    }
    false
}

/// Appends the codes of a boost list that are not yet in `active`.
fn take_in(active: &mut Vec<u32>, list: &Option<Vec<u32>>)
    ensures
        final(active)@ == merged(old(active)@, list_codes(*list)),
{
    match list {
        Some(codes) => {
            let mut i: usize = 0;
            assert(codes@.take(0) =~= Seq::<u32>::empty());
            while i < codes.len()
                invariant
                    i <= codes.len(),
                    active@ == merged(old(active)@, codes@.take(i as int)),
                decreases codes.len() - i,
            {
                proof {
                    assert(codes@.take(i + 1).drop_last() =~= codes@.take(i as int));
                    assert(codes@.take(i + 1).last() == codes@[i as int]);
                }
                if !holds(active, codes[i]) {
                    active.push(codes[i]);
                }
                i += 1;
            }
            assert(codes@.take(i as int) =~= codes@);
        },
        None => {},
    }
}

/// The potions that are active on a character: the distinct codes behind
/// its boosts, in the order attack, strength, defence, ranged, magic.
pub fn active_potions(boosts: &PotionBoosts) -> (active: Vec<u32>)
    ensures
        active@ == first_occurrences(boosts.codes()),
{
    let mut active: Vec<u32> = Vec::new();
    take_in(&mut active, &boosts.attack);
    take_in(&mut active, &boosts.strength);
    take_in(&mut active, &boosts.defence);
    take_in(&mut active, &boosts.ranged);
    take_in(&mut active, &boosts.magic);
    proof {
        let e = Seq::<u32>::empty();
        let a = list_codes(boosts.attack);
        let s = list_codes(boosts.strength);
        let d = list_codes(boosts.defence);
        let r = list_codes(boosts.ranged);
        let m = list_codes(boosts.magic);
        lemma_merged_concat(e, a, s);
        lemma_merged_concat(e, a + s, d);
        lemma_merged_concat(e, a + s + d, r);
        lemma_merged_concat(e, a + s + d + r, m);
    }
    active
}

/// The test "this potion can still be picked": it is a real potion and it
/// is not active.
pub open spec fn pickable_test(active: Seq<u32>, none: u32) -> spec_fn(Potion) -> bool {
    |potion: Potion| potion.code != none && !active.contains(potion.code)
}

/// The potions that can still be picked, in the order of `all`.
pub open spec fn pickable(all: Seq<Potion>, active: Seq<u32>, none: u32) -> Seq<Potion> {
    all.filter(pickable_test(active, none))
}

/// The catalog of the potion selector: every potion but the one that stands
/// for "no potion" (code `none`) and those that are active.
pub fn available_potions(all: &Vec<Potion>, active: &Vec<u32>, none: u32) -> (free: Vec<Potion>)
    ensures
        free@ == pickable(all@, active@, none),
{
    let mut free: Vec<Potion> = Vec::new();
    let mut i: usize = 0;
    proof {
        reveal(Seq::filter);
        assert(all@.take(0) =~= Seq::<Potion>::empty());
    }
    while i < all.len()
        invariant
            i <= all.len(),
            free@ == all@.take(i as int).filter(pickable_test(active@, none)),
        decreases all.len() - i,
    {
        proof {
            reveal(Seq::filter);
            assert(all@.take(i + 1).drop_last() =~= all@.take(i as int));
            assert(all@.take(i + 1).last() == all@[i as int]);
        }
        if all[i].code != none && !holds(active, all[i].code) {
            free.push(all[i].clone());
        }
        i += 1;
    }
    assert(all@.take(i as int) =~= all@);
    free
}

/// Law: no pickable potion is active or the "no potion" entry, and every
/// other potion of the list is pickable.
pub proof fn lemma_pickable(all: Seq<Potion>, active: Seq<u32>, none: u32)
    ensures
        forall|k: int|
            0 <= k < pickable(all, active, none).len() ==> {
                &&& (#[trigger] pickable(all, active, none)[k]).code != none
                &&& !active.contains(pickable(all, active, none)[k].code)
                &&& all.contains(pickable(all, active, none)[k])
            },
        forall|i: int|
            0 <= i < all.len() && (#[trigger] all[i]).code != none && !active.contains(
                all[i].code,
            ) ==> pickable(all, active, none).contains(all[i]),
{
    let pred = pickable_test(active, none);
    assert forall|k: int| 0 <= k < all.filter(pred).len() implies {
        &&& (#[trigger] all.filter(pred)[k]).code != none
        &&& !active.contains(all.filter(pred)[k].code)
        &&& all.contains(all.filter(pred)[k])
    } by {
        all.lemma_filter_pred(pred, k);
        let e = all.filter(pred)[k];
        assert(all.filter(pred).contains(e));
        all.lemma_filter_contains_rev(pred, e);
    }
    assert forall|i: int|
        0 <= i < all.len() && (#[trigger] all[i]).code != none && !active.contains(
            all[i].code,
        ) implies all.filter(pred).contains(all[i]) by {
        all.lemma_filter_contains(pred, i);
    }
}

/// Law: where no two potions of the list share a code, no two pickable
/// potions share a code or a key.
pub proof fn lemma_pickable_keys(all: Seq<Potion>, active: Seq<u32>, none: u32)
    requires
        search_bar::distinct_idents(all),
    ensures
        search_bar::distinct_idents(pickable(all, active, none)),
        forall|j: int, k: int|
            0 <= j < pickable(all, active, none).len() && 0 <= k < pickable(
                all,
                active,
                none,
            ).len() && j != k ==> (#[trigger] pickable(all, active, none)[j]).key_text() != (
            #[trigger] pickable(all, active, none)[k]).key_text(),
{
    let free = pickable(all, active, none);
    search_bar::lemma_filter_keeps_distinct_idents(all, pickable_test(active, none));
    assert forall|j: int, k: int| 0 <= j < free.len() && 0 <= k < free.len() && j != k implies (
    #[trigger] free[j]).key_text() != (#[trigger] free[k]).key_text() by {
        search_bar::lemma_keys_are_unique(free, j, k);
    }
}

/// Whether no further potion fits.
pub fn at_capacity(active_count: usize) -> (full: bool)
    ensures
        full == (active_count >= MAX_ACTIVE_POTIONS),
{
    active_count >= MAX_ACTIVE_POTIONS
}

/// Whether a picked potion may be added.
pub fn may_add(active_count: usize) -> (ok: bool)
    ensures
        ok == (active_count < MAX_ACTIVE_POTIONS),
{
    active_count < MAX_ACTIVE_POTIONS
}

/// How many empty potion slots the panel draws.
pub fn empty_slots(active_count: usize) -> (free: usize)
    ensures
        free == if active_count < MAX_ACTIVE_POTIONS {
            MAX_ACTIVE_POTIONS - active_count
        } else {
            0
        },
        active_count <= MAX_ACTIVE_POTIONS ==> free + active_count == MAX_ACTIVE_POTIONS,
{
    if active_count < MAX_ACTIVE_POTIONS {
        MAX_ACTIVE_POTIONS - active_count
    } else {
        0
    }
}

/// The configuration of the potion selector for a character: it offers the
/// potions that can still be picked and is disabled once no further potion
/// fits.
pub fn potion_selector_props(all: &Vec<Potion>, active: &Vec<u32>, none: u32) -> (props:
    SearchBarProps<Potion>)
    ensures
        props.items@ == pickable(all@, active@, none),
        props.placeholder@ == "Search for boosts..."@,
        props.max_results == POTION_MAX_RESULTS,
        props.disabled == (active@.len() >= MAX_ACTIVE_POTIONS),
{
    SearchBarProps {
        items: available_potions(all, active, none),
        placeholder: String::from_str("Search for boosts..."),
        max_results: POTION_MAX_RESULTS,
        disabled: at_capacity(active.len()),
    }
}

} // verus!
