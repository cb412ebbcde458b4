//! The equipment catalog and the equipment grid: which records can be
//! listed, how a record is searched, keyed and pictured, what a selection
//! asks of the game rules, and what a grid slot shows.

use crate::search_bar;
use crate::search_bar::SearchItem;
use crate::text;
use vstd::prelude::*;

verus! {

/// One record of the item catalog.
#[derive(Debug, PartialEq, Eq)]
pub struct EquipmentRecord {
    /// Position of the record in the asset it was read from.
    pub id: usize,
    pub name: String,
    /// Names the variant where several records share a name.
    pub version: Option<String>,
    /// Category tag of the slot the item goes into.
    pub slot: String,
    /// File name of the item's picture.
    pub image: String,
    /// Combat category, speed, range and handedness: weapons need all four.
    pub category: Option<String>,
    pub speed: Option<i32>,
    pub attack_range: Option<i32>,
    pub is_two_handed: Option<bool>,
}

impl Clone for EquipmentRecord {
    fn clone(&self) -> (copy: Self)
        ensures
            copy == *self,
    {
        EquipmentRecord {
            id: self.id,
            name: self.name.clone(),
            version: match &self.version {
                Some(v) => Some(v.clone()),
                None => None,
            },
            slot: self.slot.clone(),
            image: self.image.clone(),
            category: match &self.category {
                Some(c) => Some(c.clone()),
                None => None,
            },
            speed: self.speed,
            attack_range: self.attack_range,
            is_two_handed: self.is_two_handed,
        }
    }
}

/// The version of a record as text: empty where it has none.
pub open spec fn version_text(version: Option<String>) -> Seq<char> {
    match version {
        Some(v) => v@,
        None => Seq::empty(),
    }
}

impl EquipmentRecord {
    /// A weapon record carries all four combat fields.
    pub open spec fn is_complete_weapon(&self) -> bool {
        &&& self.category is Some
        &&& self.speed is Some
        &&& self.attack_range is Some
        &&& self.is_two_handed is Some
    }

    /// Whether the record is tagged as a weapon: its slot tag reads "weapon"
    /// in any ASCII case.
    pub open spec fn is_weapon(&self) -> bool {
        text::same_ignoring_ascii_case(self.slot@, "weapon"@)
    }

    /// Whether the record may be offered: it is not the bare-hands entry,
    /// and if it is tagged as a weapon it is a complete one.
    pub open spec fn is_listable(&self) -> bool {
        &&& self.name@ != "Unarmed"@
        &&& (!self.is_weapon() || self.is_complete_weapon())
    }

    /// Decides whether the record may be offered.
    pub fn listable(&self) -> (ok: bool)
        ensures
            ok == self.is_listable(),
    {
        !text::same_text(self.name.as_str(), "Unarmed") && (!text::eq_ignore_ascii_case(
            self.slot.as_str(),
            "weapon",
        ) || (self.category.is_some() && self.speed.is_some() && self.attack_range.is_some()
            && self.is_two_handed.is_some()))
    }

    /// Path of the record's picture below the assets root.
    pub open spec fn image_path_text(&self) -> Seq<char> {
        "/assets/equipment/"@ + self.image@
    }

    pub fn image_path(&self) -> (path: String)
        ensures
            path@ == self.image_path_text(),
    {
        text::join2("/assets/equipment/", self.image.as_str())
    }

    /// The line that names the variant in a rendered row, if there is one.
    pub open spec fn version_label_text(&self) -> Option<Seq<char>> {
        match self.version {
            Some(v) => Some("Version: "@ + v@),
            None => None,
        }
    }

    pub fn version_label(&self) -> (label: Option<String>)
        ensures
            match label {
                Some(l) => self.version_label_text() == Some(l@),
                None => self.version_label_text() is None,
            },
    {
        match &self.version {
            Some(v) => Some(text::join2("Version: ", v.as_str())),
            None => None,
        }
    }
}

impl SearchItem for EquipmentRecord {
    /// A record is a hit if the term occurs in its lowercase name or in its
    /// lowercase version.
    open spec fn matches(&self, term: Seq<char>) -> bool {
        ||| text::is_substring(term, text::lowercased(self.name@))
        ||| text::is_substring(term, text::lowercased(version_text(self.version)))
    }

    /// The record's number, then name and version, joined by hyphens;
    /// `novariant` stands for no version.
    open spec fn key_text(&self) -> Seq<char> {
        text::tagged(
            self.id as nat,
            self.name@ + "-"@ + match self.version {
                Some(v) => v@,
                None => "novariant"@,
            },
        )
    }

    /// A record is told apart by its position in the asset.
    open spec fn ident(&self) -> nat {
        self.id as nat
    }

    proof fn lemma_key_identifies(&self, other: &Self) {
        text::lemma_tagged_distinct(
            self.id as nat,
            self.name@ + "-"@ + match self.version {
                Some(v) => v@,
                None => "novariant"@,
            },
            other.id as nat,
            other.name@ + "-"@ + match other.version {
                Some(v) => v@,
                None => "novariant"@,
            },
        );
    }

    fn is_match(&self, term: &str) -> (hit: bool) {
        let name = text::to_lowercase(self.name.as_str());
        if text::contains(name.as_str(), term) {
            return true;
        }
        let version = match &self.version {
            Some(v) => text::to_lowercase(v.as_str()),
            None => text::to_lowercase(""),
        };
        proof {
            reveal_strlit("");
            assert(""@ =~= Seq::<char>::empty());
        }
        text::contains(version.as_str(), term)
    }

    fn key(&self) -> (k: String) {
        let label = match &self.version {
            Some(v) => text::join3(self.name.as_str(), "-", v.as_str()),
            None => text::join3(self.name.as_str(), "-", "novariant"),
        };
        text::tag(self.id, label.as_str())
    }
}

/// The item catalog as the panel sees it.
#[derive(Debug, PartialEq, Eq)]
pub enum Catalog {
    /// The asset could not be read: the panel shows an error, not an empty list.
    Unavailable,
    /// The records that may be offered, in the order of the asset.
    Ready(Vec<EquipmentRecord>),
}

/// The test "this record may be offered".
pub open spec fn listable_test() -> spec_fn(EquipmentRecord) -> bool {
    |record: EquipmentRecord| record.is_listable()
}

/// A record with its number set.
pub open spec fn with_id(record: EquipmentRecord, id: usize) -> EquipmentRecord {
    EquipmentRecord { id, ..record }
}

/// The records of an asset, each numbered by its position.
pub open spec fn numbered(parsed: Seq<EquipmentRecord>) -> Seq<EquipmentRecord> {
    Seq::new(parsed.len(), |i: int| with_id(parsed[i], i as usize))
}

/// The records of `parsed` that may be offered, in their order.
pub open spec fn listable_records(parsed: Seq<EquipmentRecord>) -> Seq<EquipmentRecord> {
    parsed.filter(listable_test())
}

/// The catalog of an asset: its records that may be offered, in their
/// order, each numbered by its position in the asset.
pub open spec fn catalog_records(parsed: Seq<EquipmentRecord>) -> Seq<EquipmentRecord> {
    listable_records(numbered(parsed))
}

/// Builds the catalog from what reading the asset gave: `None` for an asset
/// that could not be read. The records are numbered here, whatever number
/// they came with.
pub fn load_catalog(parsed: Option<Vec<EquipmentRecord>>) -> (catalog: Catalog)
    ensures
        match parsed {
            None => catalog is Unavailable,
            Some(records) => catalog matches Catalog::Ready(kept) && kept@ == catalog_records(
                records@,
            ),
        },
{
    match parsed {
        None => Catalog::Unavailable,
        Some(records) => {
            let mut kept: Vec<EquipmentRecord> = Vec::new();
            let mut i: usize = 0;
            let ghost all = numbered(records@);
            proof {
                reveal(Seq::filter);
                assert(all.take(0) =~= Seq::<EquipmentRecord>::empty());
            }
            while i < records.len()
                invariant
                    i <= records.len(),
                    all == numbered(records@),
                    kept@ == all.take(i as int).filter(listable_test()),
                decreases records.len() - i,
            {
                let mut record = records[i].clone();
                record.id = i;
                proof {
                    reveal(Seq::filter);
                    assert(all.take(i + 1).drop_last() =~= all.take(i as int));
                    assert(all.take(i + 1).last() == with_id(records@[i as int], i));
                    assert(record == with_id(records@[i as int], i));
                }
                if record.listable() {
                    kept.push(record);
                }
                i += 1;
            }
            proof {
                assert(all.take(i as int) =~= all);
            }
            Catalog::Ready(kept)
        },
    }
}

/// Law: the catalog keeps exactly the records that may be offered, each as
/// often as it occurred, and nothing else.
pub proof fn lemma_listable_records(parsed: Seq<EquipmentRecord>)
    ensures
        listable_records(parsed).len() <= parsed.len(),
        forall|k: int|
            0 <= k < listable_records(parsed).len() ==> (#[trigger] listable_records(
                parsed,
            )[k]).is_listable(),
        forall|i: int|
            0 <= i < parsed.len() && (#[trigger] parsed[i]).is_listable() ==> listable_records(
                parsed,
            ).contains(parsed[i]),
        forall|k: int|
            0 <= k < listable_records(parsed).len() ==> parsed.contains(
                #[trigger] listable_records(parsed)[k],
            ),
{
    let pred = listable_test();
    parsed.lemma_filter_len(pred);
    assert forall|k: int| 0 <= k < parsed.filter(pred).len() implies (#[trigger] parsed.filter(
        pred,
    )[k]).is_listable() by {
        parsed.lemma_filter_pred(pred, k);
    }
    assert forall|i: int| 0 <= i < parsed.len() && (#[trigger] parsed[i]).is_listable() implies parsed.filter(
        pred,
    ).contains(parsed[i]) by {
        parsed.lemma_filter_contains(pred, i);
    }
    assert forall|k: int| 0 <= k < parsed.filter(pred).len() implies parsed.contains(
        #[trigger] parsed.filter(pred)[k],
    ) by {
        let e = parsed.filter(pred)[k];
        assert(parsed.filter(pred).contains(e));
        parsed.lemma_filter_contains_rev(pred, e);
    }
}

/// Law of the catalog. No record of it is the bare-hands entry or a weapon
/// without its combat fields; every record of it is a record of the asset,
/// found under its number; and no two of its records share a number or a
/// key.
pub proof fn lemma_catalog_records(parsed: Seq<EquipmentRecord>)
    requires
        parsed.len() <= usize::MAX,
    ensures
        search_bar::distinct_idents(catalog_records(parsed)),
        forall|k: int|
            0 <= k < catalog_records(parsed).len() ==> {
                &&& (#[trigger] catalog_records(parsed)[k]).name@ != "Unarmed"@
                &&& catalog_records(parsed)[k].is_weapon() ==> catalog_records(
                    parsed,
                )[k].is_complete_weapon()
                &&& catalog_records(parsed)[k].id < parsed.len()
                &&& catalog_records(parsed)[k] == with_id(
                    parsed[catalog_records(parsed)[k].id as int],
                    catalog_records(parsed)[k].id,
                )
            },
        forall|j: int, k: int|
            0 <= j < catalog_records(parsed).len() && 0 <= k < catalog_records(parsed).len() && j
                != k ==> (#[trigger] catalog_records(parsed)[j]).key_text() != (
            #[trigger] catalog_records(parsed)[k]).key_text(),
{
    let all = numbered(parsed);
    let kept = catalog_records(parsed);
    lemma_listable_records(all);
    assert(search_bar::distinct_idents(all));
    search_bar::lemma_filter_keeps_distinct_idents(all, listable_test());
    assert forall|k: int| 0 <= k < kept.len() implies {
        &&& (#[trigger] kept[k]).id < parsed.len()
        &&& kept[k] == with_id(parsed[kept[k].id as int], kept[k].id)
    } by {
        assert(all.contains(kept[k]));
        let at = choose|at: int| 0 <= at < all.len() && all[at] == kept[k];
        assert(all[at] == with_id(parsed[at], at as usize));
    }
    assert forall|j: int, k: int| 0 <= j < kept.len() && 0 <= k < kept.len() && j != k implies (
    #[trigger] kept[j]).key_text() != (#[trigger] kept[k]).key_text() by {
        search_bar::lemma_keys_are_unique(kept, j, k);
    }
}

/// The two shapes the game rules know for an item.
#[derive(Clone, Copy, Debug, PartialEq, Eq)]
pub enum EquipKind {
    Weapon,
    Armor,
}

/// How an attempt to equip a selected record ended.
#[derive(Debug, PartialEq, Eq)]
pub enum EquipOutcome {
    /// The game rules took the item.
    Equipped,
    /// The record could not be turned into the shape its slot asks for.
    NotConvertible,
    /// The game rules refused the item, with this explanation.
    Refused(String),
}

/// The lowercase word for a kind, as the messages use it.
pub open spec fn kind_word(kind: EquipKind) -> Seq<char> {
    match kind {
        EquipKind::Weapon => "weapon"@,
        EquipKind::Armor => "armor"@,
    }
}

impl EquipmentRecord {
    /// The shape a record has to be turned into: a weapon where its slot tag
    /// reads "weapon" in any ASCII case, armor otherwise.
    pub open spec fn equip_kind_spec(&self) -> EquipKind {
        if self.is_weapon() {
            EquipKind::Weapon
        } else {
            EquipKind::Armor
        }
    }

    pub fn equip_kind(&self) -> (kind: EquipKind)
        ensures
            kind == self.equip_kind_spec(),
    {
        if text::eq_ignore_ascii_case(self.slot.as_str(), "weapon") {
            EquipKind::Weapon
        } else {
            EquipKind::Armor
        }
    }

    /// The message to log after an attempt, none where it succeeded.
    pub open spec fn equip_report_text(&self, outcome: EquipOutcome) -> Option<Seq<char>> {
        match outcome {
            EquipOutcome::Equipped => None,
            EquipOutcome::NotConvertible => Some(
                "Failed to convert '"@ + self.name@ + "' to "@ + kind_word(self.equip_kind_spec()),
            ),
            EquipOutcome::Refused(why) => Some(
                "Failed to equip "@ + kind_word(self.equip_kind_spec()) + ": "@ + why@,
            ),
        }
    }

    /// Says what to log after an attempt to equip this record. A failure is
    /// only ever reported: the selector has reset by then.
    pub fn equip_report(&self, outcome: &EquipOutcome) -> (message: Option<String>)
        ensures
            match message {
                Some(m) => self.equip_report_text(*outcome) == Some(m@),
                None => self.equip_report_text(*outcome) is None,
            },
    {
        let word = match self.equip_kind() {
            EquipKind::Weapon => "weapon",
            EquipKind::Armor => "armor",
        };
        match outcome {
            EquipOutcome::Equipped => None,
            EquipOutcome::NotConvertible => {
                let mut m = text::join3("Failed to convert '", self.name.as_str(), "' to ");
                m.append(word);
                Some(m)
            },
            EquipOutcome::Refused(why) => {
                let mut m = text::join3("Failed to equip ", word, ": ");
                m.append(why.as_str());
                Some(m)
            },
        }
    }
}

/// Whether an attempt changed what the character wears, so that the
/// bonuses and set effects that derive from the gear have to be recomputed.
pub fn recompute_after(outcome: &EquipOutcome) -> (needed: bool)
    ensures
        needed == (*outcome is Equipped),
{
    match outcome {
        EquipOutcome::Equipped => true,
        EquipOutcome::NotConvertible => false,
        EquipOutcome::Refused(_) => false,
    }
}

} // verus!
