//! The skills panel: the skills it shows, their levels, the level input,
//! and the lookup of a player's levels by name.

use crate::text;
use vstd::prelude::*;

verus! {

/// The skills the panel shows.
#[derive(Clone, Copy, Debug, PartialEq, Eq)]
pub enum Skill {
    Attack,
    Strength,
    Defence,
    Ranged,
    Magic,
    Hitpoints,
    Prayer,
    Mining,
    Herblore,
}

/// The highest level a skill can be set to.
pub const MAX_LEVEL: u8 = 99;

impl Skill {
    /// The name of the skill as the panel shows it.
    pub open spec fn name_text(&self) -> Seq<char> {
        match self {
            Skill::Attack => "Attack"@,
            Skill::Strength => "Strength"@,
            Skill::Defence => "Defence"@,
            Skill::Ranged => "Ranged"@,
            Skill::Magic => "Magic"@,
            Skill::Hitpoints => "Hitpoints"@,
            Skill::Prayer => "Prayer"@,
            Skill::Mining => "Mining"@,
            Skill::Herblore => "Herblore"@,
        }
    }

    pub fn name(&self) -> (name: &'static str)
        ensures
            name@ == self.name_text(),
    {
        match self {
            Skill::Attack => "Attack",
            Skill::Strength => "Strength",
            Skill::Defence => "Defence",
            Skill::Ranged => "Ranged",
            Skill::Magic => "Magic",
            Skill::Hitpoints => "Hitpoints",
            Skill::Prayer => "Prayer",
            Skill::Mining => "Mining",
            Skill::Herblore => "Herblore",
        }
    }

    /// Path of the skill's icon in a folder of icons: the lowercase name.
    pub open spec fn icon_path_text(&self, folder: Seq<char>) -> Seq<char> {
        folder + "/"@ + text::lowercased(self.name_text()) + ".png"@
    }

    pub fn icon_path(&self, folder: &str) -> (path: String)
        ensures
            path@ == self.icon_path_text(folder@),
    {
        let file = text::to_lowercase(self.name());
        let mut path = text::join3(folder, "/", file.as_str());
        path.append(".png");
        path
    }
}

/// All skills in the order of the panel.
pub open spec fn all_skills_order() -> Seq<Skill> {
    seq![
        Skill::Attack,
        Skill::Strength,
        Skill::Defence,
        Skill::Ranged,
        Skill::Magic,
        Skill::Hitpoints,
        Skill::Prayer,
        Skill::Mining,
        Skill::Herblore,
    ]
}

/// The combat skills: what the header of the folded panel shows.
pub open spec fn combat_skills_order() -> Seq<Skill> {
    all_skills_order().take(6)
}

pub fn all_skills() -> (skills: Vec<Skill>)
    ensures
        skills@ == all_skills_order(),
{
    let skills = vec![
        Skill::Attack,
        Skill::Strength,
        Skill::Defence,
        Skill::Ranged,
        Skill::Magic,
        Skill::Hitpoints,
        Skill::Prayer,
        Skill::Mining,
        Skill::Herblore,
    ];
    assert(skills@ =~= all_skills_order());
    skills
}

pub fn combat_skills() -> (skills: Vec<Skill>)
    ensures
        skills@ == combat_skills_order(),
{
    let skills = vec![
        Skill::Attack,
        Skill::Strength,
        Skill::Defence,
        Skill::Ranged,
        Skill::Magic,
        Skill::Hitpoints,
    ];
    assert(skills@ =~= combat_skills_order());
    skills
}

/// The two lines of the summary in the header of the folded panel: the
/// first three combat skills, then the other three.
pub fn summary_rows() -> (rows: (Vec<Skill>, Vec<Skill>))
    ensures
        rows.0@ == combat_skills_order().subrange(0, 3),
        rows.1@ == combat_skills_order().subrange(3, 6),
        rows.0@ + rows.1@ == combat_skills_order(),
{
    let first = vec![Skill::Attack, Skill::Strength, Skill::Defence];
    let second = vec![Skill::Ranged, Skill::Magic, Skill::Hitpoints];
    assert(first@ =~= combat_skills_order().subrange(0, 3));
    assert(second@ =~= combat_skills_order().subrange(3, 6));
    assert(first@ + second@ =~= combat_skills_order());
    (first, second)
}

/// The level of one skill: what it is trained to and what it is right now.
#[derive(Clone, Copy, Debug, PartialEq, Eq)]
pub struct Level {
    pub base: u32,
    pub current: u32,
}

/// The levels of a character in the skills of the panel.
#[derive(Clone, Copy, Debug, PartialEq, Eq)]
pub struct Stats {
    pub attack: Level,
    pub strength: Level,
    pub defence: Level,
    pub ranged: Level,
    pub magic: Level,
    pub hitpoints: Level,
    pub prayer: Level,
    pub mining: Level,
    pub herblore: Level,
}

impl Stats {
    /// The level of a skill.
    pub open spec fn level_of(&self, skill: Skill) -> Level {
        match skill {
            Skill::Attack => self.attack,
            Skill::Strength => self.strength,
            Skill::Defence => self.defence,
            Skill::Ranged => self.ranged,
            Skill::Magic => self.magic,
            Skill::Hitpoints => self.hitpoints,
            Skill::Prayer => self.prayer,
            Skill::Mining => self.mining,
            Skill::Herblore => self.herblore,
        }
    }
}

/// Reads the base and the current level of a skill.
pub fn get_skill_levels(stats: &Stats, skill: Skill) -> (levels: (u32, u32))
    ensures
        levels.0 == stats.level_of(skill).base,
        levels.1 == stats.level_of(skill).current,
{
    match skill {
        Skill::Attack => (stats.attack.base, stats.attack.current),
        Skill::Strength => (stats.strength.base, stats.strength.current),
        Skill::Defence => (stats.defence.base, stats.defence.current),
        Skill::Ranged => (stats.ranged.base, stats.ranged.current),
        Skill::Magic => (stats.magic.base, stats.magic.current),
        Skill::Hitpoints => (stats.hitpoints.base, stats.hitpoints.current),
        Skill::Prayer => (stats.prayer.base, stats.prayer.current),
        Skill::Mining => (stats.mining.base, stats.mining.current),
        Skill::Herblore => (stats.herblore.base, stats.herblore.current),
    }
}

/// Sets the base level of one skill. Current levels and all other skills
/// stay; resetting the current levels afterwards is the game rules' part.
pub fn set_skill_base_level(stats: &mut Stats, skill: Skill, level: u32)
    ensures
        final(stats).level_of(skill).base == level,
        final(stats).level_of(skill).current == old(stats).level_of(skill).current,
        forall|other: Skill|
            other != skill ==> final(stats).level_of(other) == old(stats).level_of(other),
{
    match skill {
        Skill::Attack => stats.attack.base = level,
        Skill::Strength => stats.strength.base = level,
        Skill::Defence => stats.defence.base = level,
        Skill::Ranged => stats.ranged.base = level,
        Skill::Magic => stats.magic.base = level,
        Skill::Hitpoints => stats.hitpoints.base = level,
        Skill::Prayer => stats.prayer.base = level,
        Skill::Mining => stats.mining.base = level,
        Skill::Herblore => stats.herblore.base = level,
    }
}

/// Law: a level that was set is the level that is read, and setting one
/// skill changes what is read of no other.
pub proof fn lemma_level_of_updates(before: Stats, after: Stats, skill: Skill, level: u32)
    requires
        after.level_of(skill).base == level,
        after.level_of(skill).current == before.level_of(skill).current,
        forall|other: Skill| other != skill ==> after.level_of(other) == before.level_of(other),
    ensures
        forall|any: Skill|
            after.level_of(any) == if any == skill {
                Level { base: level, current: before.level_of(skill).current }
            } else {
                before.level_of(any)
            },
{
    assert forall|any: Skill|
        after.level_of(any) == if any == skill {
            Level { base: level, current: before.level_of(skill).current }
        } else {
            before.level_of(any)
        } by {
        if any != skill {
            assert(after.level_of(any) == before.level_of(any));
        }
    }
}

/// What the text of a level box sets the base level to: a number from 0 to
/// 99, written as `u8` texts are; nothing for any other text.
pub open spec fn level_input_value(input: Seq<char>) -> Option<u32> {
    match text::parsed_u8(input) {
        Some(level) => if level <= MAX_LEVEL {
            Some(level as u32)
        } else {
            None
        },
        None => None,
    }
}

/// Reads the text of a level box.
pub fn parse_level_input(input: &str) -> (level: Option<u32>)
    ensures
        level == level_input_value(input@),
{
    match text::parse_u8(input) {
        Some(level) => if level <= MAX_LEVEL {
            Some(level as u32)
        } else {
            None
        },
        None => None,
    }
}

/// How a lookup ended, as the host reports it.
#[derive(Debug, PartialEq, Eq)]
pub enum LookupOutcome {
    /// The levels were fetched, read and stored.
    Loaded,
    /// Fetching or reading failed, with this explanation.
    Failed(String),
}

/// The lookup of a player's levels by name: the name box, the busy flag and
/// the last error.
#[derive(Debug, PartialEq, Eq)]
pub struct StatLookup {
    /// The text in the name box.
    pub input: String,
    /// Whether a lookup is under way. The box and the button are inert then.
    pub loading: bool,
    /// The error of the last lookup, shown below the box.
    pub error: Option<String>,
}

/// The text of an optional error.
pub open spec fn error_text(error: Option<String>) -> Option<Seq<char>> {
    match error {
        Some(e) => Some(e@),
        None => None,
    }
}

/// The error shown for a lookup that failed with explanation `why`.
pub open spec fn failure_text(why: Seq<char>) -> Seq<char> {
    "Failed to lookup stats: "@ + why
}

impl StatLookup {
    /// An idle lookup with an empty name box.
    pub fn new() -> (lookup: Self)
        ensures
            lookup.input@.len() == 0,
            !lookup.loading,
            lookup.error is None,
    {
        StatLookup { input: String::new(), loading: false, error: None }
    }

    /// The name a lookup would ask for: the text of the box without the
    /// white space around it.
    pub open spec fn name(&self) -> Seq<char> {
        text::trimmed(self.input@)
    }

    /// Whether a lookup can start: there is a name and none is under way.
    pub open spec fn can_submit(&self) -> bool {
        !self.loading && self.name().len() > 0
    }

    /// The text of the name box changed. A busy lookup ignores its box.
    pub fn on_input(&mut self, text: String)
        ensures
            final(self).input@ == if old(self).loading {
                old(self).input@
            } else {
                text@
            },
            final(self).loading == old(self).loading,
            final(self).error == old(self).error,
    {
        if !self.loading {
            self.input = text;
        }
    }

    /// Whether the lookup button is inert.
    pub fn button_disabled(&self) -> (inert: bool)
        ensures
            inert == !self.can_submit(),
    {
        self.loading || text::trim(self.input.as_str()).is_empty()
    }

    /// The button was pressed. Where a lookup can start, it starts: the
    /// lookup turns busy, the old error goes, and the host is told the name
    /// to fetch. Otherwise nothing changes.
    pub fn submit(&mut self) -> (fetch: Option<String>)
        ensures
            final(self).input == old(self).input,
            match fetch {
                Some(name) => {
                    &&& old(self).can_submit()
                    &&& name@ == old(self).name()
                    &&& final(self).loading
                    &&& final(self).error is None
                },
                None => {
                    &&& !old(self).can_submit()
                    &&& final(self).loading == old(self).loading
                    &&& final(self).error == old(self).error
                },
            },
    {
        if self.loading {
            return None;
        }
        let name = text::trim(self.input.as_str());
        if name.is_empty() {
            return None;
        }
        let name = String::from_str(name);
        self.loading = true;
        self.error = None;
        Some(name)
    }

    /// A key went down in the name box. Enter in a box that is not empty is
    /// a press on the button; every other key and an empty box do nothing.
    pub fn on_key(&mut self, is_enter: bool) -> (fetch: Option<String>)
        ensures
            final(self).input == old(self).input,
            match fetch {
                Some(name) => {
                    &&& is_enter
                    &&& old(self).can_submit()
                    &&& name@ == old(self).name()
                    &&& final(self).loading
                    &&& final(self).error is None
                },
                None => {
                    &&& !(is_enter && old(self).can_submit())
                    &&& final(self).loading == old(self).loading
                    &&& final(self).error == old(self).error
                },
            },
    {
        if self.input.as_str().is_empty() {
            proof {
                assert(text::trimmed(self.input@).len() == 0);
            }
            return None;
        }
        if is_enter {
            self.submit()
        } else {
            None
        }
    }

    /// The lookup ended. It is never left busy: a success empties the name
    /// box, a failure leaves the box and shows the error.
    pub fn finish(&mut self, outcome: LookupOutcome)
        ensures
            !final(self).loading,
            match outcome {
                LookupOutcome::Loaded => {
                    &&& final(self).input@.len() == 0
                    &&& final(self).error == old(self).error
                },
                LookupOutcome::Failed(why) => {
                    &&& final(self).input == old(self).input
                    &&& error_text(final(self).error) == Some(failure_text(why@))
                },
            },
    {
        match outcome {
            LookupOutcome::Loaded => {
                self.input = String::new();
            },
            LookupOutcome::Failed(why) => {
                self.error = Some(text::join2("Failed to lookup stats: ", why.as_str()));
            },
        }
        self.loading = false;
    }
}

} // verus!
