//! What the seed pages know of the game: its techs and notables, and the presets that list them.
//!
//! A tech is identified by a number, a notable by the numbers of its room and of itself.

use vstd::prelude::*;

verus! {

/// A numbered collection: `keys[i]` identifies the entry with number `i`.
pub struct IndexedVec<T> {
    pub keys: Vec<T>,
}

pub struct GameData {
    pub tech_isv: IndexedVec<usize>,
    pub notable_isv: IndexedVec<(usize, usize)>,
}

/// Which techs and notables a player is assumed to know, by their number in `GameData`.
pub struct DifficultyConfig {
    pub tech: Vec<bool>,
    pub notables: Vec<bool>,
}

/// For each preset, by name, the techs and the notables of its difficulty.
pub struct PresetData {
    pub tech_by_difficulty: Vec<(String, Vec<usize>)>,
    pub notables_by_difficulty: Vec<(String, Vec<(usize, usize)>)>,
}

/// What a table lists under a name: the first entry of that name, if there is one.
pub open spec fn entry<T>(table: Seq<(String, Vec<T>)>, name: Seq<char>) -> Option<Seq<T>>
    decreases table.len(),
{
    if table.len() == 0 {
        None
    } else if table[0].0@ == name {
        Some(table[0].1@)
    } else {
        entry(table.drop_first(), name)
    }
}

/// No two entries of a table have the same name.
pub open spec fn names_are_distinct<T>(table: Seq<(String, Vec<T>)>) -> bool {
    forall|i: int, j: int|
        0 <= i < j < table.len() ==> (#[trigger] table[i]).0@ != (#[trigger] table[j]).0@
}

/// In a table with distinct names every entry is found, wherever it stands.
pub proof fn every_entry_is_found<T>(table: Seq<(String, Vec<T>)>, i: int)
    requires
        names_are_distinct(table),
        0 <= i < table.len(),
    ensures
        entry(table, table[i].0@) == Some(table[i].1@),
    decreases i,
{
    if i > 0 {
        let rest = table.drop_first();
        assert(table[0].0@ != table[i].0@);
        assert(rest[i - 1] == table[i]);
        assert(names_are_distinct(rest)) by {
            assert forall|a: int, b: int| 0 <= a < b < rest.len() implies (
            #[trigger] rest[a]).0@ != (#[trigger] rest[b]).0@ by {
                assert(rest[a] == table[a + 1] && rest[b] == table[b + 1]);
            }
        }
        every_entry_is_found(rest, i - 1);
    }
}

impl PresetData {
    /// Each preset has one list of techs and one list of notables at most.
    pub open spec fn well_formed(self) -> bool {
        &&& names_are_distinct(self.tech_by_difficulty@)
        &&& names_are_distinct(self.notables_by_difficulty@)
    }

    /// Takes over the two tables, if no preset is in one of them twice.
    pub fn new(
        tech_by_difficulty: Vec<(String, Vec<usize>)>,
        notables_by_difficulty: Vec<(String, Vec<(usize, usize)>)>,
    ) -> (preset_data: Option<PresetData>)
        ensures
            preset_data is Some <==> names_are_distinct(tech_by_difficulty@) && names_are_distinct(
                notables_by_difficulty@,
            ),
            preset_data is Some ==> preset_data->0.well_formed(),
            preset_data is Some ==> preset_data->0.tech_by_difficulty == tech_by_difficulty,
            preset_data is Some ==> preset_data->0.notables_by_difficulty == notables_by_difficulty,
    {
        if has_distinct_names(&tech_by_difficulty) && has_distinct_names(&notables_by_difficulty) {
            Some(PresetData { tech_by_difficulty, notables_by_difficulty })
        } else {
            None
        }
    }
}

fn has_distinct_names<T>(table: &Vec<(String, Vec<T>)>) -> (distinct: bool)
    ensures
        distinct == names_are_distinct(table@),
{
    let mut j: usize = 0;
    while j < table.len()
        invariant
            j <= table.len(),
            names_are_distinct(table@.take(j as int)),
        decreases table.len() - j,
    {
        let mut i: usize = 0;
        while i < j
            invariant
                i <= j < table.len(),
                forall|k: int| 0 <= k < i ==> (#[trigger] table@[k]).0@ != table@[j as int].0@,
            decreases j - i,
        {
            if table[i].0 == table[j].0 {
                assert(table@[i as int].0@ == table@[j as int].0@);
                return false;
            }
            i = i + 1;
        }
        assert(names_are_distinct(table@.take(j + 1))) by {
            let now = table@.take(j + 1);
            let before = table@.take(j as int);
            assert forall|a: int, b: int| 0 <= a < b < now.len() implies (
            #[trigger] now[a]).0@ != (#[trigger] now[b]).0@ by {
                assert(now[a] == table@[a] && now[b] == table@[b]);
                if b < j {
                    assert(before[a] == now[a] && before[b] == now[b]);
                }
            }
        }
        j = j + 1;
    }
    assert(table@.take(j as int) == table@);
    true
}

/// Finds the list under a name.
pub fn find_entry<'a, T>(table: &'a Vec<(String, Vec<T>)>, name: &str) -> (found: Option<
    &'a Vec<T>,
>)
    ensures
        match found {
            Some(list) => entry(table@, name@) == Some(list@),
            None => entry(table@, name@) is None,
        },
{
    let wanted: String = name.to_owned();
    let mut i: usize = 0;
    assert(table@.skip(0) == table@);
    while i < table.len()
        invariant
            i <= table.len(),
            wanted@ == name@,
            entry(table@, name@) == entry(table@.skip(i as int), name@),
        decreases table.len() - i,
    {
        if table[i].0 == wanted {
            return Some(&table[i].1);
        }
        assert(table@.skip(i as int).drop_first() == table@.skip(i + 1));
        i = i + 1;
    }
    None
}

} // verus!
