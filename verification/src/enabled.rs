//! The techs and the notables that a seed has enabled.

use crate::game::GameData;
use vstd::prelude::*;

verus! {

/// A hash set of tech numbers.
#[verifier::external_body]
pub struct TechSet {
    ids: hashbrown::HashSet<usize>,
}

/// The tech numbers that a `TechSet` holds.
pub uninterp spec fn tech_ids(set: TechSet) -> Set<usize>;

impl View for TechSet {
    type V = Set<usize>;

    open spec fn view(&self) -> Set<usize> {
        tech_ids(*self)
    }
}

impl TechSet {
    /// `hashbrown::HashSet::new` on tech numbers: the set is empty.
    #[verifier::external_body]
    pub(crate) fn new() -> (set: TechSet)
        ensures
            tech_ids(set) == Set::<usize>::empty(),
    {
        TechSet { ids: hashbrown::HashSet::new() }
    }

    /// `hashbrown::HashSet::insert` on tech numbers: the number joins the set, and the result
    /// tells whether it was not in it before.
    #[verifier::external_body]
    pub(crate) fn insert(&mut self, id: usize) -> (added: bool)
        ensures
            tech_ids(*final(self)) == tech_ids(*old(self)).insert(id),
            added == !tech_ids(*old(self)).contains(id),
    {
        self.ids.insert(id)
    }

    /// `hashbrown::HashSet::contains` on tech numbers: whether the number is in the set.
    #[verifier::external_body]
    pub(crate) fn contains(&self, id: &usize) -> (found: bool)
        ensures
            found == tech_ids(*self).contains(*id),
    {
        self.ids.contains(id)
    }
}

/// A hash set of notables, each the number of a room and the number of the notable in it.
#[verifier::external_body]
pub struct NotableSet {
    ids: hashbrown::HashSet<(usize, usize)>,
}

/// The notables that a `NotableSet` holds.
pub uninterp spec fn notable_ids(set: NotableSet) -> Set<(usize, usize)>;

impl View for NotableSet {
    type V = Set<(usize, usize)>;

    open spec fn view(&self) -> Set<(usize, usize)> {
        notable_ids(*self)
    }
}

impl NotableSet {
    /// `hashbrown::HashSet::new` on notables: the set is empty.
    #[verifier::external_body]
    pub(crate) fn new() -> (set: NotableSet)
        ensures
            notable_ids(set) == Set::<(usize, usize)>::empty(),
    {
        NotableSet { ids: hashbrown::HashSet::new() }
    }

    /// `hashbrown::HashSet::insert` on notables: the notable joins the set, and the result tells
    /// whether it was not in it before.
    #[verifier::external_body]
    pub(crate) fn insert(&mut self, id: (usize, usize)) -> (added: bool)
        ensures
            notable_ids(*final(self)) == notable_ids(*old(self)).insert(id),
            added == !notable_ids(*old(self)).contains(id),
    {
        self.ids.insert(id)
    }

    /// `hashbrown::HashSet::contains` on notables: whether the notable is in the set.
    #[verifier::external_body]
    pub(crate) fn contains(&self, id: &(usize, usize)) -> (found: bool)
        ensures
            found == notable_ids(*self).contains(*id),
    {
        self.ids.contains(id)
    }
}

/// The keys whose flag is set.
pub open spec fn enabled_keys<T>(keys: Seq<T>, flags: Seq<bool>) -> Set<T> {
    Set::new(|key: T| exists|i: int| 0 <= i < keys.len() && flags[i] && #[trigger] keys[i] == key)
}

/// How many entries of a list are in a set.
pub open spec fn count_in<T>(list: Seq<T>, set: Set<T>) -> nat
    decreases list.len(),
{
    if list.len() == 0 {
        0
    } else {
        count_in(list.drop_last(), set) + (if set.contains(list.last()) {
            1nat
        } else {
            0
        })
    }
}

/// No more entries of a list are in a set than the list has; all of them are just when the set
/// holds every entry, and none just when it holds no entry.
pub proof fn count_in_is_bounded<T>(list: Seq<T>, set: Set<T>)
    ensures
        count_in(list, set) <= list.len(),
        count_in(list, set) == list.len() <==> forall|i: int|
            0 <= i < list.len() ==> set.contains(#[trigger] list[i]),
        count_in(list, set) == 0 <==> forall|i: int|
            0 <= i < list.len() ==> !set.contains(#[trigger] list[i]),
    decreases list.len(),
{
    if list.len() > 0 {
        let rest = list.drop_last();
        count_in_is_bounded(rest, set);
        assert(forall|i: int| 0 <= i < rest.len() ==> #[trigger] list[i] == rest[i]);
        assert(forall|i: int| 0 <= i < rest.len() ==> #[trigger] rest[i] == list[i]);
        assert(list[list.len() - 1] == list.last());
    }
}

/// A larger set holds no fewer entries of a list, and as many where it adds none of them.
pub proof fn larger_sets_count_no_less<T>(list: Seq<T>, set: Set<T>, larger: Set<T>)
    requires
        set.subset_of(larger),
    ensures
        count_in(list, set) <= count_in(list, larger),
        (forall|i: int|
            0 <= i < list.len() && larger.contains(#[trigger] list[i]) ==> set.contains(list[i]))
            ==> count_in(list, set) == count_in(list, larger),
    decreases list.len(),
{
    if list.len() > 0 {
        let rest = list.drop_last();
        larger_sets_count_no_less(rest, set, larger);
        assert(forall|i: int| 0 <= i < rest.len() ==> #[trigger] rest[i] == list[i]);
        assert(list[list.len() - 1] == list.last());
    }
}

/// The techs whose flag is set.
pub fn get_enabled_tech(tech: &[bool], game_data: &GameData) -> (tech_set: TechSet)
    requires
        tech@.len() >= game_data.tech_isv.keys@.len(),
    ensures
        tech_set@ == enabled_keys(game_data.tech_isv.keys@, tech@),
{
    let keys: &Vec<usize> = &game_data.tech_isv.keys;
    let mut tech_set: TechSet = TechSet::new();
    let mut i: usize = 0;
    assert(tech_set@ == enabled_keys(keys@.take(0), tech@));
    while i < keys.len()
        invariant
            i <= keys.len() <= tech.len(),
            tech_set@ == enabled_keys(keys@.take(i as int), tech@),
        decreases keys.len() - i,
    {
        if tech[i] {
            tech_set.insert(keys[i]);
        }
        proof {
            lemma_enabled_keys_step(keys@, tech@, i as int);
        }
        i = i + 1;
    }
    assert(keys@.take(i as int) == keys@);
    tech_set
}

/// The notables whose flag is set.
pub fn get_enabled_notables(notables: &[bool], game_data: &GameData) -> (notable_set: NotableSet)
    requires
        notables@.len() >= game_data.notable_isv.keys@.len(),
    ensures
        notable_set@ == enabled_keys(game_data.notable_isv.keys@, notables@),
{
    let keys: &Vec<(usize, usize)> = &game_data.notable_isv.keys;
    let mut notable_set: NotableSet = NotableSet::new();
    let mut i: usize = 0;
    assert(notable_set@ == enabled_keys(keys@.take(0), notables@));
    while i < keys.len()
        invariant
            i <= keys.len() <= notables.len(),
            notable_set@ == enabled_keys(keys@.take(i as int), notables@),
        decreases keys.len() - i,
    {
        if notables[i] {
            notable_set.insert(keys[i]);
        }
        proof {
            lemma_enabled_keys_step(keys@, notables@, i as int);
        }
        i = i + 1;
    }
    assert(keys@.take(i as int) == keys@);
    notable_set
}

proof fn lemma_enabled_keys_step<T>(keys: Seq<T>, flags: Seq<bool>, i: int)
    requires
        0 <= i < keys.len(),
    ensures
        enabled_keys(keys.take(i + 1), flags) == (if flags[i] {
            enabled_keys(keys.take(i), flags).insert(keys[i])
        } else {
            enabled_keys(keys.take(i), flags)
        }),
{
    let before = keys.take(i);
    let after = keys.take(i + 1);
    let rest = enabled_keys(before, flags);
    let whole = if flags[i] {
        rest.insert(keys[i])
    } else {
        rest
    };
    assert forall|key: T| enabled_keys(after, flags).contains(key) <==> whole.contains(key) by {
        if enabled_keys(after, flags).contains(key) {
            let k = choose|k: int| 0 <= k < after.len() && flags[k] && #[trigger] after[k] == key;
            if k < i {
                assert(before[k] == key);
            }
        }
        if rest.contains(key) {
            let k = choose|k: int| 0 <= k < before.len() && flags[k] && #[trigger] before[k] == key;
            assert(after[k] == key);
        }
        if flags[i] && key == keys[i] {
            assert(after[i] == key);
        }
    }
    assert(enabled_keys(after, flags) =~= whole);
}

/// Counts the techs of a list that are in a set.
pub fn count_tech(list: &Vec<usize>, set: &TechSet) -> (count: usize)
    ensures
        count == count_in(list@, set@),
{
    let mut count: usize = 0;
    let mut i: usize = 0;
    while i < list.len()
        invariant
            count <= i <= list.len(),
            count == count_in(list@.take(i as int), set@),
        decreases list.len() - i,
    {
        if set.contains(&list[i]) {
            count = count + 1;
        }
        assert(list@.take(i + 1).drop_last() == list@.take(i as int));
        i = i + 1;
    }
    assert(list@.take(i as int) == list@);
    count
}

/// Counts the notables of a list that are in a set.
pub fn count_notables(list: &Vec<(usize, usize)>, set: &NotableSet) -> (count: usize)
    ensures
        count == count_in(list@, set@),
{
    let mut count: usize = 0;
    let mut i: usize = 0;
    while i < list.len()
        invariant
            count <= i <= list.len(),
            count == count_in(list@.take(i as int), set@),
        decreases list.len() - i,
    {
        if set.contains(&list[i]) {
            count = count + 1;
        }
        assert(list@.take(i + 1).drop_last() == list@.take(i as int));
        i = i + 1;
    }
    assert(list@.take(i as int) == list@);
    count
}

} // verus!
