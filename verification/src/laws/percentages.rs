//! What the percentage of a preset says.

use crate::enabled::{count_notables, count_tech, NotableSet, TechSet};
use crate::game;
use crate::game::find_entry;
use crate::percent::percent_of;
use crate::seed_page::SeedHeaderTemplate;
use crate::{enabled, percent, single};
use vstd::prelude::*;

verus! {

/// Counting the entries that are in a set is counting those that are left when the others are
/// dropped.
proof fn lemma_count<T>(list: Seq<T>, set: Set<T>, is_in: spec_fn(T) -> bool)
    requires
        forall|x: T| #[trigger] is_in(x) <==> set.contains(x),
    ensures
        enabled::count_in(list, set) == list.filter(is_in).len(),
    decreases list.len(),
{
    reveal(Seq::filter);
    if list.len() > 0 {
        lemma_count(list.drop_last(), set, is_in);
        assert(is_in(list.last()) <==> set.contains(list.last()));
    }
}

/// The first entry of a name is the one that is found.
proof fn lemma_entry<T>(table: Seq<(String, Vec<T>)>, name: Seq<char>, i: int)
    requires
        0 <= i < table.len(),
        table[i].0@ == name,
        forall|j: int| 0 <= j < i ==> (#[trigger] table[j]).0@ != name,
    ensures
        game::entry(table, name) == Some(table[i].1@),
    decreases i,
{
    if i > 0 {
        assert(table[0].0@ != name);
        let rest = table.drop_first();
        assert(rest[i - 1] == table[i]);
        assert forall|j: int| 0 <= j < i - 1 implies (#[trigger] rest[j]).0@ != name by {
            assert(table[j + 1].0@ != name);
        }
        lemma_entry(rest, name, i - 1);
    }
}

proof fn lemma_no_entry<T>(table: Seq<(String, Vec<T>)>, name: Seq<char>)
    ensures
        game::entry(table, name) is None <==> forall|i: int|
            0 <= i < table.len() ==> (#[trigger] table[i]).0@ != name,
    decreases table.len(),
{
    if table.len() > 0 {
        let rest = table.drop_first();
        lemma_no_entry(rest, name);
        if game::entry(table, name) is None {
            assert forall|i: int| 0 <= i < table.len() implies (
            #[trigger] table[i]).0@ != name by {
                if i > 0 {
                    assert(rest[i - 1].0@ != name);
                }
            }
        } else if table[0].0@ != name {
            let j = choose|j: int| 0 <= j < rest.len() && (#[trigger] rest[j]).0@ == name;
            assert(table[j + 1].0@ == name);
        }
    }
}

/// The list under a name is that of the first entry of that name, and there is none just when no
/// entry has it.
pub proof fn the_first_entry_is_found<T>(
    table: Vec<(String, Vec<T>)>,
    name: &str,
    found: Option<&Vec<T>>,
    i: int,
)
    requires
        call_ensures(find_entry::<T>, (&table, name), found),
    ensures
        found is None <==> forall|j: int|
            0 <= j < table@.len() ==> (#[trigger] table@[j]).0@ != name@,
        0 <= i < table@.len() && table@[i].0@ == name@ && (forall|j: int|
            0 <= j < i ==> (#[trigger] table@[j]).0@ != name@) ==> found is Some && found->0@
            == table@[i].1@,
{
    lemma_no_entry(table@, name@);
    if 0 <= i < table@.len() && table@[i].0@ == name@ && (forall|j: int|
        0 <= j < i ==> (#[trigger] table@[j]).0@ != name@) {
        lemma_entry(table@, name@, i);
    }
}

/// The number of techs of a list that are in a set is the length of the list without the others.
pub proof fn enabled_techs_are_counted(list: Vec<usize>, set: TechSet, count: usize)
    requires
        call_ensures(count_tech, (&list, &set), count),
    ensures
        count == list@.filter(|id: usize| set@.contains(id)).len(),
{
    lemma_count(list@, set@, |id: usize| set@.contains(id));
}

/// The number of notables of a list that are in a set is the length of the list without the
/// others.
pub proof fn enabled_notables_are_counted(
    list: Vec<(usize, usize)>,
    set: NotableSet,
    count: usize,
)
    requires
        call_ensures(count_notables, (&list, &set), count),
    ensures
        count == list@.filter(|id: (usize, usize)| set@.contains(id)).len(),
{
    lemma_count(list@, set@, |id: (usize, usize)| set@.contains(id));
}

/// A percentage is computed in single precision, each step correctly rounded: both counts, their
/// quotient, and a hundred times it. Its fractional part is dropped; but zero is kept for none at
/// all, and a hundred for a quotient of one. Of nothing, zero percent is shown.
pub proof fn percentages_are_computed_in_single_precision(
    enabled: usize,
    total: usize,
    shown: isize,
)
    requires
        enabled <= total,
        call_ensures(percent_of, (enabled, total), shown),
    ensures
        total == 0 ==> shown == 0,
        total > 0 ==> exists|a: (nat, nat), b: (nat, nat), f: (nat, nat), s: (nat, nat)|
            #[trigger] single::is_rounding(enabled as nat, 1, a)
                && #[trigger] single::is_rounding(total as nat, 1, b)
                && #[trigger] single::is_rounding(a.0 * b.1, a.1 * b.0, f)
                && #[trigger] single::is_rounding(100 * f.0, f.1, s)
                && shown == (if s.0 < s.1 && f.0 > 0 {
                1
            } else if s.0 / s.1 == 100 && f.0 < f.1 {
                99
            } else {
                s.0 / s.1
            }) as int,
{
    if total > 0 {
        let a = single::nearest(enabled as nat, 1);
        let b = single::nearest(total as nat, 1);
        let f = single::nearest(a.0 * b.1, a.1 * b.0);
        let s = single::nearest(100 * f.0, f.1);
        single::nearest_is_correctly_rounded(enabled as nat, 1);
        single::nearest_is_correctly_rounded(total as nat, 1);
        single::lemma_nearest_positive(enabled as nat, 1);
        single::lemma_nearest_positive(total as nat, 1);
        assert(a.1 * b.0 > 0) by (nonlinear_arith)
            requires
                a.1 > 0,
                b.0 > 0,
        ;
        single::nearest_is_correctly_rounded(a.0 * b.1, a.1 * b.0);
        single::lemma_nearest_positive(a.0 * b.1, a.1 * b.0);
        single::nearest_is_correctly_rounded(100 * f.0, f.1);
        single::lemma_nearest_positive(100 * f.0, f.1);
        assert(s.0 / s.1 == 0 <==> s.0 < s.1) by (nonlinear_arith)
            requires
                s.1 > 0,
        ;
    }
}

/// What the percentage of a preset says, where `i` and `k` are the places at which the tables list
/// the preset first: `enabled` is how many of its techs and notables, taken together, are enabled,
/// and `total` how many there are.
///
/// The percentage is that of the two numbers. It is zero just when nothing of the preset is
/// enabled, and a hundred just when everything is (up to 2^24 entries). It is at most one point
/// above the exact percentage and less than two below it. Of fewer than 2^14 entries, it is the
/// exact percentage without its fractional part, or one where that is zero; only a percentage that
/// is whole may be shown as one less.
pub proof fn the_percentage_is_of_techs_and_notables_together(
    header: SeedHeaderTemplate,
    preset_name: &str,
    i: int,
    k: int,
    shown: isize,
)
    requires
        call_ensures(SeedHeaderTemplate::percent_enabled, (&header, preset_name), shown),
        0 <= i < header.preset_data.tech_by_difficulty@.len(),
        header.preset_data.tech_by_difficulty@[i].0@ == preset_name@,
        forall|j: int|
            0 <= j < i ==> (#[trigger] header.preset_data.tech_by_difficulty@[j]).0@
                != preset_name@,
        0 <= k < header.preset_data.notables_by_difficulty@.len(),
        header.preset_data.notables_by_difficulty@[k].0@ == preset_name@,
        forall|j: int|
            0 <= j < k ==> (#[trigger] header.preset_data.notables_by_difficulty@[j]).0@
                != preset_name@,
    ensures
        ({
            let tech = header.preset_data.tech_by_difficulty@[i].1@;
            let notables = header.preset_data.notables_by_difficulty@[k].1@;
            let total = tech.len() + notables.len();
            let enabled = tech.filter(|id: usize| header.enabled_tech@.contains(id)).len()
                + notables.filter(
                |id: (usize, usize)| header.enabled_notables@.contains(id),
            ).len();
            &&& enabled <= total
            &&& total == 0 ==> shown == 0
            &&& total > 0 ==> {
                &&& shown == 0 <==> (forall|j: int|
                    0 <= j < tech.len() ==> !header.enabled_tech@.contains(#[trigger] tech[j])) && (
                forall|j: int|
                    0 <= j < notables.len() ==> !header.enabled_notables@.contains(
                        #[trigger] notables[j],
                    ))
                &&& shown == 0 <==> enabled == 0
                &&& total <= 0x100_0000 ==> (shown == 100 <==> enabled == total)
                &&& total <= 0x100_0000 ==> (shown == 100 <==> (forall|j: int|
                    0 <= j < tech.len() ==> header.enabled_tech@.contains(#[trigger] tech[j])) && (
                forall|j: int|
                    0 <= j < notables.len() ==> header.enabled_notables@.contains(
                        #[trigger] notables[j],
                    )))
                &&& enabled == total ==> shown == 100
                &&& shown * total <= 100 * enabled + total
                &&& 100 * enabled < (shown + 2) * total
                &&& total < 0x4000 && (100 * enabled) % total != 0 ==> shown == (if 100 * enabled
                    < total {
                    1
                } else {
                    (100 * enabled) / total
                }) as int
                &&& total < 0x4000 && (100 * enabled) % total == 0 ==> shown == ((100 * enabled)
                    / total) as int || shown == ((100 * enabled) / total) as int - 1
            }
            &&& forall|same: isize| #[trigger]
                call_ensures(percent_of, (enabled as usize, total as usize), same) && total
                    <= usize::MAX ==> shown == same
        }),
{
    lemma_entry(header.preset_data.tech_by_difficulty@, preset_name@, i);
    lemma_entry(header.preset_data.notables_by_difficulty@, preset_name@, k);
    let tech = header.preset_data.tech_by_difficulty@[i].1@;
    let notables = header.preset_data.notables_by_difficulty@[k].1@;
    lemma_count(tech, header.enabled_tech@, |id: usize| header.enabled_tech@.contains(id));
    lemma_count(
        notables,
        header.enabled_notables@,
        |id: (usize, usize)| header.enabled_notables@.contains(id),
    );
    enabled::count_in_is_bounded(tech, header.enabled_tech@);
    enabled::count_in_is_bounded(notables, header.enabled_notables@);
    let count = enabled::count_in(tech, header.enabled_tech@) + enabled::count_in(
        notables,
        header.enabled_notables@,
    );
    let total = tech.len() + notables.len();
    assert(shown == percent::percent(count, total));
    if total > 0 {
        percent::zero_percent_means_none(count, total);
        percent::hundred_percent_means_fraction_one(count, total);
        if total <= 0x100_0000 {
            percent::hundred_percent_means_all(count, total);
        }
        percent::percent_is_close(count, total);
        if 0 < count && total < 0x4000 {
            percent::percent_is_rounded_down(count, total);
        }
        if count == 0 {
            assert(0nat % total == 0 && 0nat / total == 0) by (nonlinear_arith)
                requires
                    total > 0,
            ;
        }
    }
}

} // verus!
