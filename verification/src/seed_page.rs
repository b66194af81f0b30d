//! The page of a seed: what its header and its footer show.

use crate::app_data::{AppData, VersionInfo};
use crate::enabled::{
    count_notables, count_tech, get_enabled_notables, get_enabled_tech, NotableSet, TechSet,
};
use crate::game::{find_entry, DifficultyConfig, GameData, PresetData};
use crate::percent::percent_of;
use crate::settings::{
    AreaAssignment, DoorLocksSize, ETankRefill, FillerItemPriority, ItemCount, ItemDotChange,
    KeyItemPriority, MapStationReveal, MapsRevealed, OtherSettings, RandomizerSettings, WallJump,
};
use crate::text::{decimal_string, join};
use crate::{enabled, game, percent, text};
use vstd::prelude::*;

verus! {

/// What is recorded of a generated seed. A choice that the page only prints is given by its name.
pub struct SeedData {
    /// Milliseconds since the UNIX epoch.
    pub timestamp: usize,
    pub random_seed: usize,
    pub race_mode: bool,
    pub preset: Option<String>,
    pub item_progression_preset: Option<String>,
    pub difficulty: DifficultyConfig,
    pub quality_of_life_preset: Option<String>,
    pub settings: RandomizerSettings,
    pub supers_double: bool,
    pub mother_brain_fight: String,
    pub escape_enemies_cleared: bool,
    pub escape_refill: bool,
    pub escape_movement_items: bool,
    pub mark_map_stations: bool,
    pub item_markers: String,
    pub all_items_spawn: bool,
    pub acid_chozo: bool,
    pub buffed_drops: bool,
    pub fast_elevators: bool,
    pub fast_doors: bool,
    pub fast_pause_menu: bool,
    pub respin: bool,
    pub infinite_space_jump: bool,
    pub momentum_conservation: bool,
    pub objectives: String,
    pub doors: String,
    pub start_location_mode: String,
    pub map_layout: String,
    pub save_animals: String,
    pub early_save: bool,
    pub ultra_low_qol: bool,
}

/// The items that share a priority.
pub struct ItemPriorityGroup {
    pub priority: String,
    pub items: Vec<String>,
}

/// What the header of a seed's page shows.
pub struct SeedHeaderTemplate<'a> {
    pub seed_name: String,
    /// Milliseconds since the UNIX epoch.
    pub timestamp: usize,
    pub random_seed: usize,
    pub version_info: VersionInfo,
    pub settings: &'a RandomizerSettings,
    pub item_priority_groups: Vec<ItemPriorityGroup>,
    pub race_mode: bool,
    pub preset: String,
    pub item_progression_preset: String,
    pub progression_rate: String,
    pub random_tank: bool,
    pub filler_items: Vec<String>,
    pub semi_filler_items: Vec<String>,
    pub early_filler_items: Vec<String>,
    pub item_placement_style: String,
    pub difficulty: &'a DifficultyConfig,
    pub quality_of_life_preset: String,
    pub supers_double: bool,
    pub mother_brain_fight: String,
    pub escape_enemies_cleared: bool,
    pub escape_refill: bool,
    pub escape_movement_items: bool,
    pub mark_map_stations: bool,
    pub item_markers: String,
    pub all_items_spawn: bool,
    pub acid_chozo: bool,
    pub buffed_drops: bool,
    pub fast_elevators: bool,
    pub fast_doors: bool,
    pub fast_pause_menu: bool,
    pub respin: bool,
    pub infinite_space_jump: bool,
    pub momentum_conservation: bool,
    pub objectives: String,
    pub doors: String,
    pub start_location_mode: String,
    pub map_layout: String,
    pub save_animals: String,
    pub early_save: bool,
    pub preset_data: &'a PresetData,
    pub enabled_tech: TechSet,
    pub enabled_notables: NotableSet,
}

/// What the footer of a seed's page shows.
pub struct SeedFooterTemplate {
    pub race_mode: bool,
    pub all_items_spawn: bool,
    pub supers_double: bool,
    pub ultra_low_qol: bool,
}

/// An item with its number of copies, which is left out where it is not more than one.
pub open spec fn item_label(item: ItemCount) -> Seq<char> {
    if item.count > 1 {
        item.item@ + " ("@ + text::decimal(item.count as nat) + ")"@
    } else {
        item.item@
    }
}

/// The labels of the items, or only of those with at least one copy.
pub open spec fn item_labels(items: Seq<ItemCount>, skip_absent: bool) -> Seq<Seq<char>>
    decreases items.len(),
{
    if items.len() == 0 {
        Seq::empty()
    } else {
        let rest = item_labels(items.drop_last(), skip_absent);
        if skip_absent && items.last().count == 0 {
            rest
        } else {
            rest.push(item_label(items.last()))
        }
    }
}

/// Nothing, or the one line, as a condition says.
pub open spec fn line_if(shown: bool, line: Seq<char>) -> Seq<Seq<char>> {
    if shown {
        seq![line]
    } else {
        Seq::empty()
    }
}

/// A line for each setting that changes the game, in the order of the page.
pub open spec fn variation_lines(o: OtherSettings) -> Seq<Seq<char>> {
    line_if(o.area_assignment is Random, "Random area assignment"@)
        + line_if(o.item_dot_change is Disappear, "Item dots disappear after collection"@)
        + line_if(!o.transition_letters, "Area transitions marked as arrows"@)
        + line_if(o.door_locks_size is Small, "Door locks drawn smaller on map"@)
        + line_if(o.wall_jump is Collectible, "Collectible wall jump"@)
        + line_if(o.etank_refill is Disabled, "E-Tank refill disabled"@)
        + line_if(o.etank_refill is Full, "E-Tanks refill reserves"@)
        + line_if(o.maps_revealed is Partial, "Maps partially revealed from start"@)
        + line_if(o.maps_revealed is Full, "Maps revealed from start"@)
        + line_if(o.map_station_reveal is Partial, "Map stations give partial reveal"@)
        + line_if(o.energy_free_shinesparks, "Energy-free shinesparks"@)
        + line_if(o.ultra_low_qol, "Ultra-low quality of life"@)
}

/// A line is one of a list.
#[verifier::opaque]
spec fn is_among(list: Seq<Seq<char>>, line: Seq<char>) -> bool {
    list.contains(line)
}

/// A line that stands alone is there just when it is shown.
proof fn lemma_line_if(shown: bool, line: Seq<char>, x: Seq<char>)
    ensures
        is_among(line_if(shown, line), x) <==> shown && x == line,
{
    reveal(is_among);
    if shown {
        assert(line_if(shown, line)[0] == line);
    }
}

/// A line after others is there when it was there before, or is itself shown.
proof fn lemma_line_after(before: Seq<Seq<char>>, shown: bool, line: Seq<char>, x: Seq<char>)
    ensures
        is_among(before + line_if(shown, line), x) <==> is_among(before, x) || (shown && x == line),
{
    reveal(is_among);
    let after = before + line_if(shown, line);
    if after.contains(x) {
        let k = after.index_of(x);
        if k < before.len() {
            assert(before[k] == x);
        }
    }
    if before.contains(x) {
        let k = before.index_of(x);
        assert(after[k] == x);
    }
    if shown && x == line {
        assert(after[before.len() as int] == x);
    }
}

/// The lines that are shown are those whose setting asks for them.
proof fn lemma_variation_lines(o: OtherSettings, x: Seq<char>)
    ensures
        is_among(variation_lines(o), x) <==> {
            ||| o.area_assignment is Random && x == "Random area assignment"@
            ||| o.item_dot_change is Disappear && x == "Item dots disappear after collection"@
            ||| !o.transition_letters && x == "Area transitions marked as arrows"@
            ||| o.door_locks_size is Small && x == "Door locks drawn smaller on map"@
            ||| o.wall_jump is Collectible && x == "Collectible wall jump"@
            ||| o.etank_refill is Disabled && x == "E-Tank refill disabled"@
            ||| o.etank_refill is Full && x == "E-Tanks refill reserves"@
            ||| o.maps_revealed is Partial && x == "Maps partially revealed from start"@
            ||| o.maps_revealed is Full && x == "Maps revealed from start"@
            ||| o.map_station_reveal is Partial && x == "Map stations give partial reveal"@
            ||| o.energy_free_shinesparks && x == "Energy-free shinesparks"@
            ||| o.ultra_low_qol && x == "Ultra-low quality of life"@
        },
{
    let s0 = line_if(o.area_assignment is Random, "Random area assignment"@);
    lemma_line_if(o.area_assignment is Random, "Random area assignment"@, x);
    let s1 = s0 + line_if(o.item_dot_change is Disappear, "Item dots disappear after collection"@);
    lemma_line_after(
        s0,
        o.item_dot_change is Disappear,
        "Item dots disappear after collection"@,
        x,
    );
    let s2 = s1 + line_if(!o.transition_letters, "Area transitions marked as arrows"@);
    lemma_line_after(s1, !o.transition_letters, "Area transitions marked as arrows"@, x);
    let s3 = s2 + line_if(o.door_locks_size is Small, "Door locks drawn smaller on map"@);
    lemma_line_after(s2, o.door_locks_size is Small, "Door locks drawn smaller on map"@, x);
    let s4 = s3 + line_if(o.wall_jump is Collectible, "Collectible wall jump"@);
    lemma_line_after(s3, o.wall_jump is Collectible, "Collectible wall jump"@, x);
    let s5 = s4 + line_if(o.etank_refill is Disabled, "E-Tank refill disabled"@);
    lemma_line_after(s4, o.etank_refill is Disabled, "E-Tank refill disabled"@, x);
    let s6 = s5 + line_if(o.etank_refill is Full, "E-Tanks refill reserves"@);
    lemma_line_after(s5, o.etank_refill is Full, "E-Tanks refill reserves"@, x);
    let s7 = s6 + line_if(o.maps_revealed is Partial, "Maps partially revealed from start"@);
    lemma_line_after(s6, o.maps_revealed is Partial, "Maps partially revealed from start"@, x);
    let s8 = s7 + line_if(o.maps_revealed is Full, "Maps revealed from start"@);
    lemma_line_after(s7, o.maps_revealed is Full, "Maps revealed from start"@, x);
    let s9 = s8 + line_if(o.map_station_reveal is Partial, "Map stations give partial reveal"@);
    lemma_line_after(s8, o.map_station_reveal is Partial, "Map stations give partial reveal"@, x);
    let s10 = s9 + line_if(o.energy_free_shinesparks, "Energy-free shinesparks"@);
    lemma_line_after(s9, o.energy_free_shinesparks, "Energy-free shinesparks"@, x);
    let s11 = s10 + line_if(o.ultra_low_qol, "Ultra-low quality of life"@);
    lemma_line_after(s10, o.ultra_low_qol, "Ultra-low quality of life"@, x);
}

/// Each line about a variation is shown exactly when its setting asks for it.
pub proof fn variations_are_shown_as_set(o: OtherSettings)
    ensures
        variation_lines(o).contains("Random area assignment"@) <==> (o.area_assignment is Random),
        variation_lines(o).contains("Item dots disappear after collection"@)
            <==> (o.item_dot_change is Disappear),
        variation_lines(o).contains("Area transitions marked as arrows"@)
            <==> !o.transition_letters,
        variation_lines(o).contains("Door locks drawn smaller on map"@)
            <==> (o.door_locks_size is Small),
        variation_lines(o).contains("Collectible wall jump"@) <==> (o.wall_jump is Collectible),
        variation_lines(o).contains("E-Tank refill disabled"@) <==> (o.etank_refill is Disabled),
        variation_lines(o).contains("E-Tanks refill reserves"@) <==> (o.etank_refill is Full),
        variation_lines(o).contains("Maps partially revealed from start"@)
            <==> (o.maps_revealed is Partial),
        variation_lines(o).contains("Maps revealed from start"@) <==> (o.maps_revealed is Full),
        variation_lines(o).contains("Map stations give partial reveal"@)
            <==> (o.map_station_reveal is Partial),
        variation_lines(o).contains("Energy-free shinesparks"@) <==> o.energy_free_shinesparks,
        variation_lines(o).contains("Ultra-low quality of life"@) <==> o.ultra_low_qol,
{
    reveal_strlit("Random area assignment");
    reveal_strlit("Item dots disappear after collection");
    reveal_strlit("Area transitions marked as arrows");
    reveal_strlit("Door locks drawn smaller on map");
    reveal_strlit("Collectible wall jump");
    reveal_strlit("E-Tank refill disabled");
    reveal_strlit("E-Tanks refill reserves");
    reveal_strlit("Maps partially revealed from start");
    reveal_strlit("Maps revealed from start");
    reveal_strlit("Map stations give partial reveal");
    reveal_strlit("Energy-free shinesparks");
    reveal_strlit("Ultra-low quality of life");
    assert("Random area assignment"@.len() == 22);
    assert("Item dots disappear after collection"@.len() == 36);
    assert("Area transitions marked as arrows"@.len() == 33);
    assert("Door locks drawn smaller on map"@.len() == 31);
    assert("Collectible wall jump"@.len() == 21);
    assert("E-Tank refill disabled"@.len() == 22);
    assert("E-Tanks refill reserves"@.len() == 23);
    assert("Maps partially revealed from start"@.len() == 34);
    assert("Maps revealed from start"@.len() == 24);
    assert("Map stations give partial reveal"@.len() == 32);
    assert("Energy-free shinesparks"@.len() == 23);
    assert("Ultra-low quality of life"@.len() == 25);
    assert("Random area assignment"@[0] != "E-Tank refill disabled"@[0]);
    assert("E-Tanks refill reserves"@[1] != "Energy-free shinesparks"@[1]);
    lemma_variation_lines(o, "Random area assignment"@);
    lemma_variation_lines(o, "Item dots disappear after collection"@);
    lemma_variation_lines(o, "Area transitions marked as arrows"@);
    lemma_variation_lines(o, "Door locks drawn smaller on map"@);
    lemma_variation_lines(o, "Collectible wall jump"@);
    lemma_variation_lines(o, "E-Tank refill disabled"@);
    lemma_variation_lines(o, "E-Tanks refill reserves"@);
    lemma_variation_lines(o, "Maps partially revealed from start"@);
    lemma_variation_lines(o, "Maps revealed from start"@);
    lemma_variation_lines(o, "Map stations give partial reveal"@);
    lemma_variation_lines(o, "Energy-free shinesparks"@);
    lemma_variation_lines(o, "Ultra-low quality of life"@);
    reveal(is_among);
}

/// What a list of string slices says.
pub open spec fn lines(list: Seq<&str>) -> Seq<Seq<char>> {
    Seq::new(list.len(), |i: int| list[i]@)
}

fn push_if<'a>(list: &mut Vec<&'a str>, shown: bool, line: &'a str)
    ensures
        lines(final(list)@) == lines(old(list)@) + line_if(shown, line@),
{
    if shown {
        list.push(line);
    }
}

fn label(item: &ItemCount) -> (s: String)
    ensures
        s@ == item_label(*item),
{
    let mut s: String = item.item.clone();
    if item.count > 1 {
        s.append(" (");
        s.append(decimal_string(item.count).as_str());
        s.append(")");
    }
    s
}

fn labels(items: &Vec<ItemCount>, skip_absent: bool) -> (list: Vec<String>)
    ensures
        text::texts(list@) == item_labels(items@, skip_absent),
{
    let mut list: Vec<String> = Vec::new();
    let mut i: usize = 0;
    while i < items.len()
        invariant
            i <= items.len(),
            text::texts(list@) == item_labels(items@.take(i as int), skip_absent),
        decreases items.len() - i,
    {
        let ghost before = list@;
        if !(skip_absent && items[i].count == 0) {
            let s: String = label(&items[i]);
            list.push(s);
            assert(text::texts(list@) == text::texts(before).push(s@));
        }
        assert(items@.take(i + 1).drop_last() == items@.take(i as int));
        i = i + 1;
    }
    assert(items@.take(i as int) == items@);
    list
}

impl<'a> SeedHeaderTemplate<'a> {
    /// The techs of a preset.
    pub open spec fn preset_tech(self, preset_name: Seq<char>) -> Option<Seq<usize>> {
        game::entry(self.preset_data.tech_by_difficulty@, preset_name)
    }

    /// The notables of a preset.
    pub open spec fn preset_notables(self, preset_name: Seq<char>) -> Option<Seq<(usize, usize)>> {
        game::entry(self.preset_data.notables_by_difficulty@, preset_name)
    }

    /// The percentage of a preset's techs and notables, taken together, that are enabled.
    pub open spec fn preset_percent(self, preset_name: Seq<char>) -> int {
        let tech = self.preset_tech(preset_name)->0;
        let notables = self.preset_notables(preset_name)->0;
        percent::percent(
            enabled::count_in(tech, self.enabled_tech@) + enabled::count_in(
                notables,
                self.enabled_notables@,
            ),
            tech.len() + notables.len(),
        )
    }

    /// How much of a preset the seed has enabled, in percent.
    pub fn percent_enabled(&self, preset_name: &str) -> (shown: isize)
        requires
            self.preset_tech(preset_name@) is Some,
            self.preset_notables(preset_name@) is Some,
            self.preset_tech(preset_name@)->0.len() + self.preset_notables(preset_name@)->0.len()
                <= usize::MAX,
        ensures
            shown == self.preset_percent(preset_name@),
    {
        let tech: &Vec<usize> =
            find_entry(&self.preset_data.tech_by_difficulty, preset_name).unwrap();
        let tech_enabled_count: usize = count_tech(tech, &self.enabled_tech);
        let notables: &Vec<(usize, usize)> =
            find_entry(&self.preset_data.notables_by_difficulty, preset_name).unwrap();
        let notable_enabled_count: usize = count_notables(notables, &self.enabled_notables);
        proof {
            enabled::count_in_is_bounded(tech@, self.enabled_tech@);
            enabled::count_in_is_bounded(notables@, self.enabled_notables@);
        }
        let total_enabled_count: usize = tech_enabled_count + notable_enabled_count;
        let total_count: usize = tech.len() + notables.len();
        percent_of(total_enabled_count, total_count)
    }

    /// The item pool, as a list of items.
    pub fn item_pool_strs(&self) -> (s: String)
        ensures
            s@ == text::joined(
                item_labels(self.settings.item_progression_settings.item_pool@, false),
                ", "@,
            ),
    {
        join(&labels(&self.settings.item_progression_settings.item_pool, false), ", ")
    }

    /// The starting items, as a list without those that are absent.
    pub fn starting_items_strs(&self) -> (s: String)
        ensures
            s@ == text::joined(
                item_labels(self.settings.item_progression_settings.starting_items@, true),
                ", "@,
            ),
    {
        join(&labels(&self.settings.item_progression_settings.starting_items, true), ", ")
    }

    /// The settings that change the game, each in a line.
    pub fn game_variations(&self) -> (game_variations: Vec<&str>)
        ensures
            lines(game_variations@) == variation_lines(self.settings.other_settings),
    {
        let other: &OtherSettings = &self.settings.other_settings;
        let mut list: Vec<&str> = Vec::new();
        assert(lines(list@) == Seq::<Seq<char>>::empty());
        push_if(
            &mut list,
            other.area_assignment == AreaAssignment::Random,
            "Random area assignment",
        );
        push_if(
            &mut list,
            other.item_dot_change == ItemDotChange::Disappear,
            "Item dots disappear after collection",
        );
        push_if(&mut list, !other.transition_letters, "Area transitions marked as arrows");
        push_if(
            &mut list,
            other.door_locks_size == DoorLocksSize::Small,
            "Door locks drawn smaller on map",
        );
        push_if(&mut list, other.wall_jump == WallJump::Collectible, "Collectible wall jump");
        push_if(&mut list, other.etank_refill == ETankRefill::Disabled, "E-Tank refill disabled");
        push_if(&mut list, other.etank_refill == ETankRefill::Full, "E-Tanks refill reserves");
        push_if(
            &mut list,
            other.maps_revealed == MapsRevealed::Partial,
            "Maps partially revealed from start",
        );
        push_if(&mut list, other.maps_revealed == MapsRevealed::Full, "Maps revealed from start");
        push_if(
            &mut list,
            other.map_station_reveal == MapStationReveal::Partial,
            "Map stations give partial reveal",
        );
        push_if(&mut list, other.energy_free_shinesparks, "Energy-free shinesparks");
        push_if(&mut list, other.ultra_low_qol, "Ultra-low quality of life");
        list
    }
}

/// What the percentage of a preset says of the seed: it is zero just when nothing of the preset is
/// enabled, and a hundred when all of it is. For presets with at most 2^24 entries it is a hundred
/// only then.
pub proof fn percent_enabled_extremes(
    tech: Seq<usize>,
    enabled_tech: Set<usize>,
    notables: Seq<(usize, usize)>,
    enabled_notables: Set<(usize, usize)>,
)
    requires
        tech.len() + notables.len() > 0,
    ensures
        ({
            let shown = percent::percent(
                enabled::count_in(tech, enabled_tech) + enabled::count_in(
                    notables,
                    enabled_notables,
                ),
                tech.len() + notables.len(),
            );
            let none = (forall|i: int|
                0 <= i < tech.len() ==> !enabled_tech.contains(#[trigger] tech[i]))
                && (forall|i: int|
                0 <= i < notables.len() ==> !enabled_notables.contains(#[trigger] notables[i]));
            let all = (forall|i: int|
                0 <= i < tech.len() ==> enabled_tech.contains(#[trigger] tech[i]))
                && (forall|i: int|
                0 <= i < notables.len() ==> enabled_notables.contains(#[trigger] notables[i]));
            &&& shown == 0 <==> none
            &&& all ==> shown == 100
            &&& shown == 100 && tech.len() + notables.len() <= 0x100_0000 ==> all
        }),
{
    let count = enabled::count_in(tech, enabled_tech) + enabled::count_in(
        notables,
        enabled_notables,
    );
    let total = tech.len() + notables.len();
    enabled::count_in_is_bounded(tech, enabled_tech);
    enabled::count_in_is_bounded(notables, enabled_notables);
    percent::zero_percent_means_none(count, total);
    percent::hundred_percent_means_fraction_one(count, total);
    if total <= 0x100_0000 {
        percent::hundred_percent_means_all(count, total);
    }
}

/// Of two headers over the same presets, the one with more enabled shows no smaller a percentage of
/// any preset, and the same one where nothing of that preset is added.
pub proof fn more_enabled_shows_no_less(
    a: SeedHeaderTemplate,
    b: SeedHeaderTemplate,
    preset_name: Seq<char>,
)
    requires
        *a.preset_data == *b.preset_data,
        a.enabled_tech@.subset_of(b.enabled_tech@),
        a.enabled_notables@.subset_of(b.enabled_notables@),
        a.preset_tech(preset_name) is Some,
        a.preset_notables(preset_name) is Some,
    ensures
        a.preset_percent(preset_name) <= b.preset_percent(preset_name),
        (forall|id: usize|
            a.preset_tech(preset_name)->0.contains(id) && #[trigger] b.enabled_tech@.contains(id)
                ==> a.enabled_tech@.contains(id)) && (forall|id: (usize, usize)|
            a.preset_notables(preset_name)->0.contains(id)
                && #[trigger] b.enabled_notables@.contains(id) ==> a.enabled_notables@.contains(id))
            ==> a.preset_percent(preset_name) == b.preset_percent(preset_name),
{
    let tech = a.preset_tech(preset_name)->0;
    let notables = a.preset_notables(preset_name)->0;
    enabled::larger_sets_count_no_less(tech, a.enabled_tech@, b.enabled_tech@);
    enabled::larger_sets_count_no_less(notables, a.enabled_notables@, b.enabled_notables@);
    enabled::count_in_is_bounded(tech, b.enabled_tech@);
    enabled::count_in_is_bounded(notables, b.enabled_notables@);
    percent::percent_is_monotone(
        enabled::count_in(tech, a.enabled_tech@) + enabled::count_in(notables, a.enabled_notables@),
        enabled::count_in(tech, b.enabled_tech@) + enabled::count_in(notables, b.enabled_notables@),
        tech.len() + notables.len(),
    );
    assert(forall|i: int| 0 <= i < tech.len() ==> tech.contains(#[trigger] tech[i]));
    assert(forall|i: int| 0 <= i < notables.len() ==> notables.contains(#[trigger] notables[i]));
}

/// A list of pieces that all say something says nothing just when it has no pieces.
proof fn lemma_joined_is_empty(pieces: Seq<Seq<char>>, separator: Seq<char>)
    requires
        forall|i: int| 0 <= i < pieces.len() ==> (#[trigger] pieces[i]).len() > 0,
    ensures
        text::joined(pieces, separator).len() == 0 <==> pieces.len() == 0,
{
    if pieces.len() > 0 {
        assert(pieces[pieces.len() - 1].len() > 0);
    }
}

/// Items with names have labels that say something, one for each item that is listed.
proof fn lemma_labels(items: Seq<ItemCount>, skip_absent: bool)
    requires
        forall|i: int| 0 <= i < items.len() ==> (#[trigger] items[i]).item@.len() > 0,
    ensures
        forall|i: int|
            0 <= i < item_labels(items, skip_absent).len() ==> (#[trigger] item_labels(
                items,
                skip_absent,
            )[i]).len() > 0,
        item_labels(items, skip_absent).len() == 0 <==> forall|i: int|
            0 <= i < items.len() ==> skip_absent && (#[trigger] items[i]).count == 0,
    decreases items.len(),
{
    if items.len() > 0 {
        let rest = items.drop_last();
        assert forall|i: int| 0 <= i < rest.len() implies (#[trigger] rest[i]).item@.len() > 0 by {
            assert(items[i].item@.len() > 0);
        }
        lemma_labels(rest, skip_absent);
        let last = items[items.len() - 1];
        assert(last.item@.len() > 0);
        assert(item_label(last).len() > 0);
        assert(forall|i: int| 0 <= i < rest.len() ==> #[trigger] rest[i] == items[i]);
        if item_labels(items, skip_absent).len() == 0 {
            assert forall|i: int| 0 <= i < items.len() implies skip_absent && (
            #[trigger] items[i]).count == 0 by {
                if i < rest.len() {
                    assert(rest[i].count == 0);
                }
            }
        }
    }
}

/// Where every item has a name, the text of the starting items is empty just when nothing is
/// carried, and the text of the item pool just when the pool has no entries.
pub proof fn item_texts_are_empty_without_items(items: Seq<ItemCount>)
    requires
        forall|i: int| 0 <= i < items.len() ==> (#[trigger] items[i]).item@.len() > 0,
    ensures
        text::joined(item_labels(items, true), ", "@).len() == 0 <==> forall|i: int|
            0 <= i < items.len() ==> (#[trigger] items[i]).count == 0,
        text::joined(item_labels(items, false), ", "@).len() == 0 <==> items.len() == 0,
{
    lemma_labels(items, true);
    lemma_labels(items, false);
    lemma_joined_is_empty(item_labels(items, true), ", "@);
    lemma_joined_is_empty(item_labels(items, false), ", "@);
    if items.len() > 0 {
        assert(items[0].item@.len() > 0);
    }
}

/// Where no item is absent, both ways of listing items agree.
pub proof fn present_items_are_all_listed(items: Seq<ItemCount>)
    requires
        forall|i: int| 0 <= i < items.len() ==> (#[trigger] items[i]).count > 0,
    ensures
        item_labels(items, true) == item_labels(items, false),
    decreases items.len(),
{
    if items.len() > 0 {
        assert(items[items.len() - 1].count > 0);
        assert forall|i: int| 0 <= i < items.drop_last().len() implies (
        #[trigger] items.drop_last()[i]).count > 0 by {
            assert(items[i].count > 0);
        }
        present_items_are_all_listed(items.drop_last());
    }
}

/// An item that is absent makes no difference to the list of starting items.
pub proof fn absent_items_are_not_listed(
    before: Seq<ItemCount>,
    item: ItemCount,
    after: Seq<ItemCount>,
)
    requires
        item.count == 0,
    ensures
        item_labels(before.push(item) + after, true) == item_labels(before + after, true),
    decreases after.len(),
{
    if after.len() == 0 {
        assert((before.push(item) + after).drop_last() =~= before + after);
    } else {
        assert((before.push(item) + after).drop_last() =~= before.push(item) + after.drop_last());
        assert((before + after).drop_last() =~= before + after.drop_last());
        absent_items_are_not_listed(before, item, after.drop_last());
    }
}

/// The lists of filler items that the header shows.
#[derive(Clone, Copy, Debug, PartialEq, Eq, Structural)]
pub enum FillerList {
    /// Items that fill any place.
    Filler,
    /// Items that fill places where nothing better is wanted.
    Semi,
    /// Fillers that may come early.
    Early,
}

/// Whether an item of a priority is on a list: a filler that may come early is on two of them.
pub open spec fn is_listed(priority: FillerItemPriority, list: FillerList) -> bool {
    match list {
        FillerList::Filler => priority is Yes || priority is Early,
        FillerList::Semi => priority is Semi,
        FillerList::Early => priority is Early,
    }
}

/// The names on a list, in the order of the settings.
pub open spec fn listed_names(
    items: Seq<(String, FillerItemPriority)>,
    list: FillerList,
) -> Seq<Seq<char>>
    decreases items.len(),
{
    if items.len() == 0 {
        Seq::empty()
    } else {
        let rest = listed_names(items.drop_last(), list);
        if is_listed(items.last().1, list) {
            rest.push(items.last().0@)
        } else {
            rest
        }
    }
}

/// A name is on a list just when an item of that name has a priority of that list.
pub proof fn listed_names_are_those_with_the_priority(
    items: Seq<(String, FillerItemPriority)>,
    list: FillerList,
    name: Seq<char>,
)
    ensures
        listed_names(items, list).contains(name) <==> exists|i: int|
            0 <= i < items.len() && is_listed(items[i].1, list) && (#[trigger] items[i]).0@ == name,
    decreases items.len(),
{
    if items.len() > 0 {
        let rest = items.drop_last();
        let names = listed_names(items, list);
        let before = listed_names(rest, list);
        listed_names_are_those_with_the_priority(rest, list, name);
        if names.contains(name) {
            let k = names.index_of(name);
            if k < before.len() {
                assert(before[k] == name);
                assert(before.contains(name));
                let i = choose|i: int|
                    0 <= i < rest.len() && is_listed(rest[i].1, list) && (
                    #[trigger] rest[i]).0@ == name;
                assert(items[i] == rest[i]);
            } else {
                assert(items[items.len() - 1].0@ == name);
            }
        }
        if exists|i: int|
            0 <= i < items.len() && is_listed(items[i].1, list) && (
            #[trigger] items[i]).0@ == name {
            let i = choose|i: int|
                0 <= i < items.len() && is_listed(items[i].1, list) && (
                #[trigger] items[i]).0@ == name;
            if i < rest.len() {
                assert(rest[i] == items[i]);
                let k = before.index_of(name);
                assert(before.contains(name));
                assert(names[k] == name);
            } else {
                assert(names[names.len() - 1] == name);
            }
        }
    }
}

/// Every filler that may come early is also on the list of fillers.
pub proof fn early_fillers_are_fillers(items: Seq<(String, FillerItemPriority)>, name: Seq<char>)
    requires
        listed_names(items, FillerList::Early).contains(name),
    ensures
        listed_names(items, FillerList::Filler).contains(name),
{
    listed_names_are_those_with_the_priority(items, FillerList::Early, name);
    listed_names_are_those_with_the_priority(items, FillerList::Filler, name);
    let i = choose|i: int|
        0 <= i < items.len() && is_listed(items[i].1, FillerList::Early) && (
        #[trigger] items[i]).0@ == name;
    assert(is_listed(items[i].1, FillerList::Filler));
}

/// Where no item is set twice, no item is both a filler and a semi-filler.
pub proof fn semi_fillers_are_not_fillers(items: Seq<(String, FillerItemPriority)>, name: Seq<char>)
    requires
        forall|i: int, j: int|
            0 <= i < j < items.len() ==> (#[trigger] items[i]).0@ != (#[trigger] items[j]).0@,
        listed_names(items, FillerList::Semi).contains(name),
    ensures
        !listed_names(items, FillerList::Filler).contains(name),
{
    listed_names_are_those_with_the_priority(items, FillerList::Semi, name);
    listed_names_are_those_with_the_priority(items, FillerList::Filler, name);
    let i = choose|i: int|
        0 <= i < items.len() && is_listed(items[i].1, FillerList::Semi) && (
        #[trigger] items[i]).0@ == name;
    assert forall|j: int|
        0 <= j < items.len() && is_listed(items[j].1, FillerList::Filler) implies (
    #[trigger] items[j]).0@ != name by {
        assert(items[i].0@ == name);
    }
}

fn listed(items: &Vec<(String, FillerItemPriority)>, list: FillerList) -> (names: Vec<String>)
    ensures
        text::texts(names@) == listed_names(items@, list),
{
    let mut names: Vec<String> = Vec::new();
    let mut i: usize = 0;
    while i < items.len()
        invariant
            i <= items.len(),
            text::texts(names@) == listed_names(items@.take(i as int), list),
        decreases items.len() - i,
    {
        let ghost before = names@;
        let priority: FillerItemPriority = items[i].1;
        let wanted: bool = match list {
            FillerList::Filler => priority == FillerItemPriority::Yes || priority
                == FillerItemPriority::Early,
            FillerList::Semi => priority == FillerItemPriority::Semi,
            FillerList::Early => priority == FillerItemPriority::Early,
        };
        if wanted {
            names.push(items[i].0.clone());
            assert(text::texts(names@) == text::texts(before).push(items[i as int].0@));
        }
        assert(items@.take(i + 1).drop_last() == items@.take(i as int));
        i = i + 1;
    }
    assert(items@.take(i as int) == items@);
    names
}

/// The name of a preset: settings that are no preset are custom.
pub open spec fn preset_label(preset: Option<String>) -> Seq<char> {
    match preset {
        Some(name) => name@,
        None => "Custom"@,
    }
}

fn preset_or_custom(preset: &Option<String>) -> (s: String)
    ensures
        s@ == preset_label(*preset),
{
    match preset {
        Some(name) => name.clone(),
        None => "Custom".to_owned(),
    }
}

impl SeedData {
    /// Every tech and every notable of the game has a flag in the seed's difficulty.
    pub open spec fn covers(self, game_data: GameData) -> bool {
        &&& self.difficulty.tech@.len() >= game_data.tech_isv.keys@.len()
        &&& self.difficulty.notables@.len() >= game_data.notable_isv.keys@.len()
    }
}

impl<'a> SeedHeaderTemplate<'a> {
    /// This is the header of the named seed.
    pub open spec fn shows(
        self,
        seed_name: Seq<char>,
        seed_data: SeedData,
        app_data: AppData,
        item_priority_groups: Vec<ItemPriorityGroup>,
    ) -> bool {
        let progression = seed_data.settings.item_progression_settings;
        &&& self.seed_name@ == seed_name
        &&& self.timestamp == seed_data.timestamp
        &&& self.random_seed == seed_data.random_seed
        &&& self.version_info == app_data.version_info
        &&& *self.settings == seed_data.settings
        &&& self.item_priority_groups == item_priority_groups
        &&& self.race_mode == seed_data.race_mode
        &&& self.preset@ == preset_label(seed_data.preset)
        &&& self.item_progression_preset@ == preset_label(seed_data.item_progression_preset)
        &&& self.progression_rate@ == progression.progression_rate@
        &&& self.random_tank == progression.random_tank
        &&& text::texts(self.filler_items@) == listed_names(
            progression.filler_items@,
            FillerList::Filler,
        )
        &&& text::texts(self.semi_filler_items@) == listed_names(
            progression.filler_items@,
            FillerList::Semi,
        )
        &&& text::texts(self.early_filler_items@) == listed_names(
            progression.filler_items@,
            FillerList::Early,
        )
        &&& self.item_placement_style@ == progression.item_placement_style@
        &&& *self.difficulty == seed_data.difficulty
        &&& self.quality_of_life_preset@ == preset_label(seed_data.quality_of_life_preset)
        &&& self.supers_double == seed_data.supers_double
        &&& self.mother_brain_fight@ == seed_data.mother_brain_fight@
        &&& self.escape_enemies_cleared == seed_data.escape_enemies_cleared
        &&& self.escape_refill == seed_data.escape_refill
        &&& self.escape_movement_items == seed_data.escape_movement_items
        &&& self.mark_map_stations == seed_data.mark_map_stations
        &&& self.item_markers@ == seed_data.item_markers@
        &&& self.all_items_spawn == seed_data.all_items_spawn
        &&& self.acid_chozo == seed_data.acid_chozo
        &&& self.buffed_drops == seed_data.buffed_drops
        &&& self.fast_elevators == seed_data.fast_elevators
        &&& self.fast_doors == seed_data.fast_doors
        &&& self.fast_pause_menu == seed_data.fast_pause_menu
        &&& self.respin == seed_data.respin
        &&& self.infinite_space_jump == seed_data.infinite_space_jump
        &&& self.momentum_conservation == seed_data.momentum_conservation
        &&& self.objectives@ == seed_data.objectives@
        &&& self.doors@ == seed_data.doors@
        &&& self.start_location_mode@ == seed_data.start_location_mode@
        &&& self.map_layout@ == seed_data.map_layout@
        &&& self.save_animals@ == seed_data.save_animals@
        &&& self.early_save == seed_data.early_save
        &&& *self.preset_data == app_data.preset_data
        &&& self.enabled_tech@ == enabled::enabled_keys(
            app_data.game_data.tech_isv.keys@,
            seed_data.difficulty.tech@,
        )
        &&& self.enabled_notables@ == enabled::enabled_keys(
            app_data.game_data.notable_isv.keys@,
            seed_data.difficulty.notables@,
        )
    }
}

/// Puts together the header of a seed's page. The priority groups are those of the key items in
/// the seed's settings.
pub fn seed_header<'a>(
    seed_name: &str,
    seed_data: &'a SeedData,
    app_data: &'a AppData,
    item_priority_groups: Vec<ItemPriorityGroup>,
) -> (header: SeedHeaderTemplate<'a>)
    requires
        seed_data.covers(app_data.game_data),
    ensures
        header.shows(seed_name@, *seed_data, *app_data, item_priority_groups),
{
    let enabled_tech: TechSet = get_enabled_tech(
        seed_data.difficulty.tech.as_slice(),
        &app_data.game_data,
    );
    let enabled_notables: NotableSet = get_enabled_notables(
        seed_data.difficulty.notables.as_slice(),
        &app_data.game_data,
    );
    let filler_items: &Vec<(String, FillerItemPriority)> =
        &seed_data.settings.item_progression_settings.filler_items;
    SeedHeaderTemplate {
        seed_name: seed_name.to_owned(),
        timestamp: seed_data.timestamp,
        random_seed: seed_data.random_seed,
        version_info: app_data.version_info,
        settings: &seed_data.settings,
        item_priority_groups,
        race_mode: seed_data.race_mode,
        preset: preset_or_custom(&seed_data.preset),
        item_progression_preset: preset_or_custom(&seed_data.item_progression_preset),
        progression_rate: seed_data.settings.item_progression_settings.progression_rate.clone(),
        random_tank: seed_data.settings.item_progression_settings.random_tank,
        filler_items: listed(filler_items, FillerList::Filler),
        semi_filler_items: listed(filler_items, FillerList::Semi),
        early_filler_items: listed(filler_items, FillerList::Early),
        item_placement_style:
            seed_data.settings.item_progression_settings.item_placement_style.clone(),
        difficulty: &seed_data.difficulty,
        quality_of_life_preset: preset_or_custom(&seed_data.quality_of_life_preset),
        supers_double: seed_data.supers_double,
        mother_brain_fight: seed_data.mother_brain_fight.clone(),
        escape_enemies_cleared: seed_data.escape_enemies_cleared,
        escape_refill: seed_data.escape_refill,
        escape_movement_items: seed_data.escape_movement_items,
        mark_map_stations: seed_data.mark_map_stations,
        item_markers: seed_data.item_markers.clone(),
        all_items_spawn: seed_data.all_items_spawn,
        acid_chozo: seed_data.acid_chozo,
        buffed_drops: seed_data.buffed_drops,
        fast_elevators: seed_data.fast_elevators,
        fast_doors: seed_data.fast_doors,
        fast_pause_menu: seed_data.fast_pause_menu,
        respin: seed_data.respin,
        infinite_space_jump: seed_data.infinite_space_jump,
        momentum_conservation: seed_data.momentum_conservation,
        objectives: seed_data.objectives.clone(),
        doors: seed_data.doors.clone(),
        start_location_mode: seed_data.start_location_mode.clone(),
        map_layout: seed_data.map_layout.clone(),
        save_animals: seed_data.save_animals.clone(),
        early_save: seed_data.early_save,
        preset_data: &app_data.preset_data,
        enabled_tech,
        enabled_notables,
    }
}

/// The footer of a seed's page.
pub open spec fn footer_of(seed_data: SeedData) -> SeedFooterTemplate {
    SeedFooterTemplate {
        race_mode: seed_data.race_mode,
        all_items_spawn: seed_data.all_items_spawn,
        supers_double: seed_data.supers_double,
        ultra_low_qol: seed_data.ultra_low_qol,
    }
}

/// Puts together the footer of a seed's page.
pub fn seed_footer(seed_data: &SeedData) -> (footer: SeedFooterTemplate)
    ensures
        footer == footer_of(*seed_data),
        footer.race_mode == seed_data.race_mode,
        footer.all_items_spawn == seed_data.all_items_spawn,
        footer.supers_double == seed_data.supers_double,
        footer.ultra_low_qol == seed_data.ultra_low_qol,
{
    SeedFooterTemplate {
        race_mode: seed_data.race_mode,
        all_items_spawn: seed_data.all_items_spawn,
        supers_double: seed_data.supers_double,
        ultra_low_qol: seed_data.ultra_low_qol,
    }
}

/// The pages are what the two renderers made of a header and a footer: both, or the error of the
/// first one that failed.
pub open spec fn rendered<E, H, F>(
    header: SeedHeaderTemplate,
    footer: SeedFooterTemplate,
    render_header: H,
    render_footer: F,
    pages: Result<(String, String), E>,
) -> bool where
    H: Fn(&SeedHeaderTemplate) -> Result<String, E>,
    F: Fn(&SeedFooterTemplate) -> Result<String, E>,
 {
    exists|first: Result<String, E>| #[trigger]
        call_ensures(render_header, (&header,), first) && match first {
            Ok(header_html) => exists|second: Result<String, E>| #[trigger]
                call_ensures(render_footer, (&footer,), second) && match second {
                    Ok(footer_html) => pages == Ok::<(String, String), E>(
                        (header_html, footer_html),
                    ),
                    Err(error) => pages == Err::<(String, String), E>(error),
                },
            Err(error) => pages == Err::<(String, String), E>(error),
        }
}

/// Renders the header and the footer of a seed's page, each by the renderer that is handed in. The
/// key items of the settings are grouped by their priority first, by `group_items`. The first
/// renderer that fails gives the error.
pub fn render_seed<E, G, H, F>(
    seed_name: &str,
    seed_data: &SeedData,
    app_data: &AppData,
    group_items: G,
    render_header: H,
    render_footer: F,
) -> (pages: Result<(String, String), E>) where
    G: Fn(&Vec<KeyItemPriority>) -> Vec<ItemPriorityGroup>,
    H: Fn(&SeedHeaderTemplate) -> Result<String, E>,
    F: Fn(&SeedFooterTemplate) -> Result<String, E>,

    requires
        seed_data.covers(app_data.game_data),
        call_requires(
            group_items,
            (&seed_data.settings.item_progression_settings.key_item_priority,),
        ),
        forall|groups: Vec<ItemPriorityGroup>, header: SeedHeaderTemplate| #[trigger]
            header.shows(seed_name@, *seed_data, *app_data, groups) && call_ensures(
                group_items,
                (&seed_data.settings.item_progression_settings.key_item_priority,),
                groups,
            ) ==> call_requires(render_header, (&header,)),
        call_requires(render_footer, (&footer_of(*seed_data),)),
    ensures
        exists|groups: Vec<ItemPriorityGroup>, header: SeedHeaderTemplate| #[trigger]
            header.shows(seed_name@, *seed_data, *app_data, groups) && call_ensures(
                group_items,
                (&seed_data.settings.item_progression_settings.key_item_priority,),
                groups,
            ) && rendered(header, footer_of(*seed_data), render_header, render_footer, pages),
{
    let groups: Vec<ItemPriorityGroup> = group_items(
        &seed_data.settings.item_progression_settings.key_item_priority,
    );
    let header: SeedHeaderTemplate = seed_header(seed_name, seed_data, app_data, groups);
    let header_html: String = match render_header(&header) {
        Ok(html) => html,
        Err(error) => {
            return Err(error);
        },
    };
    let footer: SeedFooterTemplate = seed_footer(seed_data);
    match render_footer(&footer) {
        Ok(footer_html) => Ok((header_html, footer_html)),
        Err(error) => Err(error),
    }
}

/// The header and the footer of a page agree on what both of them show.
pub proof fn header_and_footer_agree(
    header: SeedHeaderTemplate,
    seed_name: Seq<char>,
    seed_data: SeedData,
    app_data: AppData,
    groups: Vec<ItemPriorityGroup>,
)
    requires
        header.shows(seed_name, seed_data, app_data, groups),
    ensures
        header.race_mode == footer_of(seed_data).race_mode,
        header.all_items_spawn == footer_of(seed_data).all_items_spawn,
        header.supers_double == footer_of(seed_data).supers_double,
{
}

} // verus!
