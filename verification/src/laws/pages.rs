//! What the page of a seed shows.

use crate::app_data::AppData;
use crate::enabled::{get_enabled_notables, get_enabled_tech, NotableSet, TechSet};
use crate::game::GameData;
use crate::seed_page::{
    render_seed, seed_footer, seed_header, FillerList, ItemPriorityGroup, SeedData,
    SeedFooterTemplate, SeedHeaderTemplate,
};
use crate::settings::{FillerItemPriority, KeyItemPriority, OtherSettings};
use crate::{seed_page, text};
use vstd::prelude::*;

verus! {

/// Exactly the techs are enabled that have a place among the techs of the game at which the flag
/// is set.
pub proof fn techs_are_enabled_by_their_flags(
    flags: &[bool],
    game_data: GameData,
    set: TechSet,
    id: usize,
)
    requires
        call_ensures(get_enabled_tech, (flags, &game_data), set),
    ensures
        set@.contains(id) <==> exists|i: int|
            0 <= i < game_data.tech_isv.keys@.len() && #[trigger] game_data.tech_isv.keys@[i] == id
                && flags@[i],
{
}

/// Exactly the notables are enabled that have a place among the notables of the game at which the
/// flag is set.
pub proof fn notables_are_enabled_by_their_flags(
    flags: &[bool],
    game_data: GameData,
    set: NotableSet,
    id: (usize, usize),
)
    requires
        call_ensures(get_enabled_notables, (flags, &game_data), set),
    ensures
        set@.contains(id) <==> exists|i: int|
            0 <= i < game_data.notable_isv.keys@.len() && #[trigger] game_data.notable_isv.keys@[i]
                == id && flags@[i],
{
}

/// The names on a list are those of the items that are left when the others are dropped.
proof fn lemma_listed(
    items: Seq<(String, FillerItemPriority)>,
    list: FillerList,
    is_kept: spec_fn((String, FillerItemPriority)) -> bool,
)
    requires
        forall|x: (String, FillerItemPriority)| #[trigger]
            is_kept(x) <==> seed_page::is_listed(x.1, list),
    ensures
        seed_page::listed_names(items, list).len() == items.filter(is_kept).len(),
        forall|i: int|
            0 <= i < items.filter(is_kept).len() ==> seed_page::listed_names(items, list)[i] == (
            #[trigger] items.filter(is_kept)[i]).0@,
    decreases items.len(),
{
    reveal(Seq::filter);
    if items.len() > 0 {
        lemma_listed(items.drop_last(), list, is_kept);
        assert(is_kept(items.last()) <==> seed_page::is_listed(items.last().1, list));
    }
}

/// The header shows what is recorded of the seed, each value in its own place: a preset by its
/// name, or as custom where there is none; of the items that may be fillers, in the order of the
/// settings, those that are meant; and as enabled the techs and notables whose flags are set.
pub proof fn the_header_shows_the_seed(
    seed_name: &str,
    seed_data: SeedData,
    app_data: AppData,
    groups: Vec<ItemPriorityGroup>,
    header: SeedHeaderTemplate,
)
    requires
        call_ensures(seed_header, (seed_name, &seed_data, &app_data, groups), header)
            || header.shows(seed_name@, seed_data, app_data, groups),
    ensures
        header.seed_name@ == seed_name@,
        header.timestamp == seed_data.timestamp,
        header.random_seed == seed_data.random_seed,
        header.version_info.version == app_data.version_info.version,
        header.version_info.dev == app_data.version_info.dev,
        *header.settings == seed_data.settings,
        header.item_priority_groups == groups,
        header.race_mode == seed_data.race_mode,
        seed_data.preset matches Some(name) ==> header.preset@ == name@,
        seed_data.preset is None ==> header.preset@ == "Custom"@,
        seed_data.item_progression_preset matches Some(name) ==> header.item_progression_preset@
            == name@,
        seed_data.item_progression_preset is None ==> header.item_progression_preset@ == "Custom"@,
        seed_data.quality_of_life_preset matches Some(name) ==> header.quality_of_life_preset@
            == name@,
        seed_data.quality_of_life_preset is None ==> header.quality_of_life_preset@ == "Custom"@,
        header.progression_rate@
            == seed_data.settings.item_progression_settings.progression_rate@,
        header.item_placement_style@
            == seed_data.settings.item_progression_settings.item_placement_style@,
        header.random_tank == seed_data.settings.item_progression_settings.random_tank,
        *header.difficulty == seed_data.difficulty,
        header.supers_double == seed_data.supers_double,
        header.mother_brain_fight@ == seed_data.mother_brain_fight@,
        header.escape_enemies_cleared == seed_data.escape_enemies_cleared,
        header.escape_refill == seed_data.escape_refill,
        header.escape_movement_items == seed_data.escape_movement_items,
        header.mark_map_stations == seed_data.mark_map_stations,
        header.item_markers@ == seed_data.item_markers@,
        header.all_items_spawn == seed_data.all_items_spawn,
        header.acid_chozo == seed_data.acid_chozo,
        header.buffed_drops == seed_data.buffed_drops,
        header.fast_elevators == seed_data.fast_elevators,
        header.fast_doors == seed_data.fast_doors,
        header.fast_pause_menu == seed_data.fast_pause_menu,
        header.respin == seed_data.respin,
        header.infinite_space_jump == seed_data.infinite_space_jump,
        header.momentum_conservation == seed_data.momentum_conservation,
        header.objectives@ == seed_data.objectives@,
        header.doors@ == seed_data.doors@,
        header.start_location_mode@ == seed_data.start_location_mode@,
        header.map_layout@ == seed_data.map_layout@,
        header.save_animals@ == seed_data.save_animals@,
        header.early_save == seed_data.early_save,
        *header.preset_data == app_data.preset_data,
        forall|id: usize| #[trigger]
            header.enabled_tech@.contains(id) <==> exists|i: int|
                0 <= i < app_data.game_data.tech_isv.keys@.len()
                    && #[trigger] app_data.game_data.tech_isv.keys@[i] == id
                    && seed_data.difficulty.tech@[i],
        forall|id: (usize, usize)| #[trigger]
            header.enabled_notables@.contains(id) <==> exists|i: int|
                0 <= i < app_data.game_data.notable_isv.keys@.len()
                    && #[trigger] app_data.game_data.notable_isv.keys@[i] == id
                    && seed_data.difficulty.notables@[i],
        ({
            let kept = seed_data.settings.item_progression_settings.filler_items@.filter(
                |x: (String, FillerItemPriority)| x.1 is Yes || x.1 is Early,
            );
            &&& header.filler_items@.len() == kept.len()
            &&& forall|i: int|
                0 <= i < kept.len() ==> (#[trigger] header.filler_items@[i])@ == kept[i].0@
        }),
        ({
            let kept = seed_data.settings.item_progression_settings.filler_items@.filter(
                |x: (String, FillerItemPriority)| x.1 is Semi,
            );
            &&& header.semi_filler_items@.len() == kept.len()
            &&& forall|i: int|
                0 <= i < kept.len() ==> (#[trigger] header.semi_filler_items@[i])@ == kept[i].0@
        }),
        ({
            let kept = seed_data.settings.item_progression_settings.filler_items@.filter(
                |x: (String, FillerItemPriority)| x.1 is Early,
            );
            &&& header.early_filler_items@.len() == kept.len()
            &&& forall|i: int|
                0 <= i < kept.len() ==> (#[trigger] header.early_filler_items@[i])@ == kept[i].0@
        }),
{
    assert(header.shows(seed_name@, seed_data, app_data, groups));
    lemma_header(seed_name@, seed_data, app_data, groups, header);
}

/// The lists of a header, its presets and what it has enabled.
proof fn lemma_header(
    seed_name: Seq<char>,
    seed_data: SeedData,
    app_data: AppData,
    groups: Vec<ItemPriorityGroup>,
    header: SeedHeaderTemplate,
)
    requires
        header.shows(seed_name, seed_data, app_data, groups),
    ensures
        ({
            let kept = seed_data.settings.item_progression_settings.filler_items@.filter(
                |x: (String, FillerItemPriority)| x.1 is Yes || x.1 is Early,
            );
            &&& header.filler_items@.len() == kept.len()
            &&& forall|i: int|
                0 <= i < kept.len() ==> (#[trigger] header.filler_items@[i])@ == kept[i].0@
        }),
        ({
            let kept = seed_data.settings.item_progression_settings.filler_items@.filter(
                |x: (String, FillerItemPriority)| x.1 is Semi,
            );
            &&& header.semi_filler_items@.len() == kept.len()
            &&& forall|i: int|
                0 <= i < kept.len() ==> (#[trigger] header.semi_filler_items@[i])@ == kept[i].0@
        }),
        ({
            let kept = seed_data.settings.item_progression_settings.filler_items@.filter(
                |x: (String, FillerItemPriority)| x.1 is Early,
            );
            &&& header.early_filler_items@.len() == kept.len()
            &&& forall|i: int|
                0 <= i < kept.len() ==> (#[trigger] header.early_filler_items@[i])@ == kept[i].0@
        }),
{
    let items = seed_data.settings.item_progression_settings.filler_items@;
    let is_filler = |x: (String, FillerItemPriority)| x.1 is Yes || x.1 is Early;
    let is_semi = |x: (String, FillerItemPriority)| x.1 is Semi;
    let is_early = |x: (String, FillerItemPriority)| x.1 is Early;
    lemma_listed(items, FillerList::Filler, is_filler);
    lemma_listed(items, FillerList::Semi, is_semi);
    lemma_listed(items, FillerList::Early, is_early);
    assert forall|i: int| 0 <= i < items.filter(is_filler).len() implies (
    #[trigger] header.filler_items@[i])@ == items.filter(is_filler)[i].0@ by {
        assert(text::texts(header.filler_items@)[i] == header.filler_items@[i]@);
    }
    assert forall|i: int| 0 <= i < items.filter(is_semi).len() implies (
    #[trigger] header.semi_filler_items@[i])@ == items.filter(is_semi)[i].0@ by {
        assert(text::texts(header.semi_filler_items@)[i] == header.semi_filler_items@[i]@);
    }
    assert forall|i: int| 0 <= i < items.filter(is_early).len() implies (
    #[trigger] header.early_filler_items@[i])@ == items.filter(is_early)[i].0@ by {
        assert(text::texts(header.early_filler_items@)[i] == header.early_filler_items@[i]@);
    }
    assert(text::texts(header.filler_items@).len() == header.filler_items@.len());
    assert(text::texts(header.semi_filler_items@).len() == header.semi_filler_items@.len());
    assert(text::texts(header.early_filler_items@).len() == header.early_filler_items@.len());
}

/// The footer shows what is recorded of the seed, each value in its own place.
pub proof fn the_footer_shows_the_seed(seed_data: SeedData, footer: SeedFooterTemplate)
    requires
        call_ensures(seed_footer, (&seed_data,), footer),
    ensures
        footer.race_mode == seed_data.race_mode,
        footer.all_items_spawn == seed_data.all_items_spawn,
        footer.supers_double == seed_data.supers_double,
        footer.ultra_low_qol == seed_data.ultra_low_qol,
{
}

/// The lines of a table that are shown.
#[verifier::opaque]
pub open spec fn shown_lines(table: Seq<(bool, Seq<char>)>) -> Seq<Seq<char>> {
    table.filter(|x: (bool, Seq<char>)| x.0).map_values(|x: (bool, Seq<char>)| x.1)
}

/// One line more in the table.
proof fn lemma_line(table: Seq<(bool, Seq<char>)>, shown: bool, line: Seq<char>)
    ensures
        shown_lines(table.push((shown, line))) == shown_lines(table) + seed_page::line_if(
            shown,
            line,
        ),
{
    reveal(Seq::filter);
    reveal(shown_lines);
    assert(table.push((shown, line)).drop_last() =~= table);
    assert(shown_lines(table.push((shown, line))) =~= shown_lines(table) + seed_page::line_if(
        shown,
        line,
    ));
}

/// A table of twelve lines, built up one by one.
proof fn lemma_table(
    a0: (bool, Seq<char>),
    a1: (bool, Seq<char>),
    a2: (bool, Seq<char>),
    a3: (bool, Seq<char>),
    a4: (bool, Seq<char>),
    a5: (bool, Seq<char>),
    a6: (bool, Seq<char>),
    a7: (bool, Seq<char>),
    a8: (bool, Seq<char>),
    a9: (bool, Seq<char>),
    a10: (bool, Seq<char>),
    a11: (bool, Seq<char>),
)
    ensures
        seq![a0, a1, a2, a3, a4, a5, a6, a7, a8, a9, a10, a11]
            == Seq::<(bool, Seq<char>)>::empty().push(a0).push(a1).push(a2).push(a3).push(a4)
            .push(a5).push(a6).push(a7).push(a8).push(a9).push(a10).push(a11),
{
}

/// The lines about variations, from a table.
#[verifier::spinoff_prover]
proof fn lemma_variations(o: OtherSettings)
    ensures
        seed_page::variation_lines(o) == shown_lines(
            seq![
                (o.area_assignment is Random, "Random area assignment"@),
                (o.item_dot_change is Disappear, "Item dots disappear after collection"@),
                (!o.transition_letters, "Area transitions marked as arrows"@),
                (o.door_locks_size is Small, "Door locks drawn smaller on map"@),
                (o.wall_jump is Collectible, "Collectible wall jump"@),
                (o.etank_refill is Disabled, "E-Tank refill disabled"@),
                (o.etank_refill is Full, "E-Tanks refill reserves"@),
                (o.maps_revealed is Partial, "Maps partially revealed from start"@),
                (o.maps_revealed is Full, "Maps revealed from start"@),
                (o.map_station_reveal is Partial, "Map stations give partial reveal"@),
                (o.energy_free_shinesparks, "Energy-free shinesparks"@),
                (o.ultra_low_qol, "Ultra-low quality of life"@),
            ],
        ),
{
    let t0 = Seq::<(bool, Seq<char>)>::empty();
    let t1 = t0.push((o.area_assignment is Random, "Random area assignment"@));
    let t2 = t1.push((o.item_dot_change is Disappear, "Item dots disappear after collection"@));
    let t3 = t2.push((!o.transition_letters, "Area transitions marked as arrows"@));
    let t4 = t3.push((o.door_locks_size is Small, "Door locks drawn smaller on map"@));
    let t5 = t4.push((o.wall_jump is Collectible, "Collectible wall jump"@));
    let t6 = t5.push((o.etank_refill is Disabled, "E-Tank refill disabled"@));
    let t7 = t6.push((o.etank_refill is Full, "E-Tanks refill reserves"@));
    let t8 = t7.push((o.maps_revealed is Partial, "Maps partially revealed from start"@));
    let t9 = t8.push((o.maps_revealed is Full, "Maps revealed from start"@));
    let t10 = t9.push((o.map_station_reveal is Partial, "Map stations give partial reveal"@));
    let t11 = t10.push((o.energy_free_shinesparks, "Energy-free shinesparks"@));
    assert(shown_lines(t0) =~= Seq::<Seq<char>>::empty()) by {
        reveal(Seq::filter);
        reveal(shown_lines);
    }
    lemma_line(t0, o.area_assignment is Random, "Random area assignment"@);
    assert(Seq::<Seq<char>>::empty() + seed_page::line_if(
        o.area_assignment is Random,
        "Random area assignment"@,
    ) =~= seed_page::line_if(o.area_assignment is Random, "Random area assignment"@));
    lemma_line(t1, o.item_dot_change is Disappear, "Item dots disappear after collection"@);
    lemma_line(t2, !o.transition_letters, "Area transitions marked as arrows"@);
    lemma_line(t3, o.door_locks_size is Small, "Door locks drawn smaller on map"@);
    lemma_line(t4, o.wall_jump is Collectible, "Collectible wall jump"@);
    lemma_line(t5, o.etank_refill is Disabled, "E-Tank refill disabled"@);
    lemma_line(t6, o.etank_refill is Full, "E-Tanks refill reserves"@);
    lemma_line(t7, o.maps_revealed is Partial, "Maps partially revealed from start"@);
    lemma_line(t8, o.maps_revealed is Full, "Maps revealed from start"@);
    lemma_line(t9, o.map_station_reveal is Partial, "Map stations give partial reveal"@);
    lemma_line(t10, o.energy_free_shinesparks, "Energy-free shinesparks"@);
    lemma_line(t11, o.ultra_low_qol, "Ultra-low quality of life"@);
    lemma_table(
        (o.area_assignment is Random, "Random area assignment"@),
        (o.item_dot_change is Disappear, "Item dots disappear after collection"@),
        (!o.transition_letters, "Area transitions marked as arrows"@),
        (o.door_locks_size is Small, "Door locks drawn smaller on map"@),
        (o.wall_jump is Collectible, "Collectible wall jump"@),
        (o.etank_refill is Disabled, "E-Tank refill disabled"@),
        (o.etank_refill is Full, "E-Tanks refill reserves"@),
        (o.maps_revealed is Partial, "Maps partially revealed from start"@),
        (o.maps_revealed is Full, "Maps revealed from start"@),
        (o.map_station_reveal is Partial, "Map stations give partial reveal"@),
        (o.energy_free_shinesparks, "Energy-free shinesparks"@),
        (o.ultra_low_qol, "Ultra-low quality of life"@),
    );
}

/// Each setting that changes the game has a line of its own, which is shown just when the setting
/// is on, and the lines keep their order.
pub proof fn variations_are_listed_in_order(header: SeedHeaderTemplate, list: Vec<&str>)
    requires
        call_ensures(SeedHeaderTemplate::game_variations, (&header,), list),
    ensures
        ({
            let o = header.settings.other_settings;
            let wanted = shown_lines(
                seq![
                    (o.area_assignment is Random, "Random area assignment"@),
                    (o.item_dot_change is Disappear, "Item dots disappear after collection"@),
                    (!o.transition_letters, "Area transitions marked as arrows"@),
                    (o.door_locks_size is Small, "Door locks drawn smaller on map"@),
                    (o.wall_jump is Collectible, "Collectible wall jump"@),
                    (o.etank_refill is Disabled, "E-Tank refill disabled"@),
                    (o.etank_refill is Full, "E-Tanks refill reserves"@),
                    (o.maps_revealed is Partial, "Maps partially revealed from start"@),
                    (o.maps_revealed is Full, "Maps revealed from start"@),
                    (o.map_station_reveal is Partial, "Map stations give partial reveal"@),
                    (o.energy_free_shinesparks, "Energy-free shinesparks"@),
                    (o.ultra_low_qol, "Ultra-low quality of life"@),
                ],
            );
            &&& list@.len() == wanted.len()
            &&& forall|i: int| 0 <= i < wanted.len() ==> (#[trigger] list@[i])@ == wanted[i]
        }),
{
    lemma_variations(header.settings.other_settings);
    let lines = seed_page::lines(list@);
    assert(lines == seed_page::variation_lines(header.settings.other_settings));
    assert(forall|i: int| 0 <= i < lines.len() ==> (#[trigger] list@[i])@ == lines[i]);
}

/// The pages of a seed are what the renderers make of a header that shows the seed, with the key
/// items of its settings in the groups handed in, and of a footer with the values of the seed. If
/// the header cannot be rendered, its error is the outcome, and otherwise that of the footer.
pub proof fn pages_are_rendered_from_the_seed<E, G, H, F>(
    seed_name: &str,
    seed_data: SeedData,
    app_data: AppData,
    group_items: G,
    render_header: H,
    render_footer: F,
    pages: Result<(String, String), E>,
) where
    G: Fn(&Vec<KeyItemPriority>) -> Vec<ItemPriorityGroup>,
    H: Fn(&SeedHeaderTemplate) -> Result<String, E>,
    F: Fn(&SeedFooterTemplate) -> Result<String, E>,

    requires
        call_ensures(
            render_seed::<E, G, H, F>,
            (seed_name, &seed_data, &app_data, group_items, render_header, render_footer),
            pages,
        ),
    ensures
        exists|groups: Vec<ItemPriorityGroup>, header: SeedHeaderTemplate| #[trigger]
            header.shows(seed_name@, seed_data, app_data, groups) && call_ensures(
                group_items,
                (&seed_data.settings.item_progression_settings.key_item_priority,),
                groups,
            ) && match pages {
                Ok((header_html, footer_html)) => {
                    &&& call_ensures(render_header, (&header,), Ok::<String, E>(header_html))
                    &&& call_ensures(
                        render_footer,
                        (&(SeedFooterTemplate {
                            race_mode: seed_data.race_mode,
                            all_items_spawn: seed_data.all_items_spawn,
                            supers_double: seed_data.supers_double,
                            ultra_low_qol: seed_data.ultra_low_qol,
                        }),),
                        Ok::<String, E>(footer_html),
                    )
                },
                Err(error) => {
                    ||| call_ensures(render_header, (&header,), Err::<String, E>(error))
                    ||| (exists|html: String| #[trigger]
                        call_ensures(render_header, (&header,), Ok::<String, E>(html)))
                        && call_ensures(
                        render_footer,
                        (&(SeedFooterTemplate {
                            race_mode: seed_data.race_mode,
                            all_items_spawn: seed_data.all_items_spawn,
                            supers_double: seed_data.supers_double,
                            ultra_low_qol: seed_data.ultra_low_qol,
                        }),),
                        Err::<String, E>(error),
                    )
                },
            },
{
    let (groups, header) = choose|groups: Vec<ItemPriorityGroup>, header: SeedHeaderTemplate|
        #[trigger]
        header.shows(seed_name@, seed_data, app_data, groups) && call_ensures(
            group_items,
            (&seed_data.settings.item_progression_settings.key_item_priority,),
            groups,
        ) && seed_page::rendered(
            header,
            seed_page::footer_of(seed_data),
            render_header,
            render_footer,
            pages,
        );
    assert(header.shows(seed_name@, seed_data, app_data, groups));
}

} // verus!
