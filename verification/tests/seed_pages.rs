use maprando_web::app_data::{build_app_data, AppData, Args, LoadedData};
use maprando_web::enabled::{
    count_notables, count_tech, get_enabled_notables, get_enabled_tech,
};
use maprando_web::game::{find_entry, DifficultyConfig, GameData, IndexedVec, PresetData};
use maprando_web::seed_page::{
    render_seed, seed_footer, seed_header, ItemPriorityGroup, SeedData, SeedFooterTemplate,
    SeedHeaderTemplate,
};
use maprando_web::settings::{
    AreaAssignment, DoorLocksSize, ETankRefill, FillerItemPriority, ItemCount, ItemDotChange,
    ItemProgressionSettings, KeyItemPriority, MapStationReveal, MapsRevealed, OtherSettings,
    RandomizerSettings, WallJump,
};

fn s(text: &str) -> String {
    text.to_string()
}

fn count(item: &str, count: usize) -> ItemCount {
    ItemCount { item: s(item), count }
}

fn plain_settings() -> RandomizerSettings {
    RandomizerSettings {
        item_progression_settings: ItemProgressionSettings {
            progression_rate: s("Fast"),
            item_placement_style: s("Forced"),
            random_tank: true,
            item_pool: vec![count("Missile", 12), count("Morph", 1), count("Spazer", 0)],
            starting_items: vec![count("Spazer", 0), count("ETank", 2), count("Morph", 1)],
            key_item_priority: vec![KeyItemPriority { item: s("Varia"), priority: s("Late") }],
            filler_items: vec![
                (s("Missile"), FillerItemPriority::Yes),
                (s("Super"), FillerItemPriority::Early),
                (s("ETank"), FillerItemPriority::Semi),
                (s("Morph"), FillerItemPriority::Other),
            ],
        },
        other_settings: OtherSettings {
            area_assignment: AreaAssignment::Other,
            item_dot_change: ItemDotChange::Other,
            transition_letters: true,
            door_locks_size: DoorLocksSize::Other,
            wall_jump: WallJump::Other,
            etank_refill: ETankRefill::Other,
            maps_revealed: MapsRevealed::Other,
            map_station_reveal: MapStationReveal::Other,
            energy_free_shinesparks: false,
            ultra_low_qol: false,
        },
    }
}

fn plain_seed() -> SeedData {
    SeedData {
        timestamp: 1700000000000,
        random_seed: 77,
        race_mode: true,
        preset: Some(s("Expert")),
        item_progression_preset: None,
        difficulty: DifficultyConfig {
            tech: vec![true, false, true],
            notables: vec![false, true],
        },
        quality_of_life_preset: None,
        settings: plain_settings(),
        supers_double: true,
        mother_brain_fight: s("Short"),
        escape_enemies_cleared: true,
        escape_refill: false,
        escape_movement_items: true,
        mark_map_stations: false,
        item_markers: s("Simple"),
        all_items_spawn: false,
        acid_chozo: true,
        buffed_drops: false,
        fast_elevators: true,
        fast_doors: false,
        fast_pause_menu: true,
        respin: false,
        infinite_space_jump: true,
        momentum_conservation: false,
        objectives: s("Bosses"),
        doors: s("Ammo"),
        start_location_mode: s("Ship"),
        map_layout: s("Tame"),
        save_animals: s("Maybe"),
        early_save: true,
        ultra_low_qol: true,
    }
}

fn game_data() -> GameData {
    GameData {
        tech_isv: IndexedVec { keys: vec![10, 20, 30] },
        notable_isv: IndexedVec { keys: vec![(1, 1), (1, 2)] },
    }
}

fn app_data() -> AppData {
    let args = Args {
        seed_repository_url: s(""),
        video_storage_url: s(""),
        video_storage_path: None,
        debug: false,
        static_visualizer: false,
        parallelism: None,
        dev: false,
        port: 1,
    };
    build_app_data(
        &args,
        5,
        LoadedData {
            game_data: game_data(),
            preset_data: PresetData {
                tech_by_difficulty: vec![
                    (s("Basic"), vec![10, 30]),
                    (s("Hard"), vec![20]),
                    (s("Mixed"), vec![10, 20]),
                    (s("Empty"), vec![]),
                ],
                notables_by_difficulty: vec![
                    (s("Hard"), vec![(1, 1)]),
                    (s("Basic"), vec![(1, 2)]),
                    (s("Mixed"), vec![(1, 1)]),
                    (s("Empty"), vec![]),
                ],
            },
            visualizer_files: vec![],
        },
        "[]",
    )
    .unwrap()
}

fn groups() -> Vec<ItemPriorityGroup> {
    vec![ItemPriorityGroup { priority: s("Late"), items: vec![s("Varia")] }]
}

#[test]
fn enabled_sets() {
    let tech = get_enabled_tech(&vec![true, false, true, true], &game_data());
    assert_eq!(count_tech(&vec![10], &tech), 1);
    assert_eq!(count_tech(&vec![20], &tech), 0);
    assert_eq!(count_tech(&vec![30, 30, 40], &tech), 2);
    let notables = get_enabled_notables(&vec![false, true], &game_data());
    assert_eq!(count_notables(&vec![(1, 1), (2, 1), (1, 2)], &notables), 1);
}

#[test]
fn a_key_that_is_enabled_once_is_enabled() {
    let game = GameData {
        tech_isv: IndexedVec { keys: vec![7, 7] },
        notable_isv: IndexedVec { keys: vec![] },
    };
    assert_eq!(count_tech(&vec![7], &get_enabled_tech(&vec![true, false], &game)), 1);
    assert_eq!(count_tech(&vec![7], &get_enabled_tech(&vec![false, false], &game)), 0);
}

#[test]
fn entries_by_name() {
    let table = vec![(s("a"), vec![1]), (s("b"), vec![2, 3]), (s("a"), vec![4])];
    assert_eq!(find_entry(&table, "a"), Some(&vec![1]));
    assert_eq!(find_entry(&table, "b"), Some(&vec![2, 3]));
    assert_eq!(find_entry(&table, "c"), None);
}

#[test]
fn percent_of_presets() {
    let seed = plain_seed();
    let app = app_data();
    let header = seed_header("abc", &seed, &app, groups());
    assert_eq!(header.percent_enabled("Basic"), 100);
    assert_eq!(header.percent_enabled("Hard"), 0);
    assert_eq!(header.percent_enabled("Mixed"), 33);
    assert_eq!(header.percent_enabled("Empty"), 0);
}

#[test]
fn enabling_more_shows_no_less() {
    let fewer = plain_seed();
    let mut more = plain_seed();
    more.difficulty.tech = vec![true, true, true];
    let app = app_data();
    let small = seed_header("abc", &fewer, &app, groups());
    let large = seed_header("abc", &more, &app, groups());
    assert_eq!((small.percent_enabled("Basic"), large.percent_enabled("Basic")), (100, 100));
    assert_eq!((small.percent_enabled("Hard"), large.percent_enabled("Hard")), (0, 50));
    assert_eq!((small.percent_enabled("Mixed"), large.percent_enabled("Mixed")), (33, 66));
}

#[test]
fn item_lists() {
    let seed = plain_seed();
    let app = app_data();
    let header = seed_header("abc", &seed, &app, groups());
    assert_eq!(header.item_pool_strs(), "Missile (12), Morph, Spazer");
    assert_eq!(header.starting_items_strs(), "ETank (2), Morph");
}

#[test]
fn empty_item_lists() {
    let mut seed = plain_seed();
    seed.settings.item_progression_settings.item_pool = vec![];
    seed.settings.item_progression_settings.starting_items = vec![count("Morph", 0)];
    let app = app_data();
    let header = seed_header("abc", &seed, &app, vec![]);
    assert_eq!(header.item_pool_strs(), "");
    assert_eq!(header.starting_items_strs(), "");
}

#[test]
fn no_variations() {
    let seed = plain_seed();
    let app = app_data();
    assert!(seed_header("abc", &seed, &app, vec![]).game_variations().is_empty());
}

#[test]
fn all_variations() {
    let mut seed = plain_seed();
    seed.settings.other_settings = OtherSettings {
        area_assignment: AreaAssignment::Random,
        item_dot_change: ItemDotChange::Disappear,
        transition_letters: false,
        door_locks_size: DoorLocksSize::Small,
        wall_jump: WallJump::Collectible,
        etank_refill: ETankRefill::Disabled,
        maps_revealed: MapsRevealed::Partial,
        map_station_reveal: MapStationReveal::Partial,
        energy_free_shinesparks: true,
        ultra_low_qol: true,
    };
    let app = app_data();
    assert_eq!(
        seed_header("abc", &seed, &app, vec![]).game_variations(),
        vec![
            "Random area assignment",
            "Item dots disappear after collection",
            "Area transitions marked as arrows",
            "Door locks drawn smaller on map",
            "Collectible wall jump",
            "E-Tank refill disabled",
            "Maps partially revealed from start",
            "Map stations give partial reveal",
            "Energy-free shinesparks",
            "Ultra-low quality of life",
        ]
    );
    seed.settings.other_settings = plain_settings().other_settings;
    seed.settings.other_settings.etank_refill = ETankRefill::Full;
    seed.settings.other_settings.maps_revealed = MapsRevealed::Full;
    assert_eq!(
        seed_header("abc", &seed, &app, vec![]).game_variations(),
        vec!["E-Tanks refill reserves", "Maps revealed from start"]
    );
}

#[test]
fn header_of_a_seed() {
    let seed = plain_seed();
    let app = app_data();
    let header = seed_header("abc", &seed, &app, groups());
    assert_eq!(header.seed_name, "abc");
    assert_eq!(header.timestamp, 1700000000000);
    assert_eq!(header.random_seed, 77);
    assert_eq!(header.version_info.version, 5);
    assert_eq!(header.item_priority_groups[0].items, vec![s("Varia")]);
    assert!(header.race_mode);
    assert_eq!(header.preset, "Expert");
    assert_eq!(header.item_progression_preset, "Custom");
    assert_eq!(header.quality_of_life_preset, "Custom");
    assert_eq!(header.progression_rate, "Fast");
    assert_eq!(header.item_placement_style, "Forced");
    assert!(header.random_tank);
    assert_eq!(header.filler_items, vec![s("Missile"), s("Super")]);
    assert_eq!(header.semi_filler_items, vec![s("ETank")]);
    assert_eq!(header.early_filler_items, vec![s("Super")]);
    assert_eq!(header.difficulty.tech, vec![true, false, true]);
    assert_eq!(header.mother_brain_fight, "Short");
    assert_eq!(header.item_markers, "Simple");
    assert_eq!(header.objectives, "Bosses");
    assert_eq!(header.doors, "Ammo");
    assert_eq!(header.start_location_mode, "Ship");
    assert_eq!(header.map_layout, "Tame");
    assert_eq!(header.save_animals, "Maybe");
    assert!(header.supers_double && header.escape_enemies_cleared && header.escape_movement_items);
    assert!(header.acid_chozo && header.fast_elevators && header.fast_pause_menu);
    assert!(header.infinite_space_jump && header.early_save);
    assert!(!header.escape_refill && !header.mark_map_stations && !header.all_items_spawn);
    assert!(!header.buffed_drops && !header.fast_doors && !header.respin);
    assert!(!header.momentum_conservation);
}

#[test]
fn footer_of_a_seed() {
    let footer = seed_footer(&plain_seed());
    assert!(footer.race_mode && footer.supers_double && footer.ultra_low_qol);
    assert!(!footer.all_items_spawn);
}

fn group(items: &Vec<KeyItemPriority>) -> Vec<ItemPriorityGroup> {
    items
        .iter()
        .map(|x| ItemPriorityGroup { priority: x.priority.clone(), items: vec![x.item.clone()] })
        .collect()
}

fn show_header(header: &SeedHeaderTemplate) -> Result<String, String> {
    Ok(format!("{} {}", header.seed_name, header.item_priority_groups[0].items[0]))
}

fn show_footer(footer: &SeedFooterTemplate) -> Result<String, String> {
    Ok(format!("{}", footer.race_mode))
}

#[test]
fn rendered_pages() {
    let pages =
        render_seed("abc", &plain_seed(), &app_data(), group, show_header, show_footer);
    assert_eq!(pages, Ok((s("abc Varia"), s("true"))));
}

#[test]
fn the_first_renderer_that_fails_gives_the_error() {
    let no_header = |_: &SeedHeaderTemplate| -> Result<String, String> { Err(s("header")) };
    let no_footer = |_: &SeedFooterTemplate| -> Result<String, String> { Err(s("footer")) };
    let seed = plain_seed();
    let app = app_data();
    assert_eq!(render_seed("abc", &seed, &app, group, no_header, no_footer), Err(s("header")));
    assert_eq!(render_seed("abc", &seed, &app, group, no_header, show_footer), Err(s("header")));
    assert_eq!(render_seed("abc", &seed, &app, group, show_header, no_footer), Err(s("footer")));
}
