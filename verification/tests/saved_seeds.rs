use maprando_web::app_data::{build_app_data, AppData, Args, LoadedData};
use maprando_web::game::{DifficultyConfig, GameData, IndexedVec, PresetData};
use maprando_web::save::{
    check_seed_exists, make_artifacts, save_seed, seed_files, SaveAction, SaveError, SaveEvent,
    SeedArtifacts, SeedContents, SeedFile,
};
use maprando_web::seed_page::{
    ItemPriorityGroup, SeedData, SeedFooterTemplate, SeedHeaderTemplate,
};
use maprando_web::settings::{
    AreaAssignment, DoorLocksSize, ETankRefill, ItemDotChange, ItemProgressionSettings,
    KeyItemPriority, MapStationReveal, MapsRevealed, OtherSettings, RandomizerSettings, WallJump,
};

fn s(text: &str) -> String {
    text.to_string()
}

fn artifacts() -> SeedArtifacts {
    SeedArtifacts {
        seed_data_json: vec![1],
        patch_ips: vec![2],
        seed_header_html: s("<h1>\u{e9}</h1>"),
        seed_footer_html: s("foot"),
        map_json: vec![3],
        settings_json: vec![4],
        spoiler_json: vec![5],
        map_assigned_png: vec![6],
        map_vanilla_png: vec![7],
        map_grid_png: vec![8],
    }
}

fn visualizer() -> Vec<(String, Vec<u8>)> {
    vec![(s("index.html"), vec![9]), (s("script.js"), vec![10, 11])]
}

fn names(files: &Vec<SeedFile>) -> Vec<String> {
    files.iter().map(|file| file.name.clone()).collect()
}

fn data<'a>(files: &'a Vec<SeedFile>, name: &str) -> &'a Vec<u8> {
    &files.iter().find(|file| file.name == name).unwrap().data
}

fn seed_data(race_mode: bool) -> SeedData {
    SeedData {
        timestamp: 0,
        random_seed: 0,
        race_mode,
        preset: None,
        item_progression_preset: None,
        difficulty: DifficultyConfig { tech: vec![], notables: vec![] },
        quality_of_life_preset: None,
        settings: RandomizerSettings {
            item_progression_settings: ItemProgressionSettings {
                progression_rate: s(""),
                item_placement_style: s(""),
                random_tank: false,
                item_pool: vec![],
                starting_items: vec![],
                key_item_priority: vec![],
                filler_items: vec![],
            },
            other_settings: OtherSettings {
                area_assignment: AreaAssignment::Other,
                item_dot_change: ItemDotChange::Other,
                transition_letters: false,
                door_locks_size: DoorLocksSize::Other,
                wall_jump: WallJump::Other,
                etank_refill: ETankRefill::Other,
                maps_revealed: MapsRevealed::Other,
                map_station_reveal: MapStationReveal::Other,
                energy_free_shinesparks: false,
                ultra_low_qol: false,
            },
        },
        supers_double: false,
        mother_brain_fight: s(""),
        escape_enemies_cleared: false,
        escape_refill: false,
        escape_movement_items: false,
        mark_map_stations: false,
        item_markers: s(""),
        all_items_spawn: false,
        acid_chozo: false,
        buffed_drops: false,
        fast_elevators: false,
        fast_doors: false,
        fast_pause_menu: false,
        respin: false,
        infinite_space_jump: false,
        momentum_conservation: false,
        objectives: s(""),
        doors: s(""),
        start_location_mode: s(""),
        map_layout: s(""),
        save_animals: s(""),
        early_save: false,
        ultra_low_qol: false,
    }
}

fn app_data() -> AppData {
    build_app_data(
        &Args {
            seed_repository_url: s(""),
            video_storage_url: s(""),
            video_storage_path: None,
            debug: false,
            static_visualizer: false,
            parallelism: None,
            dev: false,
            port: 1,
        },
        1,
        LoadedData {
            game_data: GameData {
                tech_isv: IndexedVec { keys: vec![] },
                notable_isv: IndexedVec { keys: vec![] },
            },
            preset_data: PresetData { tech_by_difficulty: vec![], notables_by_difficulty: vec![] },
            visualizer_files: visualizer(),
        },
        "[]",
    )
    .unwrap()
}

#[test]
fn files_of_a_public_seed() {
    let files = seed_files(false, "token", artifacts(), &visualizer());
    assert_eq!(
        names(&files),
        vec![
            s("seed_data.json"),
            s("patch.ips"),
            s("seed_header.html"),
            s("seed_footer.html"),
            s("map.json"),
            s("public/settings.json"),
            s("public/spoiler.json"),
            s("public/map-assigned.png"),
            s("public/map-vanilla.png"),
            s("public/map-grid.png"),
            s("public/visualizer/index.html"),
            s("public/visualizer/script.js"),
        ]
    );
    assert_eq!(data(&files, "seed_data.json"), &vec![1]);
    assert_eq!(data(&files, "patch.ips"), &vec![2]);
    assert_eq!(data(&files, "seed_header.html"), &"<h1>\u{e9}</h1>".as_bytes().to_vec());
    assert_eq!(data(&files, "seed_footer.html"), &b"foot".to_vec());
    assert_eq!(data(&files, "map.json"), &vec![3]);
    assert_eq!(data(&files, "public/settings.json"), &vec![4]);
    assert_eq!(data(&files, "public/spoiler.json"), &vec![5]);
    assert_eq!(data(&files, "public/map-assigned.png"), &vec![6]);
    assert_eq!(data(&files, "public/map-vanilla.png"), &vec![7]);
    assert_eq!(data(&files, "public/map-grid.png"), &vec![8]);
    assert_eq!(data(&files, "public/visualizer/script.js"), &vec![10, 11]);
}

#[test]
fn a_race_publishes_only_its_settings() {
    let files = seed_files(true, "token", artifacts(), &visualizer());
    let public: Vec<String> =
        names(&files).into_iter().filter(|name| name.starts_with("public/")).collect();
    assert_eq!(public, vec![s("public/settings.json")]);
    assert_eq!(data(&files, "spoiler_token.txt"), &b"token".to_vec());
    assert_eq!(data(&files, "locked/spoiler.json"), &vec![5]);
    assert_eq!(data(&files, "locked/visualizer/index.html"), &vec![9]);
    assert_eq!(files.len(), 13);
    assert_eq!(files[4].name, "spoiler_token.txt");
}

#[test]
fn paths_of_a_seed_are_distinct() {
    for race_mode in [false, true] {
        let mut paths = names(&seed_files(race_mode, "", artifacts(), &visualizer()));
        let total = paths.len();
        paths.sort();
        paths.dedup();
        assert_eq!(paths.len(), total);
    }
}

#[test]
fn existence_is_a_readable_data_file() {
    assert!(check_seed_exists(&Ok::<Vec<u8>, String>(vec![])));
    assert!(!check_seed_exists(&Err::<Vec<u8>, String>(s("not found"))));
}

fn step(event: SaveEvent<String>) -> SaveAction<String> {
    save_seed("abc", &seed_data(true), "token", &app_data(), event)
}

#[test]
fn saving_starts_with_a_lookup() {
    match step(SaveEvent::Requested) {
        SaveAction::LookUp { seed_name, file } => {
            assert_eq!(seed_name, "abc");
            assert_eq!(file, "seed_data.json");
        }
        _ => panic!("no lookup"),
    }
}

#[test]
fn a_taken_name_is_refused() {
    match step(SaveEvent::LookedUp(Ok(vec![1]))) {
        SaveAction::Finish(Err(SaveError::SeedNameExists { message })) => {
            assert_eq!(message, "Seed name already exists: abc");
        }
        _ => panic!("not refused"),
    }
}

#[test]
fn a_free_name_is_made_and_stored() {
    assert!(matches!(step(SaveEvent::LookedUp(Err(s("not found")))), SaveAction::Make));
    match step(SaveEvent::Made(Ok(artifacts()))) {
        SaveAction::Store(seed) => {
            assert_eq!(seed.name, "abc");
            assert_eq!(seed.files.len(), 13);
            assert_eq!(seed.files[0].name, "seed_data.json");
            assert_eq!(seed.files[12].name, "locked/visualizer/script.js");
        }
        _ => panic!("not stored"),
    }
    assert!(matches!(step(SaveEvent::Stored(Ok(()))), SaveAction::Finish(Ok(()))));
}

#[test]
fn failures_are_passed_on() {
    match step(SaveEvent::Made(Err(s("broken template")))) {
        SaveAction::Finish(Err(SaveError::Failed(error))) => assert_eq!(error, "broken template"),
        _ => panic!("not passed on"),
    }
    match step(SaveEvent::Stored(Err(s("disk full")))) {
        SaveAction::Finish(Err(SaveError::Failed(error))) => assert_eq!(error, "disk full"),
        _ => panic!("not passed on"),
    }
}

fn contents() -> SeedContents {
    SeedContents {
        seed_data_json: vec![1],
        patch_ips: vec![2],
        map_json: vec![3],
        settings_json: vec![4],
        spoiler_json: vec![5],
        map_assigned_png: vec![6],
        map_vanilla_png: vec![7],
        map_grid_png: vec![8],
    }
}

fn group(items: &Vec<KeyItemPriority>) -> Vec<ItemPriorityGroup> {
    vec![ItemPriorityGroup { priority: s("Early"), items: vec![s("x"); items.len()] }]
}

fn show_header(header: &SeedHeaderTemplate) -> Result<String, String> {
    Ok(format!("{} {}", header.seed_name, header.item_priority_groups[0].priority))
}

fn show_footer(footer: &SeedFooterTemplate) -> Result<String, String> {
    Ok(format!("race: {}", footer.race_mode))
}

fn no_header(_: &SeedHeaderTemplate) -> Result<String, String> {
    Err(s("header"))
}

fn no_footer(_: &SeedFooterTemplate) -> Result<String, String> {
    Err(s("footer"))
}

#[test]
fn the_saved_pages_are_those_of_the_seed() {
    let seed = seed_data(true);
    let made = make_artifacts("abc", &seed, &app_data(), group, show_header, show_footer, || {
        Ok(contents())
    })
    .unwrap();
    assert_eq!(made.seed_header_html, "abc Early");
    assert_eq!(made.seed_footer_html, "race: true");
    let stored = match step(SaveEvent::Made(Ok(made))) {
        SaveAction::Store(stored) => stored,
        _ => panic!("not stored"),
    };
    assert_eq!(data(&stored.files, "seed_header.html"), &b"abc Early".to_vec());
    assert_eq!(data(&stored.files, "seed_footer.html"), &b"race: true".to_vec());
    let other = seed_files(true, "token", artifacts(), &visualizer());
    assert_eq!(names(&stored.files), names(&other));
    for file in &other {
        if !file.name.ends_with("er.html") {
            assert_eq!(data(&stored.files, &file.name), &file.data);
        }
    }
}

#[test]
fn the_first_failure_in_making_a_seed_is_its_error() {
    let seed = seed_data(false);
    let app = app_data();
    let no_contents = || Err::<SeedContents, String>(s("map"));
    let unused = || -> Result<SeedContents, String> { panic!("made without pages") };
    assert_eq!(
        make_artifacts("abc", &seed, &app, group, no_header, no_footer, unused).err(),
        Some(s("header"))
    );
    assert_eq!(
        make_artifacts("abc", &seed, &app, group, show_header, no_footer, unused).err(),
        Some(s("footer"))
    );
    assert_eq!(
        make_artifacts("abc", &seed, &app, group, show_header, show_footer, no_contents).err(),
        Some(s("map"))
    );
}
