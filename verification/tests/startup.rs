use maprando_web::app_data::{
    assemble_app_data, build_app_data, etank_colors, make_logic_data, map_sources,
    mosaic_themes, video_storage_url, Args, LoadedData, VersionInfo,
};
use maprando_web::game::{GameData, IndexedVec, PresetData};

fn args(video_storage_path: Option<&str>) -> Args {
    Args {
        seed_repository_url: "file:seeds".to_string(),
        video_storage_url: "https://videos.example".to_string(),
        video_storage_path: video_storage_path.map(|s| s.to_string()),
        debug: true,
        static_visualizer: false,
        parallelism: None,
        dev: true,
        port: 8080,
    }
}

fn loaded() -> LoadedData {
    LoadedData {
        game_data: GameData {
            tech_isv: IndexedVec { keys: vec![4, 2] },
            notable_isv: IndexedVec { keys: vec![(1, 1)] },
        },
        preset_data: PresetData::new(
            vec![("Basic".to_string(), vec![4])],
            vec![("Basic".to_string(), vec![])],
        )
        .unwrap(),
        visualizer_files: vec![("index.html".to_string(), vec![1, 2])],
    }
}

#[test]
fn stored_videos_are_served_here() {
    assert_eq!(video_storage_url(&args(Some("/srv/videos"))), "/videos");
    assert_eq!(video_storage_url(&args(Some(""))), "/videos");
    assert_eq!(video_storage_url(&args(None)), "https://videos.example");
}

#[test]
fn themes_on_offer() {
    let themes = mosaic_themes();
    assert_eq!(themes.len(), 10);
    assert_eq!(themes[0].name, "OuterCrateria");
    assert_eq!(themes[0].display_name, "Outer Crateria");
    assert_eq!(themes[9].name, "MetroidHabitat");
    assert_eq!(themes[9].display_name, "Metroid Habitat");
    for theme in themes {
        assert_eq!(theme.display_name.replace(' ', ""), theme.name);
    }
}

#[test]
fn map_collections() {
    let sources: Vec<(String, String)> =
        map_sources().into_iter().map(|s| (s.name, s.path)).collect();
    assert_eq!(
        sources,
        vec![
            ("Vanilla".to_string(), "../maps/vanilla".to_string()),
            ("Tame".to_string(), "../maps/v113-tame".to_string()),
            ("Wild".to_string(), "../maps/v110c-wild".to_string()),
        ]
    );
}

#[test]
fn shared_data() {
    let app_data = build_app_data(&args(Some("clips")), 119, loaded(), r#"[["Red"]]"#).unwrap();
    assert_eq!(app_data.version_info, VersionInfo { version: 119, dev: true });
    assert_eq!(app_data.video_storage_url, "/videos");
    assert_eq!(app_data.video_storage_path, Some("clips".to_string()));
    assert!(app_data._debug);
    assert!(!app_data.static_visualizer);
    assert_eq!(app_data.port, 8080);
    assert_eq!(app_data.etank_colors, vec![vec!["Red".to_string()]]);
    assert_eq!(app_data.visualizer_files, vec![("index.html".to_string(), vec![1, 2])]);
    assert_eq!(app_data.game_data.tech_isv.keys, vec![4, 2]);
    assert_eq!(app_data.preset_data.tech_by_difficulty[0].0, "Basic");
    assert_eq!(app_data.mosaic_themes.len(), 10);
}

#[test]
fn colors_of_energy_tanks() {
    assert_eq!(
        etank_colors(r#" [["00ff7f", "a\u00e9"], [], ["1"]] "#),
        Some(vec![
            vec!["00ff7f".to_string(), "a\u{e9}".to_string()],
            vec![],
            vec!["1".to_string()],
        ])
    );
    assert_eq!(etank_colors("[]"), Some(vec![]));
}

#[test]
fn what_is_no_table_of_colors_is_refused() {
    for json in ["", "[", "{}", "null", r#"["Red"]"#, "[[1]]", r#"[["Red"]] x"#] {
        assert_eq!(etank_colors(json), None);
        assert!(build_app_data(&args(None), 119, loaded(), json).is_none());
    }
}

#[test]
fn given_colors_are_kept() {
    let colors = vec![vec!["Red".to_string(), "Blue".to_string()]];
    let app_data = assemble_app_data(&args(None), 3, loaded(), colors.clone());
    assert_eq!(app_data.etank_colors, colors);
    assert_eq!(app_data.version_info.version, 3);
    assert_eq!(app_data.video_storage_url, "https://videos.example");
}

#[test]
fn a_preset_is_listed_once() {
    let once = || vec![("Basic".to_string(), vec![1]), ("Hard".to_string(), vec![1, 2])];
    let twice = || vec![("Basic".to_string(), vec![1]), ("Basic".to_string(), vec![2])];
    let notables_once = || vec![("Basic".to_string(), vec![(1, 1)])];
    let notables_twice = || {
        vec![
            ("Hard".to_string(), vec![]),
            ("Basic".to_string(), vec![]),
            ("Hard".to_string(), vec![]),
        ]
    };
    let presets = PresetData::new(once(), notables_once()).unwrap();
    assert_eq!(presets.tech_by_difficulty, once());
    assert_eq!(presets.notables_by_difficulty, notables_once());
    assert!(PresetData::new(twice(), notables_once()).is_none());
    assert!(PresetData::new(once(), notables_twice()).is_none());
    assert!(PresetData::new(vec![], vec![]).is_some());
}

#[test]
fn logic_data_comes_from_the_shared_data() {
    let show = |game: &GameData, presets: &PresetData, version: &VersionInfo, url: &String| {
        format!(
            "{:?} {} {} {} {}",
            game.tech_isv.keys, presets.tech_by_difficulty[0].0, version.version, version.dev, url
        )
    };
    let stored = build_app_data(&args(Some("clips")), 119, loaded(), "[]").unwrap();
    assert_eq!(make_logic_data(&stored, show), "[4, 2] Basic 119 true /videos");
    let remote = build_app_data(&args(None), 7, loaded(), "[]").unwrap();
    assert_eq!(make_logic_data(&remote, show), "[4, 2] Basic 7 true https://videos.example");
}
