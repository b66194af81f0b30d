//! What the server is started with, and the data that its pages share.

use crate::game::{GameData, PresetData};
use crate::text;
use vstd::prelude::*;

verus! {

/// Where the server finds its data, relative to the directory it is started in.
pub const VISUALIZER_PATH: &'static str = "../visualizer/";

pub const SM_JSON_DATA_PATH: &'static str = "../sm-json-data";

pub const ROOM_GEOMETRY_PATH: &'static str = "../room_geometry.json";

pub const ESCAPE_TIMINGS_PATH: &'static str = "data/escape_timings.json";

pub const START_LOCATIONS_PATH: &'static str = "data/start_locations.json";

pub const HUB_LOCATIONS_PATH: &'static str = "data/hub_locations.json";

pub const ETANK_COLORS_PATH: &'static str = "data/etank_colors.json";

pub const REDUCED_FLASHING_PATH: &'static str = "data/reduced_flashing.json";

pub const STRAT_VIDEOS_PATH: &'static str = "data/strat_videos.json";

pub const SAMUS_SPRITES_PATH: &'static str = "../MapRandoSprites/samus_sprites";

/// The list of the sprites, a JSON file in that directory, without its extension.
pub const SAMUS_SPRITES_LIST: &'static str = "manifest";

pub const TITLE_SCREEN_PATH: &'static str = "../TitleScreen/Images";

pub const TECH_PATH: &'static str = "data/tech_data.json";

pub const NOTABLE_PATH: &'static str = "data/notable_data.json";

pub const PRESETS_PATH: &'static str = "data/presets";

/// Where the server serves the videos that it stores itself.
pub const VIDEOS_ROUTE: &'static str = "/videos";

/// The command line.
pub struct Args {
    pub seed_repository_url: String,
    pub video_storage_url: String,
    pub video_storage_path: Option<String>,
    pub debug: bool,
    pub static_visualizer: bool,
    pub parallelism: Option<usize>,
    pub dev: bool,
    pub port: u16,
}

/// The version of the randomizer, and whether this is a development server.
#[derive(Clone, Copy, Debug, PartialEq, Eq, Structural)]
pub struct VersionInfo {
    pub version: usize,
    pub dev: bool,
}

/// A look of the game's areas that a player can choose.
pub struct MosaicTheme {
    pub name: String,
    pub display_name: String,
}

/// A collection of maps: its name, and the directory that it is read from.
pub struct MapSource {
    pub name: String,
    pub path: String,
}

/// What is read at the start.
pub struct LoadedData {
    pub game_data: GameData,
    pub preset_data: PresetData,
    /// The files of the spoiler visualizer, by name.
    pub visualizer_files: Vec<(String, Vec<u8>)>,
}

/// The data that the pages share.
pub struct AppData {
    pub game_data: GameData,
    pub preset_data: PresetData,
    pub visualizer_files: Vec<(String, Vec<u8>)>,
    pub video_storage_url: String,
    pub video_storage_path: Option<String>,
    pub _debug: bool,
    pub port: u16,
    pub version_info: VersionInfo,
    pub static_visualizer: bool,
    pub etank_colors: Vec<Vec<String>>,
    pub mosaic_themes: Vec<MosaicTheme>,
}

/// The themes by name and displayed name.
pub open spec fn theme_names(themes: Seq<MosaicTheme>) -> Seq<(Seq<char>, Seq<char>)> {
    Seq::new(themes.len(), |i: int| (themes[i].name@, themes[i].display_name@))
}

/// The themes on offer, in the order in which they are shown.
pub open spec fn offered_themes() -> Seq<(Seq<char>, Seq<char>)> {
    seq![
        ("OuterCrateria"@, "Outer Crateria"@),
        ("InnerCrateria"@, "Inner Crateria"@),
        ("GreenBrinstar"@, "Green Brinstar"@),
        ("RedBrinstar"@, "Red Brinstar"@),
        ("UpperNorfair"@, "Upper Norfair"@),
        ("WreckedShip"@, "Wrecked Ship"@),
        ("WestMaridia"@, "West Maridia"@),
        ("YellowMaridia"@, "Yellow Maridia"@),
        ("MechaTourian"@, "Mecha Tourian"@),
        ("MetroidHabitat"@, "Metroid Habitat"@),
    ]
}

fn push_theme(themes: &mut Vec<MosaicTheme>, name: &str, display_name: &str)
    ensures
        theme_names(final(themes)@) == theme_names(old(themes)@).push((name@, display_name@)),
{
    themes.push(MosaicTheme { name: name.to_owned(), display_name: display_name.to_owned() });
}

/// Lists the themes on offer.
pub fn mosaic_themes() -> (themes: Vec<MosaicTheme>)
    ensures
        theme_names(themes@) == offered_themes(),
{
    let mut themes: Vec<MosaicTheme> = Vec::new();
    push_theme(&mut themes, "OuterCrateria", "Outer Crateria");
    push_theme(&mut themes, "InnerCrateria", "Inner Crateria");
    push_theme(&mut themes, "GreenBrinstar", "Green Brinstar");
    push_theme(&mut themes, "RedBrinstar", "Red Brinstar");
    push_theme(&mut themes, "UpperNorfair", "Upper Norfair");
    push_theme(&mut themes, "WreckedShip", "Wrecked Ship");
    push_theme(&mut themes, "WestMaridia", "West Maridia");
    push_theme(&mut themes, "YellowMaridia", "Yellow Maridia");
    push_theme(&mut themes, "MechaTourian", "Mecha Tourian");
    push_theme(&mut themes, "MetroidHabitat", "Metroid Habitat");
    themes
}

/// The map collections by name and directory.
pub open spec fn source_paths(sources: Seq<MapSource>) -> Seq<(Seq<char>, Seq<char>)> {
    Seq::new(sources.len(), |i: int| (sources[i].name@, sources[i].path@))
}

fn push_source(sources: &mut Vec<MapSource>, name: &str, path: &str)
    ensures
        source_paths(final(sources)@) == source_paths(old(sources)@).push((name@, path@)),
{
    sources.push(MapSource { name: name.to_owned(), path: path.to_owned() });
}

/// Lists the map collections to read.
pub fn map_sources() -> (sources: Vec<MapSource>)
    ensures
        source_paths(sources@) == seq![
            ("Vanilla"@, "../maps/vanilla"@),
            ("Tame"@, "../maps/v113-tame"@),
            ("Wild"@, "../maps/v110c-wild"@),
        ],
{
    let mut sources: Vec<MapSource> = Vec::new();
    push_source(&mut sources, "Vanilla", "../maps/vanilla");
    push_source(&mut sources, "Tame", "../maps/v113-tame");
    push_source(&mut sources, "Wild", "../maps/v110c-wild");
    sources
}

/// Where pages find videos: with a directory of its own the server serves them itself.
pub open spec fn video_url(args: Args) -> Seq<char> {
    if args.video_storage_path is Some {
        VIDEOS_ROUTE@
    } else {
        args.video_storage_url@
    }
}

/// Says where pages find videos.
pub fn video_storage_url(args: &Args) -> (url: String)
    ensures
        url@ == video_url(*args),
{
    if args.video_storage_path.is_some() {
        VIDEOS_ROUTE.to_owned()
    } else {
        args.video_storage_url.clone()
    }
}

/// What a table of colour names says, row by row.
pub open spec fn color_texts(rows: Seq<Vec<String>>) -> Seq<Seq<Seq<char>>> {
    Seq::new(rows.len(), |i: int| text::texts(rows[i]@))
}

/// The table of strings that a JSON text stands for: rows of strings, if it is a JSON array of
/// arrays of strings.
pub uninterp spec fn color_table(json: Seq<char>) -> Option<Seq<Seq<Seq<char>>>>;

/// `serde_json::from_str` into rows of strings: the table that the text stands for, or nothing
/// where it stands for none. The grammar of JSON is left to `color_table`.
#[verifier::external_body]
fn parse_color_table(json: &str) -> (found: Option<Vec<Vec<String>>>)
    ensures
        found is Some <==> color_table(json@) is Some,
        found is Some ==> color_texts(found->0@) == color_table(json@)->0,
{
    serde_json::from_str(json).ok()
}

/// Reads the colours of energy tanks, row by row, from the text of their file.
pub fn etank_colors(json: &str) -> (found: Option<Vec<Vec<String>>>)
    ensures
        found is Some <==> color_table(json@) is Some,
        found is Some ==> color_texts(found->0@) == color_table(json@)->0,
{
    parse_color_table(json)
}

impl AppData {
    /// This is what the command line and the data that was read come to, apart from the colours
    /// of energy tanks.
    pub open spec fn is_built_from(self, args: Args, version: usize, loaded: LoadedData) -> bool {
        &&& self.game_data == loaded.game_data
        &&& self.preset_data == loaded.preset_data
        &&& self.visualizer_files == loaded.visualizer_files
        &&& self.video_storage_url@ == video_url(args)
        &&& self.video_storage_path == args.video_storage_path
        &&& self._debug == args.debug
        &&& self.port == args.port
        &&& self.version_info == VersionInfo { version, dev: args.dev }
        &&& self.static_visualizer == args.static_visualizer
        &&& theme_names(self.mosaic_themes@) == offered_themes()
    }
}

/// Puts together the data that the pages share, with the given colours of energy tanks.
pub fn assemble_app_data(
    args: &Args,
    version: usize,
    loaded: LoadedData,
    etank_colors: Vec<Vec<String>>,
) -> (app_data: AppData)
    ensures
        app_data.is_built_from(*args, version, loaded),
        app_data.etank_colors == etank_colors,
{
    AppData {
        game_data: loaded.game_data,
        preset_data: loaded.preset_data,
        visualizer_files: loaded.visualizer_files,
        video_storage_url: video_storage_url(args),
        video_storage_path: args.video_storage_path.clone(),
        _debug: args.debug,
        port: args.port,
        version_info: VersionInfo { version, dev: args.dev },
        static_visualizer: args.static_visualizer,
        etank_colors,
        mosaic_themes: mosaic_themes(),
    }
}

/// Puts together the data that the pages share, from the command line, what was read, and the
/// text of the file of energy tank colours. There is none where that text is no table of strings.
pub fn build_app_data(
    args: &Args,
    version: usize,
    loaded: LoadedData,
    etank_colors_json: &str,
) -> (app_data: Option<AppData>)
    ensures
        app_data is Some <==> color_table(etank_colors_json@) is Some,
        app_data is Some ==> app_data->0.is_built_from(*args, version, loaded),
        app_data is Some ==> color_texts(app_data->0.etank_colors@) == color_table(
            etank_colors_json@,
        )->0,
{
    match etank_colors(etank_colors_json) {
        Some(colors) => Some(assemble_app_data(args, version, loaded, colors)),
        None => None,
    }
}

/// Has the data of the logic pages made from the shared data: from the game, the presets, the
/// version, and the address at which pages find videos.
pub fn make_logic_data<L, M: Fn(&GameData, &PresetData, &VersionInfo, &String) -> L>(
    app_data: &AppData,
    make: M,
) -> (logic: L)
    requires
        call_requires(
            make,
            (
                &app_data.game_data,
                &app_data.preset_data,
                &app_data.version_info,
                &app_data.video_storage_url,
            ),
        ),
    ensures
        call_ensures(
            make,
            (
                &app_data.game_data,
                &app_data.preset_data,
                &app_data.version_info,
                &app_data.video_storage_url,
            ),
            logic,
        ),
{
    make(
        &app_data.game_data,
        &app_data.preset_data,
        &app_data.version_info,
        &app_data.video_storage_url,
    )
}

/// The logic pages speak of the game and the presets that were read, of the running version, and
/// of the address of videos that the command line comes to: the server's own route where it has a
/// directory of videos.
pub proof fn logic_data_is_of_what_was_loaded<
    L,
    M: Fn(&GameData, &PresetData, &VersionInfo, &String) -> L,
>(args: Args, version: usize, loaded: LoadedData, app_data: AppData, make: M, logic: L)
    requires
        app_data.is_built_from(args, version, loaded),
        call_ensures(
            make,
            (
                &app_data.game_data,
                &app_data.preset_data,
                &app_data.version_info,
                &app_data.video_storage_url,
            ),
            logic,
        ),
    ensures
        exists|url: String|
            url@ == video_url(args) && #[trigger] call_ensures(
                make,
                (
                    &loaded.game_data,
                    &loaded.preset_data,
                    &(VersionInfo { version, dev: args.dev }),
                    &url,
                ),
                logic,
            ),
{
}

} // verus!
