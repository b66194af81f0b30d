//! What the server is started with.

use crate::app_data;
use crate::app_data::{
    assemble_app_data, build_app_data, etank_colors, map_sources, mosaic_themes,
    video_storage_url, AppData, Args, LoadedData, MapSource, MosaicTheme,
};
use crate::game::PresetData;
use crate::random;
use crate::random::{get_random_seed, seed_from_word};
use crate::text;
use vstd::prelude::*;

verus! {

/// With a directory of videos the server serves them itself; otherwise they are where the command
/// line says.
pub proof fn videos_are_found_where_they_are_stored(args: Args, url: String)
    requires
        call_ensures(video_storage_url, (&args,), url),
    ensures
        args.video_storage_path is Some ==> url@ == "/videos"@,
        args.video_storage_path is None ==> url@ == args.video_storage_url@,
{
}

/// Three collections of maps are read, each from its own directory.
pub proof fn three_map_collections_are_read(sources: Vec<MapSource>)
    requires
        call_ensures(map_sources, (), sources),
    ensures
        sources@.len() == 3,
        sources@[0].name@ == "Vanilla"@ && sources@[0].path@ == "../maps/vanilla"@,
        sources@[1].name@ == "Tame"@ && sources@[1].path@ == "../maps/v113-tame"@,
        sources@[2].name@ == "Wild"@ && sources@[2].path@ == "../maps/v110c-wild"@,
{
    let list = app_data::source_paths(sources@);
    assert(list.len() == sources@.len());
    assert forall|i: int| 0 <= i < sources@.len() implies #[trigger] list[i] == (
        sources@[i].name@,
        sources@[i].path@,
    ) by {}
    assert(list[0] == ("Vanilla"@, "../maps/vanilla"@));
    assert(list[1] == ("Tame"@, "../maps/v113-tame"@));
    assert(list[2] == ("Wild"@, "../maps/v110c-wild"@));
}

/// Ten themes are on offer, each under its own name.
pub proof fn ten_themes_are_on_offer(themes: Vec<MosaicTheme>)
    requires
        call_ensures(mosaic_themes, (), themes),
    ensures
        themes@.len() == 10,
        themes@[0].name@ == "OuterCrateria"@ && themes@[0].display_name@ == "Outer Crateria"@,
        themes@[1].name@ == "InnerCrateria"@ && themes@[1].display_name@ == "Inner Crateria"@,
        themes@[2].name@ == "GreenBrinstar"@ && themes@[2].display_name@ == "Green Brinstar"@,
        themes@[3].name@ == "RedBrinstar"@ && themes@[3].display_name@ == "Red Brinstar"@,
        themes@[4].name@ == "UpperNorfair"@ && themes@[4].display_name@ == "Upper Norfair"@,
        themes@[5].name@ == "WreckedShip"@ && themes@[5].display_name@ == "Wrecked Ship"@,
        themes@[6].name@ == "WestMaridia"@ && themes@[6].display_name@ == "West Maridia"@,
        themes@[7].name@ == "YellowMaridia"@ && themes@[7].display_name@ == "Yellow Maridia"@,
        themes@[8].name@ == "MechaTourian"@ && themes@[8].display_name@ == "Mecha Tourian"@,
        themes@[9].name@ == "MetroidHabitat"@ && themes@[9].display_name@ == "Metroid Habitat"@,
{
    let list = app_data::theme_names(themes@);
    assert(list.len() == themes@.len());
    assert forall|i: int| 0 <= i < themes@.len() implies #[trigger] list[i] == (
        themes@[i].name@,
        themes@[i].display_name@,
    ) by {}
    assert(list[0] == ("OuterCrateria"@, "Outer Crateria"@));
    assert(list[1] == ("InnerCrateria"@, "Inner Crateria"@));
    assert(list[2] == ("GreenBrinstar"@, "Green Brinstar"@));
    assert(list[3] == ("RedBrinstar"@, "Red Brinstar"@));
    assert(list[4] == ("UpperNorfair"@, "Upper Norfair"@));
    assert(list[5] == ("WreckedShip"@, "Wrecked Ship"@));
    assert(list[6] == ("WestMaridia"@, "West Maridia"@));
    assert(list[7] == ("YellowMaridia"@, "Yellow Maridia"@));
    assert(list[8] == ("MechaTourian"@, "Mecha Tourian"@));
    assert(list[9] == ("MetroidHabitat"@, "Metroid Habitat"@));
}

/// Tables of colours that say the same have the same colours at the same places.
proof fn lemma_same_colors(a: Seq<Vec<String>>, b: Seq<Vec<String>>)
    requires
        app_data::color_texts(a) == app_data::color_texts(b),
    ensures
        a.len() == b.len(),
        forall|i: int| 0 <= i < a.len() ==> (#[trigger] a[i])@.len() == b[i]@.len(),
        forall|i: int, j: int|
            0 <= i < a.len() && 0 <= j < a[i]@.len() ==> (#[trigger] a[i]@[j])@ == b[i]@[j]@,
{
    assert(app_data::color_texts(a).len() == a.len());
    assert(app_data::color_texts(b).len() == b.len());
    assert forall|i: int| 0 <= i < a.len() implies (#[trigger] a[i])@.len() == b[i]@.len() by {
        assert(app_data::color_texts(a)[i] == text::texts(a[i]@));
        assert(app_data::color_texts(b)[i] == text::texts(b[i]@));
        assert(text::texts(a[i]@).len() == text::texts(b[i]@).len());
    }
    assert forall|i: int, j: int| 0 <= i < a.len() && 0 <= j < a[i]@.len() implies (
    #[trigger] a[i]@[j])@ == b[i]@[j]@ by {
        assert(app_data::color_texts(a)[i] == text::texts(a[i]@));
        assert(app_data::color_texts(b)[i] == text::texts(b[i]@));
        assert(text::texts(a[i]@)[j] == a[i]@[j]@);
        assert(text::texts(b[i]@)[j] == b[i]@[j]@);
    }
}

/// The shared data holds what was read and what the command line says, each value in its own
/// place; the colours of energy tanks are those of their file, and without such colours there is
/// no shared data.
pub proof fn shared_data_is_what_was_read(
    args: Args,
    version: usize,
    loaded: LoadedData,
    json: &str,
    colors: Option<Vec<Vec<String>>>,
    themes: Vec<MosaicTheme>,
    built: Option<AppData>,
)
    requires
        call_ensures(build_app_data, (&args, version, loaded, json), built),
        call_ensures(etank_colors, (json,), colors),
        call_ensures(mosaic_themes, (), themes),
    ensures
        built is Some <==> colors is Some,
        built matches Some(app_data) ==> {
            &&& app_data.game_data == loaded.game_data
            &&& app_data.preset_data == loaded.preset_data
            &&& app_data.visualizer_files == loaded.visualizer_files
            &&& args.video_storage_path is Some ==> app_data.video_storage_url@ == "/videos"@
            &&& args.video_storage_path is None ==> app_data.video_storage_url@
                == args.video_storage_url@
            &&& app_data.video_storage_path == args.video_storage_path
            &&& app_data._debug == args.debug
            &&& app_data.port == args.port
            &&& app_data.version_info.version == version
            &&& app_data.version_info.dev == args.dev
            &&& app_data.static_visualizer == args.static_visualizer
            &&& app_data.mosaic_themes@.len() == themes@.len()
            &&& forall|i: int|
                0 <= i < themes@.len() ==> (#[trigger] app_data.mosaic_themes@[i]).name@
                    == themes@[i].name@ && app_data.mosaic_themes@[i].display_name@
                    == themes@[i].display_name@
            &&& app_data.etank_colors@.len() == colors->0@.len()
            &&& forall|i: int|
                0 <= i < app_data.etank_colors@.len() ==> (
                #[trigger] app_data.etank_colors@[i])@.len() == colors->0@[i]@.len()
            &&& forall|i: int, j: int|
                0 <= i < app_data.etank_colors@.len() && 0 <= j < app_data.etank_colors@[i]@.len()
                    ==> (#[trigger] app_data.etank_colors@[i]@[j])@ == colors->0@[i]@[j]@
        },
{
    if built is Some {
        let app_data = built->0;
        lemma_same_colors(app_data.etank_colors@, colors->0@);
        lemma_same_themes(app_data.mosaic_themes@, themes@);
    }
}

/// Themes that say the same are named the same at the same places.
proof fn lemma_same_themes(a: Seq<MosaicTheme>, b: Seq<MosaicTheme>)
    requires
        app_data::theme_names(a) == app_data::theme_names(b),
    ensures
        a.len() == b.len(),
        forall|i: int|
            0 <= i < b.len() ==> (#[trigger] a[i]).name@ == b[i].name@ && a[i].display_name@
                == b[i].display_name@,
{
    assert(app_data::theme_names(a).len() == a.len());
    assert(app_data::theme_names(b).len() == b.len());
    assert forall|i: int| 0 <= i < b.len() implies (#[trigger] a[i]).name@ == b[i].name@
        && a[i].display_name@ == b[i].display_name@ by {
        assert(app_data::theme_names(a)[i] == (a[i].name@, a[i].display_name@));
        assert(app_data::theme_names(b)[i] == (b[i].name@, b[i].display_name@));
    }
}

/// With colours that are given, the shared data holds those and is otherwise the same.
pub proof fn given_colors_are_kept(
    args: Args,
    version: usize,
    loaded: LoadedData,
    colors: Vec<Vec<String>>,
    themes: Vec<MosaicTheme>,
    app_data: AppData,
)
    requires
        call_ensures(assemble_app_data, (&args, version, loaded, colors), app_data),
        call_ensures(mosaic_themes, (), themes),
    ensures
        app_data.etank_colors == colors,
        app_data.game_data == loaded.game_data,
        app_data.preset_data == loaded.preset_data,
        app_data.visualizer_files == loaded.visualizer_files,
        args.video_storage_path is Some ==> app_data.video_storage_url@ == "/videos"@,
        args.video_storage_path is None ==> app_data.video_storage_url@ == args.video_storage_url@,
        app_data.video_storage_path == args.video_storage_path,
        app_data._debug == args.debug,
        app_data.port == args.port,
        app_data.version_info.version == version,
        app_data.version_info.dev == args.dev,
        app_data.static_visualizer == args.static_visualizer,
        app_data.mosaic_themes@.len() == themes@.len(),
        forall|i: int|
            0 <= i < themes@.len() ==> (#[trigger] app_data.mosaic_themes@[i]).name@
                == themes@[i].name@ && app_data.mosaic_themes@[i].display_name@
                == themes@[i].display_name@,
{
    lemma_same_themes(app_data.mosaic_themes@, themes@);
}

/// The tables of the presets are taken over as they are just when no name is in one of them twice.
pub proof fn presets_are_listed_once(
    tech: Vec<(String, Vec<usize>)>,
    notables: Vec<(String, Vec<(usize, usize)>)>,
    made: Option<PresetData>,
)
    requires
        call_ensures(PresetData::new, (tech, notables), made),
    ensures
        made is Some <==> (forall|i: int, j: int|
            0 <= i < j < tech@.len() ==> (#[trigger] tech@[i]).0@ != (#[trigger] tech@[j]).0@) && (
        forall|i: int, j: int|
            0 <= i < j < notables@.len() ==> (#[trigger] notables@[i]).0@ != (
            #[trigger] notables@[j]).0@),
        made matches Some(presets) ==> presets.tech_by_difficulty == tech
            && presets.notables_by_difficulty == notables,
{
}

/// The seed number of a word is made of its low 32 bits: it fits in them, differs from the word by
/// a multiple of 2^32, and is the word itself where that is small.
pub proof fn seed_numbers_have_32_bits(word: u64, seed: usize)
    requires
        call_ensures(seed_from_word, (word,), seed),
    ensures
        seed < 0x1_0000_0000,
        (word - seed) % 0x1_0000_0000 == 0,
        word < 0x1_0000_0000 ==> seed == word,
{
}

/// The number of a new seed has 32 bits, those of a word that was drawn.
pub proof fn random_seeds_are_drawn(seed: usize)
    requires
        call_ensures(get_random_seed, (), seed),
    ensures
        seed < 0x1_0000_0000,
        exists|word: u64| #[trigger]
            random::is_drawn(word) && (word - seed) % 0x1_0000_0000 == 0,
{
}

} // verus!
