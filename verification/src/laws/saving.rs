//! What becomes of a seed that is saved.

use crate::app_data::AppData;
use crate::save::{
    check_seed_exists, make_artifacts, save_seed, seed_files, SaveAction, SaveError, SaveEvent,
    SeedArtifacts, SeedContents, SeedFile,
};
use crate::seed_page::{ItemPriorityGroup, SeedData, SeedFooterTemplate, SeedHeaderTemplate};
use crate::settings::KeyItemPriority;
use crate::{save, seed_page};
use vstd::prelude::*;
use vstd::utf8::*;

verus! {

/// The paths of the spoilers, spelled out.
proof fn lemma_spoiler_paths()
    ensures
        "public"@ + "/spoiler.json"@ == "public/spoiler.json"@,
        "public"@ + "/map-assigned.png"@ == "public/map-assigned.png"@,
        "public"@ + "/map-vanilla.png"@ == "public/map-vanilla.png"@,
        "public"@ + "/map-grid.png"@ == "public/map-grid.png"@,
        "public"@ + "/visualizer/"@ == "public/visualizer/"@,
        "locked"@ + "/spoiler.json"@ == "locked/spoiler.json"@,
        "locked"@ + "/map-assigned.png"@ == "locked/map-assigned.png"@,
        "locked"@ + "/map-vanilla.png"@ == "locked/map-vanilla.png"@,
        "locked"@ + "/map-grid.png"@ == "locked/map-grid.png"@,
        "locked"@ + "/visualizer/"@ == "locked/visualizer/"@,
{
    reveal_strlit("public");
    reveal_strlit("locked");
    reveal_strlit("/spoiler.json");
    reveal_strlit("/map-assigned.png");
    reveal_strlit("/map-vanilla.png");
    reveal_strlit("/map-grid.png");
    reveal_strlit("/visualizer/");
    reveal_strlit("public/spoiler.json");
    reveal_strlit("public/map-assigned.png");
    reveal_strlit("public/map-vanilla.png");
    reveal_strlit("public/map-grid.png");
    reveal_strlit("public/visualizer/");
    reveal_strlit("locked/spoiler.json");
    reveal_strlit("locked/map-assigned.png");
    reveal_strlit("locked/map-vanilla.png");
    reveal_strlit("locked/map-grid.png");
    reveal_strlit("locked/visualizer/");
    assert("public"@ + "/spoiler.json"@ =~= "public/spoiler.json"@);
    assert("public"@ + "/map-assigned.png"@ =~= "public/map-assigned.png"@);
    assert("public"@ + "/map-vanilla.png"@ =~= "public/map-vanilla.png"@);
    assert("public"@ + "/map-grid.png"@ =~= "public/map-grid.png"@);
    assert("public"@ + "/visualizer/"@ =~= "public/visualizer/"@);
    assert("locked"@ + "/spoiler.json"@ =~= "locked/spoiler.json"@);
    assert("locked"@ + "/map-assigned.png"@ =~= "locked/map-assigned.png"@);
    assert("locked"@ + "/map-vanilla.png"@ =~= "locked/map-vanilla.png"@);
    assert("locked"@ + "/map-grid.png"@ =~= "locked/map-grid.png"@);
    assert("locked"@ + "/visualizer/"@ =~= "locked/visualizer/"@);
}

/// The files of a seed that is no race, in the order in which they are written: ten of its own,
/// with the spoilers in public, and then a public copy of the visualizer.
proof fn lemma_public_files(
    spoiler_token: Seq<char>,
    artifacts: SeedArtifacts,
    visualizer: Seq<(String, Vec<u8>)>,
    files: Seq<SeedFile>,
)
    requires
        save::file_list(files) == save::seed_file_list(
            false,
            spoiler_token,
            artifacts,
            visualizer,
        ),
    ensures
        files.len() == 10 + visualizer.len(),
        files[0].name@ == "seed_data.json"@ && files[0].data@ == artifacts.seed_data_json@,
        files[1].name@ == "patch.ips"@ && files[1].data@ == artifacts.patch_ips@,
        files[2].name@ == "seed_header.html"@ && files[2].data@ == encode_utf8(
            artifacts.seed_header_html@,
        ),
        files[3].name@ == "seed_footer.html"@ && files[3].data@ == encode_utf8(
            artifacts.seed_footer_html@,
        ),
        files[4].name@ == "map.json"@ && files[4].data@ == artifacts.map_json@,
        files[5].name@ == "public/settings.json"@ && files[5].data@ == artifacts.settings_json@,
        files[6].name@ == "public/spoiler.json"@ && files[6].data@ == artifacts.spoiler_json@,
        files[7].name@ == "public/map-assigned.png"@ && files[7].data@
            == artifacts.map_assigned_png@,
        files[8].name@ == "public/map-vanilla.png"@ && files[8].data@
            == artifacts.map_vanilla_png@,
        files[9].name@ == "public/map-grid.png"@ && files[9].data@ == artifacts.map_grid_png@,
        forall|i: int|
            0 <= i < visualizer.len() ==> (#[trigger] files[10 + i]).name@
                == "public/visualizer/"@ + visualizer[i].0@ && files[10 + i].data@
                == visualizer[i].1@,
        forall|i: int|
            0 <= i < files.len() ==> (#[trigger] files[i]).name@ != "spoiler_token.txt"@,
{
    lemma_spoiler_paths();
    let list = save::file_list(files);
    assert(list.len() == files.len());
    assert forall|i: int| 0 <= i < files.len() implies (#[trigger] files[i]).name@ == list[i].0
        && files[i].data@ == list[i].1 by {}
    assert forall|i: int| 0 <= i < visualizer.len() implies (#[trigger] files[10 + i]).name@
        == "public/visualizer/"@ + visualizer[i].0@ && files[10 + i].data@
        == visualizer[i].1@ by {
        assert(files[10 + i].name@ == list[10 + i].0);
        assert(list[10 + i] == save::visualizer_copies(false, visualizer)[i]);
    }
    reveal_strlit("seed_data.json");
    reveal_strlit("patch.ips");
    reveal_strlit("seed_header.html");
    reveal_strlit("seed_footer.html");
    reveal_strlit("map.json");
    reveal_strlit("public/settings.json");
    reveal_strlit("public/spoiler.json");
    reveal_strlit("public/map-assigned.png");
    reveal_strlit("public/map-vanilla.png");
    reveal_strlit("public/map-grid.png");
    reveal_strlit("public/visualizer/");
    reveal_strlit("spoiler_token.txt");
    assert("spoiler_token.txt"@.len() == 17 && "spoiler_token.txt"@[0] == 's');
    assert("seed_data.json"@.len() == 14 && "patch.ips"@.len() == 9);
    assert("seed_header.html"@.len() == 16 && "seed_footer.html"@.len() == 16);
    assert("map.json"@.len() == 8 && "public/settings.json"@.len() == 20);
    assert("public/spoiler.json"@.len() == 19 && "public/map-assigned.png"@.len() == 23);
    assert("public/map-vanilla.png"@.len() == 22 && "public/map-grid.png"@.len() == 19);
    assert("public/visualizer/"@.len() == 18);
    assert forall|i: int| 0 <= i < files.len() implies (#[trigger] files[i]).name@
        != "spoiler_token.txt"@ by {
        if i >= 10 {
            assert(files[10 + (i - 10)].name@.len() >= 18);
        }
    }
}

/// The files of a race, in the order in which they are written: eleven of its own, among them the
/// token that unlocks the spoilers, and then a locked copy of the visualizer. Only the settings
/// are public.
proof fn lemma_locked_files(
    spoiler_token: Seq<char>,
    artifacts: SeedArtifacts,
    visualizer: Seq<(String, Vec<u8>)>,
    files: Seq<SeedFile>,
)
    requires
        save::file_list(files) == save::seed_file_list(
            true,
            spoiler_token,
            artifacts,
            visualizer,
        ),
    ensures
        files.len() == 11 + visualizer.len(),
        files[0].name@ == "seed_data.json"@ && files[0].data@ == artifacts.seed_data_json@,
        files[1].name@ == "patch.ips"@ && files[1].data@ == artifacts.patch_ips@,
        files[2].name@ == "seed_header.html"@ && files[2].data@ == encode_utf8(
            artifacts.seed_header_html@,
        ),
        files[3].name@ == "seed_footer.html"@ && files[3].data@ == encode_utf8(
            artifacts.seed_footer_html@,
        ),
        files[4].name@ == "spoiler_token.txt"@ && files[4].data@ == encode_utf8(spoiler_token),
        files[5].name@ == "map.json"@ && files[5].data@ == artifacts.map_json@,
        files[6].name@ == "public/settings.json"@ && files[6].data@ == artifacts.settings_json@,
        files[7].name@ == "locked/spoiler.json"@ && files[7].data@ == artifacts.spoiler_json@,
        files[8].name@ == "locked/map-assigned.png"@ && files[8].data@
            == artifacts.map_assigned_png@,
        files[9].name@ == "locked/map-vanilla.png"@ && files[9].data@
            == artifacts.map_vanilla_png@,
        files[10].name@ == "locked/map-grid.png"@ && files[10].data@ == artifacts.map_grid_png@,
        forall|i: int|
            0 <= i < visualizer.len() ==> (#[trigger] files[11 + i]).name@
                == "locked/visualizer/"@ + visualizer[i].0@ && files[11 + i].data@
                == visualizer[i].1@,
        forall|i: int|
            0 <= i < files.len() && "public/"@.is_prefix_of((#[trigger] files[i]).name@) ==> i
                == 6,
{
    lemma_spoiler_paths();
    let list = save::file_list(files);
    assert(list.len() == files.len());
    assert forall|i: int| 0 <= i < files.len() implies (#[trigger] files[i]).name@ == list[i].0
        && files[i].data@ == list[i].1 by {}
    assert forall|i: int| 0 <= i < visualizer.len() implies (#[trigger] files[11 + i]).name@
        == "locked/visualizer/"@ + visualizer[i].0@ && files[11 + i].data@
        == visualizer[i].1@ by {
        assert(files[11 + i].name@ == list[11 + i].0);
        assert(list[11 + i] == save::visualizer_copies(true, visualizer)[i]);
    }
    reveal_strlit("public/");
    reveal_strlit("seed_data.json");
    reveal_strlit("patch.ips");
    reveal_strlit("seed_header.html");
    reveal_strlit("seed_footer.html");
    reveal_strlit("spoiler_token.txt");
    reveal_strlit("map.json");
    reveal_strlit("locked/spoiler.json");
    reveal_strlit("locked/map-assigned.png");
    reveal_strlit("locked/map-vanilla.png");
    reveal_strlit("locked/map-grid.png");
    reveal_strlit("locked/visualizer/");
    assert("public/"@.len() == 7 && "public/"@[0] == 'p' && "public/"@[1] == 'u');
    assert("seed_data.json"@[0] == 's' && "patch.ips"@[1] == 'a');
    assert("seed_header.html"@[0] == 's' && "seed_footer.html"@[0] == 's');
    assert("spoiler_token.txt"@[0] == 's' && "map.json"@[0] == 'm');
    assert("locked/spoiler.json"@[0] == 'l' && "locked/map-assigned.png"@[0] == 'l');
    assert("locked/map-vanilla.png"@[0] == 'l' && "locked/map-grid.png"@[0] == 'l');
    assert("locked/visualizer/"@.len() == 18 && "locked/visualizer/"@[0] == 'l');
    assert forall|i: int|
        0 <= i < files.len() && "public/"@.is_prefix_of((#[trigger] files[i]).name@) implies i
        == 6 by {
        let path = files[i].name@;
        assert(path.subrange(0, 7)[0] == path[0] && path.subrange(0, 7)[1] == path[1]);
        if i >= 11 {
            assert(files[11 + (i - 11)].name@[0] == 'l');
        }
    }
}

/// Before anything else, the data file of a seed of that name is looked up.
pub proof fn saving_begins_with_a_lookup<E>(
    seed_name: &str,
    seed_data: SeedData,
    spoiler_token: &str,
    app_data: AppData,
    action: SaveAction<E>,
)
    requires
        call_ensures(
            save_seed::<E>,
            (seed_name, &seed_data, spoiler_token, &app_data, SaveEvent::<E>::Requested),
            action,
        ),
    ensures
        action matches SaveAction::LookUp { seed_name: wanted, file } && wanted@ == seed_name@
            && file@ == "seed_data.json"@,
{
}

/// A name is refused just when a seed of that name exists, with a message that ends in the name;
/// otherwise the seed is made.
pub proof fn only_free_names_go_on<E>(
    seed_name: &str,
    seed_data: SeedData,
    spoiler_token: &str,
    app_data: AppData,
    lookup: Result<Vec<u8>, E>,
    is_taken: bool,
    action: SaveAction<E>,
)
    requires
        call_ensures(check_seed_exists::<Vec<u8>, E>, (&lookup,), is_taken),
        call_ensures(
            save_seed::<E>,
            (seed_name, &seed_data, spoiler_token, &app_data, SaveEvent::LookedUp(lookup)),
            action,
        ),
    ensures
        is_taken <==> lookup is Ok,
        lookup is Ok ==> (action matches SaveAction::Finish(
            Err(SaveError::SeedNameExists { message }),
        ) && message@ == "Seed name already exists: "@ + seed_name@),
        lookup is Err ==> action is Make,
{
}

/// A seed that is made is stored under its name. If it is no race, all its spoilers (the log, the
/// three maps and the visualizer) are public and it has no token; if it is a race, they are locked
/// and the token is there.
pub proof fn made_seeds_are_stored<E>(
    seed_name: &str,
    seed_data: SeedData,
    spoiler_token: &str,
    app_data: AppData,
    artifacts: SeedArtifacts,
    action: SaveAction<E>,
)
    requires
        call_ensures(
            save_seed::<E>,
            (
                seed_name,
                &seed_data,
                spoiler_token,
                &app_data,
                SaveEvent::<E>::Made(Ok(artifacts)),
            ),
            action,
        ),
    ensures
        action is Store,
        action->Store_0.name@ == seed_name@,
        ({
            let files = action->Store_0.files@;
            let visualizer = app_data.visualizer_files@;
            &&& files[0].name@ == "seed_data.json"@ && files[0].data@ == artifacts.seed_data_json@
            &&& files[1].name@ == "patch.ips"@ && files[1].data@ == artifacts.patch_ips@
            &&& files[2].name@ == "seed_header.html"@ && files[2].data@ == encode_utf8(
                artifacts.seed_header_html@,
            )
            &&& files[3].name@ == "seed_footer.html"@ && files[3].data@ == encode_utf8(
                artifacts.seed_footer_html@,
            )
            &&& !seed_data.race_mode ==> {
                &&& files.len() == 10 + visualizer.len()
                &&& files[4].name@ == "map.json"@ && files[4].data@ == artifacts.map_json@
                &&& files[5].name@ == "public/settings.json"@ && files[5].data@
                    == artifacts.settings_json@
                &&& files[6].name@ == "public/spoiler.json"@ && files[6].data@
                    == artifacts.spoiler_json@
                &&& files[7].name@ == "public/map-assigned.png"@ && files[7].data@
                    == artifacts.map_assigned_png@
                &&& files[8].name@ == "public/map-vanilla.png"@ && files[8].data@
                    == artifacts.map_vanilla_png@
                &&& files[9].name@ == "public/map-grid.png"@ && files[9].data@
                    == artifacts.map_grid_png@
                &&& forall|i: int|
                    0 <= i < visualizer.len() ==> (#[trigger] files[10 + i]).name@
                        == "public/visualizer/"@ + visualizer[i].0@ && files[10 + i].data@
                        == visualizer[i].1@
                &&& forall|i: int|
                    0 <= i < files.len() ==> (#[trigger] files[i]).name@ != "spoiler_token.txt"@
            }
            &&& seed_data.race_mode ==> {
                &&& files.len() == 11 + visualizer.len()
                &&& files[4].name@ == "spoiler_token.txt"@ && files[4].data@ == encode_utf8(
                    spoiler_token@,
                )
                &&& files[5].name@ == "map.json"@ && files[5].data@ == artifacts.map_json@
                &&& files[6].name@ == "public/settings.json"@ && files[6].data@
                    == artifacts.settings_json@
                &&& files[7].name@ == "locked/spoiler.json"@ && files[7].data@
                    == artifacts.spoiler_json@
                &&& files[8].name@ == "locked/map-assigned.png"@ && files[8].data@
                    == artifacts.map_assigned_png@
                &&& files[9].name@ == "locked/map-vanilla.png"@ && files[9].data@
                    == artifacts.map_vanilla_png@
                &&& files[10].name@ == "locked/map-grid.png"@ && files[10].data@
                    == artifacts.map_grid_png@
                &&& forall|i: int|
                    0 <= i < visualizer.len() ==> (#[trigger] files[11 + i]).name@
                        == "locked/visualizer/"@ + visualizer[i].0@ && files[11 + i].data@
                        == visualizer[i].1@
                &&& forall|i: int|
                    0 <= i < files.len() && "public/"@.is_prefix_of((#[trigger] files[i]).name@)
                        ==> i == 6
            }
        }),
{
    let files = action->Store_0.files@;
    let visualizer = app_data.visualizer_files@;
    if seed_data.race_mode {
        lemma_locked_files(spoiler_token@, artifacts, visualizer, files);
    } else {
        lemma_public_files(spoiler_token@, artifacts, visualizer, files);
    }
}

/// The files that are stored are the ones that are put together for the seed, in the same order.
pub proof fn stored_files_are_those_put_together<E>(
    seed_name: &str,
    seed_data: SeedData,
    spoiler_token: &str,
    app_data: AppData,
    artifacts: SeedArtifacts,
    files: Vec<SeedFile>,
    action: SaveAction<E>,
)
    requires
        call_ensures(
            seed_files,
            (seed_data.race_mode, spoiler_token, artifacts, &app_data.visualizer_files),
            files,
        ),
        call_ensures(
            save_seed::<E>,
            (
                seed_name,
                &seed_data,
                spoiler_token,
                &app_data,
                SaveEvent::<E>::Made(Ok(artifacts)),
            ),
            action,
        ),
    ensures
        action is Store,
        action->Store_0.files@.len() == files@.len(),
        forall|i: int|
            0 <= i < files@.len() ==> (#[trigger] files@[i]).name@
                == action->Store_0.files@[i].name@ && files@[i].data@
                == action->Store_0.files@[i].data@,
{
    let stored = action->Store_0.files@;
    assert(save::file_list(files@).len() == save::file_list(stored).len());
    assert forall|i: int| 0 <= i < files@.len() implies (#[trigger] files@[i]).name@
        == stored[i].name@ && files@[i].data@ == stored[i].data@ by {
        assert(save::file_list(files@)[i] == save::file_list(stored)[i]);
    }
}

/// An error in making or in storing a seed ends the saving and is passed on as it is, and storing
/// it ends the saving well.
pub proof fn outcomes_are_passed_on<E>(
    seed_name: &str,
    seed_data: SeedData,
    spoiler_token: &str,
    app_data: AppData,
    event: SaveEvent<E>,
    error: E,
    action: SaveAction<E>,
)
    requires
        call_ensures(
            save_seed::<E>,
            (seed_name, &seed_data, spoiler_token, &app_data, event),
            action,
        ),
    ensures
        event == SaveEvent::<E>::Made(Err(error)) ==> action == SaveAction::<E>::Finish(
            Err(SaveError::Failed(error)),
        ),
        event == SaveEvent::<E>::Stored(Err(error)) ==> action == SaveAction::<E>::Finish(
            Err(SaveError::Failed(error)),
        ),
        event == SaveEvent::<E>::Stored(Ok(())) ==> action == SaveAction::<E>::Finish(Ok(())),
{
}

/// What is made for a seed: each page by its renderer, the header from a header that shows the seed
/// and the footer from the values of the seed, and everything else as it was made. The first of the
/// three that fails gives the error.
pub proof fn seeds_are_made_of_their_pages_and_contents<E, G, H, F, C>(
    seed_name: &str,
    seed_data: SeedData,
    app_data: AppData,
    group_items: G,
    render_header: H,
    render_footer: F,
    make_contents: C,
    made: Result<SeedArtifacts, E>,
) where
    G: Fn(&Vec<KeyItemPriority>) -> Vec<ItemPriorityGroup>,
    H: Fn(&SeedHeaderTemplate) -> Result<String, E>,
    F: Fn(&SeedFooterTemplate) -> Result<String, E>,
    C: FnOnce() -> Result<SeedContents, E>,

    requires
        call_ensures(
            make_artifacts::<E, G, H, F, C>,
            (
                seed_name,
                &seed_data,
                &app_data,
                group_items,
                render_header,
                render_footer,
                make_contents,
            ),
            made,
        ),
    ensures
        exists|groups: Vec<ItemPriorityGroup>, header: SeedHeaderTemplate| #[trigger]
            header.shows(seed_name@, seed_data, app_data, groups) && call_ensures(
                group_items,
                (&seed_data.settings.item_progression_settings.key_item_priority,),
                groups,
            ) && ({
                let footer = SeedFooterTemplate {
                    race_mode: seed_data.race_mode,
                    all_items_spawn: seed_data.all_items_spawn,
                    supers_double: seed_data.supers_double,
                    ultra_low_qol: seed_data.ultra_low_qol,
                };
                match made {
                    Ok(artifacts) => {
                        &&& call_ensures(
                            render_header,
                            (&header,),
                            Ok::<String, E>(artifacts.seed_header_html),
                        )
                        &&& call_ensures(
                            render_footer,
                            (&footer,),
                            Ok::<String, E>(artifacts.seed_footer_html),
                        )
                        &&& exists|contents: SeedContents| #[trigger]
                            call_ensures(make_contents, (), Ok::<SeedContents, E>(contents))
                                && artifacts.seed_data_json == contents.seed_data_json
                                && artifacts.patch_ips == contents.patch_ips && artifacts.map_json
                                == contents.map_json && artifacts.settings_json
                                == contents.settings_json && artifacts.spoiler_json
                                == contents.spoiler_json && artifacts.map_assigned_png
                                == contents.map_assigned_png && artifacts.map_vanilla_png
                                == contents.map_vanilla_png && artifacts.map_grid_png
                                == contents.map_grid_png
                    },
                    Err(error) => {
                        ||| call_ensures(render_header, (&header,), Err::<String, E>(error))
                        ||| (exists|html: String| #[trigger]
                            call_ensures(render_header, (&header,), Ok::<String, E>(html)))
                            && call_ensures(render_footer, (&footer,), Err::<String, E>(error))
                        ||| (exists|html: String| #[trigger]
                            call_ensures(render_header, (&header,), Ok::<String, E>(html))) && (
                        exists|html: String| #[trigger]
                            call_ensures(render_footer, (&footer,), Ok::<String, E>(html)))
                            && call_ensures(make_contents, (), Err::<SeedContents, E>(error))
                    },
                }
            }),
{
    let (groups, header, pages) = choose|
        groups: Vec<ItemPriorityGroup>,
        header: SeedHeaderTemplate,
        pages: Result<(String, String), E>,
    |
        #[trigger]
        header.shows(seed_name@, seed_data, app_data, groups) && call_ensures(
            group_items,
            (&seed_data.settings.item_progression_settings.key_item_priority,),
            groups,
        ) && seed_page::rendered(
            header,
            seed_page::footer_of(seed_data),
            render_header,
            render_footer,
            pages,
        ) && #[trigger] save::is_made_of(pages, make_contents, made);
    assert(header.shows(seed_name@, seed_data, app_data, groups));
}

} // verus!
