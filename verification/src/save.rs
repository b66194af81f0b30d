//! Saving a seed: which files make it up, and in what order the repository is asked.
//!
//! The seed repository and whatever produces the contents of the files are reached by the caller.
//! `save_seed` decides: handed what has just happened, it says what to do next.

use crate::app_data::AppData;
use crate::seed_page;
use crate::seed_page::{
    render_seed, ItemPriorityGroup, SeedData, SeedFooterTemplate, SeedHeaderTemplate,
};
use crate::settings::KeyItemPriority;
use vstd::prelude::*;
use vstd::utf8::*;

verus! {

/// A file of a seed, with its path within the seed.
pub struct SeedFile {
    pub name: String,
    pub data: Vec<u8>,
}

/// A seed as the repository keeps it.
pub struct Seed {
    pub name: String,
    pub files: Vec<SeedFile>,
}

impl SeedFile {
    pub fn new(name: &str, data: Vec<u8>) -> (file: SeedFile)
        ensures
            file.name@ == name@,
            file.data == data,
    {
        SeedFile { name: name.to_owned(), data }
    }
}

/// The contents of a seed's files, as far as they are made for this seed.
pub struct SeedArtifacts {
    /// Details about the seed and about who requested it.
    pub seed_data_json: Vec<u8>,
    pub patch_ips: Vec<u8>,
    pub seed_header_html: String,
    pub seed_footer_html: String,
    pub map_json: Vec<u8>,
    pub settings_json: Vec<u8>,
    pub spoiler_json: Vec<u8>,
    pub map_assigned_png: Vec<u8>,
    pub map_vanilla_png: Vec<u8>,
    pub map_grid_png: Vec<u8>,
}

/// The contents of a seed's files apart from its pages.
pub struct SeedContents {
    /// Details about the seed and about who requested it.
    pub seed_data_json: Vec<u8>,
    pub patch_ips: Vec<u8>,
    pub map_json: Vec<u8>,
    pub settings_json: Vec<u8>,
    pub spoiler_json: Vec<u8>,
    pub map_assigned_png: Vec<u8>,
    pub map_vanilla_png: Vec<u8>,
    pub map_grid_png: Vec<u8>,
}

/// The file by which a saved seed is recognised.
pub const SEED_DATA_FILE: &'static str = "seed_data.json";

/// What files say: path and contents of each.
pub open spec fn file_list(files: Seq<SeedFile>) -> Seq<(Seq<char>, Seq<u8>)> {
    Seq::new(files.len(), |i: int| (files[i].name@, files[i].data@))
}

/// The directory of what spoils a seed. That of a race is locked until the race is over.
pub open spec fn spoiler_prefix(race_mode: bool) -> Seq<char> {
    if race_mode {
        "locked"@
    } else {
        "public"@
    }
}

/// The files that open every seed. None of them is public: they tell who requested the seed, and
/// the patch contains the whole of it.
pub open spec fn private_files(artifacts: SeedArtifacts) -> Seq<(Seq<char>, Seq<u8>)> {
    seq![
        (SEED_DATA_FILE@, artifacts.seed_data_json@),
        ("patch.ips"@, artifacts.patch_ips@),
        ("seed_header.html"@, encode_utf8(artifacts.seed_header_html@)),
        ("seed_footer.html"@, encode_utf8(artifacts.seed_footer_html@)),
    ]
}

/// The token that unlocks the spoilers of a race.
pub open spec fn token_files(race_mode: bool, spoiler_token: Seq<char>) -> Seq<
    (Seq<char>, Seq<u8>),
> {
    if race_mode {
        seq![("spoiler_token.txt"@, encode_utf8(spoiler_token))]
    } else {
        Seq::empty()
    }
}

/// The map and the settings of a seed.
pub open spec fn settings_files(artifacts: SeedArtifacts) -> Seq<(Seq<char>, Seq<u8>)> {
    seq![
        ("map.json"@, artifacts.map_json@),
        ("public/settings.json"@, artifacts.settings_json@),
    ]
}

/// The spoiler log and the spoiler maps.
pub open spec fn spoiler_files(race_mode: bool, artifacts: SeedArtifacts) -> Seq<
    (Seq<char>, Seq<u8>),
> {
    let prefix = spoiler_prefix(race_mode);
    seq![
        (prefix + "/spoiler.json"@, artifacts.spoiler_json@),
        (prefix + "/map-assigned.png"@, artifacts.map_assigned_png@),
        (prefix + "/map-vanilla.png"@, artifacts.map_vanilla_png@),
        (prefix + "/map-grid.png"@, artifacts.map_grid_png@),
    ]
}

/// The spoiler visualizer: a copy of its files.
pub open spec fn visualizer_copies(race_mode: bool, visualizer: Seq<(String, Vec<u8>)>) -> Seq<
    (Seq<char>, Seq<u8>),
> {
    Seq::new(
        visualizer.len(),
        |i: int|
            (spoiler_prefix(race_mode) + "/visualizer/"@ + visualizer[i].0@, visualizer[i].1@),
    )
}

/// All files of a seed, in the order in which they are written.
pub open spec fn seed_file_list(
    race_mode: bool,
    spoiler_token: Seq<char>,
    artifacts: SeedArtifacts,
    visualizer: Seq<(String, Vec<u8>)>,
) -> Seq<(Seq<char>, Seq<u8>)> {
    private_files(artifacts) + token_files(race_mode, spoiler_token) + settings_files(artifacts)
        + spoiler_files(race_mode, artifacts) + visualizer_copies(race_mode, visualizer)
}

fn push_file(files: &mut Vec<SeedFile>, name: &str, data: Vec<u8>)
    ensures
        file_list(final(files)@) == file_list(old(files)@).push((name@, data@)),
{
    files.push(SeedFile::new(name, data));
}

fn under(prefix: &str, path: &str) -> (s: String)
    ensures
        s@ == prefix@ + path@,
{
    prefix.to_owned().concat(path)
}

/// Puts the files of a seed together.
pub fn seed_files(
    race_mode: bool,
    spoiler_token: &str,
    artifacts: SeedArtifacts,
    visualizer: &Vec<(String, Vec<u8>)>,
) -> (files: Vec<SeedFile>)
    ensures
        file_list(files@) == seed_file_list(race_mode, spoiler_token@, artifacts, visualizer@),
{
    let mut files: Vec<SeedFile> = Vec::new();
    push_file(&mut files, SEED_DATA_FILE, artifacts.seed_data_json);
    push_file(&mut files, "patch.ips", artifacts.patch_ips);
    push_file(&mut files, "seed_header.html", artifacts.seed_header_html.as_str().as_bytes_vec());
    push_file(&mut files, "seed_footer.html", artifacts.seed_footer_html.as_str().as_bytes_vec());
    assert(file_list(files@) =~= private_files(artifacts));
    let prefix: &str = if race_mode {
        "locked"
    } else {
        "public"
    };
    if race_mode {
        push_file(&mut files, "spoiler_token.txt", spoiler_token.as_bytes_vec());
    }
    assert(file_list(files@) =~= private_files(artifacts) + token_files(race_mode, spoiler_token@));
    push_file(&mut files, "map.json", artifacts.map_json);
    push_file(&mut files, "public/settings.json", artifacts.settings_json);
    let ghost settled = private_files(artifacts) + token_files(race_mode, spoiler_token@)
        + settings_files(artifacts);
    assert(file_list(files@) =~= settled);
    push_file(&mut files, under(prefix, "/spoiler.json").as_str(), artifacts.spoiler_json);
    push_file(&mut files, under(prefix, "/map-assigned.png").as_str(), artifacts.map_assigned_png);
    push_file(&mut files, under(prefix, "/map-vanilla.png").as_str(), artifacts.map_vanilla_png);
    push_file(&mut files, under(prefix, "/map-grid.png").as_str(), artifacts.map_grid_png);
    let ghost spoiled = settled + spoiler_files(race_mode, artifacts);
    assert(file_list(files@) =~= spoiled);
    let mut i: usize = 0;
    assert(file_list(files@) =~= spoiled + visualizer_copies(race_mode, visualizer@).take(0));
    while i < visualizer.len()
        invariant
            i <= visualizer.len(),
            prefix@ == spoiler_prefix(race_mode),
            file_list(files@) == spoiled + visualizer_copies(race_mode, visualizer@).take(
                i as int,
            ),
        decreases visualizer.len() - i,
    {
        let ghost before = file_list(files@);
        let path: String = under(prefix, "/visualizer/").concat(visualizer[i].0.as_str());
        let data: Vec<u8> = visualizer[i].1.clone();
        assert(data@ =~= visualizer@[i as int].1@);
        push_file(&mut files, path.as_str(), data);
        assert(file_list(files@) =~= spoiled + visualizer_copies(race_mode, visualizer@).take(
            i + 1,
        ));
        i = i + 1;
    }
    assert(visualizer_copies(race_mode, visualizer@).take(i as int) =~= visualizer_copies(
        race_mode,
        visualizer@,
    ));
    files
}

/// The contents of a seed with its two pages filled in.
pub open spec fn with_pages(
    contents: SeedContents,
    seed_header_html: String,
    seed_footer_html: String,
) -> SeedArtifacts {
    SeedArtifacts {
        seed_data_json: contents.seed_data_json,
        patch_ips: contents.patch_ips,
        seed_header_html,
        seed_footer_html,
        map_json: contents.map_json,
        settings_json: contents.settings_json,
        spoiler_json: contents.spoiler_json,
        map_assigned_png: contents.map_assigned_png,
        map_vanilla_png: contents.map_vanilla_png,
        map_grid_png: contents.map_grid_png,
    }
}

/// What is made of the pages of a seed and of the rest of its contents: both together, or the
/// error of the pages, or else that of the rest.
pub open spec fn is_made_of<E, C>(
    pages: Result<(String, String), E>,
    make_contents: C,
    made: Result<SeedArtifacts, E>,
) -> bool where C: FnOnce() -> Result<SeedContents, E> {
    match pages {
        Ok((header_html, footer_html)) => exists|rest: Result<SeedContents, E>| #[trigger]
            call_ensures(make_contents, (), rest) && match rest {
                Ok(contents) => made == Ok::<SeedArtifacts, E>(
                    with_pages(contents, header_html, footer_html),
                ),
                Err(error) => made == Err::<SeedArtifacts, E>(error),
            },
        Err(error) => made == Err::<SeedArtifacts, E>(error),
    }
}

/// Makes the contents of a seed's files: renders its pages, then has the rest made by
/// `make_contents`. The first failure gives the error.
pub fn make_artifacts<E, G, H, F, C>(
    seed_name: &str,
    seed_data: &SeedData,
    app_data: &AppData,
    group_items: G,
    render_header: H,
    render_footer: F,
    make_contents: C,
) -> (made: Result<SeedArtifacts, E>) where
    G: Fn(&Vec<KeyItemPriority>) -> Vec<ItemPriorityGroup>,
    H: Fn(&SeedHeaderTemplate) -> Result<String, E>,
    F: Fn(&SeedFooterTemplate) -> Result<String, E>,
    C: FnOnce() -> Result<SeedContents, E>,

    requires
        seed_data.covers(app_data.game_data),
        call_requires(
            group_items,
            (&seed_data.settings.item_progression_settings.key_item_priority,),
        ),
        forall|groups: Vec<ItemPriorityGroup>, header: SeedHeaderTemplate| #[trigger]
            header.shows(seed_name@, *seed_data, *app_data, groups) && call_ensures(
                group_items,
                (&seed_data.settings.item_progression_settings.key_item_priority,),
                groups,
            ) ==> call_requires(render_header, (&header,)),
        call_requires(render_footer, (&seed_page::footer_of(*seed_data),)),
        call_requires(make_contents, ()),
    ensures
        exists|
            groups: Vec<ItemPriorityGroup>,
            header: SeedHeaderTemplate,
            pages: Result<(String, String), E>,
        |
            #[trigger]
            header.shows(seed_name@, *seed_data, *app_data, groups) && call_ensures(
                group_items,
                (&seed_data.settings.item_progression_settings.key_item_priority,),
                groups,
            ) && seed_page::rendered(
                header,
                seed_page::footer_of(*seed_data),
                render_header,
                render_footer,
                pages,
            ) && #[trigger] is_made_of(pages, make_contents, made),
{
    let pages: Result<(String, String), E> = render_seed(
        seed_name,
        seed_data,
        app_data,
        group_items,
        render_header,
        render_footer,
    );
    let ghost rendered_pages = pages;
    let made: Result<SeedArtifacts, E> = match pages {
        Ok((seed_header_html, seed_footer_html)) => match make_contents() {
            Ok(contents) => Ok(
                SeedArtifacts {
                    seed_data_json: contents.seed_data_json,
                    patch_ips: contents.patch_ips,
                    seed_header_html,
                    seed_footer_html,
                    map_json: contents.map_json,
                    settings_json: contents.settings_json,
                    spoiler_json: contents.spoiler_json,
                    map_assigned_png: contents.map_assigned_png,
                    map_vanilla_png: contents.map_vanilla_png,
                    map_grid_png: contents.map_grid_png,
                },
            ),
            Err(error) => Err(error),
        },
        Err(error) => Err(error),
    };
    assert(is_made_of(rendered_pages, make_contents, made));
    made
}

/// The pages among the files of a seed are the ones that its contents were completed with, and no
/// other file depends on them.
pub proof fn saved_pages_are_those_filled_in(
    race_mode: bool,
    spoiler_token: Seq<char>,
    contents: SeedContents,
    header_html: String,
    footer_html: String,
    other_header: String,
    other_footer: String,
    visualizer: Seq<(String, Vec<u8>)>,
)
    ensures
        ({
            let list = seed_file_list(
                race_mode,
                spoiler_token,
                with_pages(contents, header_html, footer_html),
                visualizer,
            );
            let other = seed_file_list(
                race_mode,
                spoiler_token,
                with_pages(contents, other_header, other_footer),
                visualizer,
            );
            &&& list[2] == ("seed_header.html"@, encode_utf8(header_html@))
            &&& list[3] == ("seed_footer.html"@, encode_utf8(footer_html@))
            &&& list.len() == other.len()
            &&& forall|i: int|
                0 <= i < list.len() && i != 2 && i != 3 ==> #[trigger] list[i] == other[i]
        }),
{
    let a = with_pages(contents, header_html, footer_html);
    let b = with_pages(contents, other_header, other_footer);
    assert(settings_files(a) == settings_files(b));
    assert(spoiler_files(race_mode, a) == spoiler_files(race_mode, b));
}

/// Whether a seed exists, given what came of reading its data file.
pub fn check_seed_exists<T, E>(lookup: &Result<T, E>) -> (exists_already: bool)
    ensures
        exists_already == (lookup is Ok),
{
    lookup.is_ok()
}

/// Why a seed was not saved.
pub enum SaveError<E> {
    /// There is a seed of that name; it is left as it is.
    SeedNameExists { message: String },
    /// What the repository or the production of the files reported.
    Failed(E),
}

/// What has just happened in the course of saving a seed.
pub enum SaveEvent<E> {
    /// The seed is to be saved.
    Requested,
    /// The data file of a seed of that name was looked up.
    LookedUp(Result<Vec<u8>, E>),
    /// The contents of the files were made.
    Made(Result<SeedArtifacts, E>),
    /// The seed was put into the repository.
    Stored(Result<(), E>),
}

/// What to do next in the course of saving a seed.
pub enum SaveAction<E> {
    /// Look up a file of a seed in the repository.
    LookUp { seed_name: String, file: String },
    /// Make the contents of the files.
    Make,
    /// Put the seed into the repository.
    Store(Seed),
    /// Report the outcome.
    Finish(Result<(), SaveError<E>>),
}

/// The message for a seed name that is taken.
pub open spec fn seed_exists_message(seed_name: Seq<char>) -> Seq<char> {
    "Seed name already exists: "@ + seed_name
}

/// What to do after an event: a seed is looked up first, made only if there is none of its name,
/// and stored once it is made. Every failure ends the saving, unchanged.
pub open spec fn is_next<E>(
    seed_name: Seq<char>,
    race_mode: bool,
    spoiler_token: Seq<char>,
    visualizer: Seq<(String, Vec<u8>)>,
    event: SaveEvent<E>,
    action: SaveAction<E>,
) -> bool {
    match event {
        SaveEvent::Requested => {
            &&& action is LookUp
            &&& action->LookUp_seed_name@ == seed_name
            &&& action->LookUp_file@ == SEED_DATA_FILE@
        },
        SaveEvent::LookedUp(lookup) => if lookup is Ok {
            action matches SaveAction::Finish(Err(SaveError::SeedNameExists { message }))
                && message@ == seed_exists_message(seed_name)
        } else {
            action is Make
        },
        SaveEvent::Made(Ok(artifacts)) => {
            &&& action matches SaveAction::Store(seed)
            &&& seed.name@ == seed_name
            &&& file_list(seed.files@) == seed_file_list(
                race_mode,
                spoiler_token,
                artifacts,
                visualizer,
            )
        },
        SaveEvent::Made(Err(error)) => action == SaveAction::Finish(Err(SaveError::Failed(error))),
        SaveEvent::Stored(Ok(())) => action == SaveAction::<E>::Finish(Ok(())),
        SaveEvent::Stored(Err(error)) => action == SaveAction::Finish(
            Err(SaveError::Failed(error)),
        ),
    }
}

/// Saves a seed, one decision at a time: says what to do after an event.
pub fn save_seed<E>(
    seed_name: &str,
    seed_data: &SeedData,
    spoiler_token: &str,
    app_data: &AppData,
    event: SaveEvent<E>,
) -> (action: SaveAction<E>)
    ensures
        is_next(
            seed_name@,
            seed_data.race_mode,
            spoiler_token@,
            app_data.visualizer_files@,
            event,
            action,
        ),
{
    match event {
        SaveEvent::Requested => SaveAction::LookUp {
            seed_name: seed_name.to_owned(),
            file: SEED_DATA_FILE.to_owned(),
        },
        SaveEvent::LookedUp(lookup) => {
            if check_seed_exists(&lookup) {
                let message: String = "Seed name already exists: ".to_owned().concat(seed_name);
                SaveAction::Finish(Err(SaveError::SeedNameExists { message }))
            } else {
                SaveAction::Make
            }
        },
        SaveEvent::Made(Ok(artifacts)) => {
            let files: Vec<SeedFile> = seed_files(
                seed_data.race_mode,
                spoiler_token,
                artifacts,
                &app_data.visualizer_files,
            );
            SaveAction::Store(Seed { name: seed_name.to_owned(), files })
        },
        SaveEvent::Made(Err(error)) => SaveAction::Finish(Err(SaveError::Failed(error))),
        SaveEvent::Stored(Ok(())) => SaveAction::Finish(Ok(())),
        SaveEvent::Stored(Err(error)) => SaveAction::Finish(Err(SaveError::Failed(error))),
    }
}

/// The event that doing an action leads to.
pub open spec fn answers<E>(action: SaveAction<E>, event: SaveEvent<E>) -> bool {
    match action {
        SaveAction::LookUp { .. } => event is LookedUp,
        SaveAction::Make => event is Made,
        SaveAction::Store(_) => event is Stored,
        SaveAction::Finish(_) => false,
    }
}

/// A course of saving a seed, as far as it has gone: it starts with the request, each event is
/// followed by the action decided on, and each action by an event that answers it.
pub open spec fn is_course<E>(
    seed_name: Seq<char>,
    race_mode: bool,
    spoiler_token: Seq<char>,
    visualizer: Seq<(String, Vec<u8>)>,
    course: Seq<(SaveEvent<E>, SaveAction<E>)>,
) -> bool {
    &&& course.len() > 0 ==> course[0].0 is Requested
    &&& forall|i: int|
        0 <= i < course.len() ==> is_next(
            seed_name,
            race_mode,
            spoiler_token,
            visualizer,
            (#[trigger] course[i]).0,
            course[i].1,
        )
    &&& forall|i: int, j: int|
        0 <= i && j == i + 1 && j < course.len() ==> answers(
            (#[trigger] course[i]).1,
            (#[trigger] course[j]).0,
        )
}

/// Saving a seed takes at most four decisions. A seed is stored by the third one only, and only
/// after the lookup has failed to find a seed of its name: what is stored is never replaced.
pub proof fn existing_seeds_are_never_stored_over<E>(
    seed_name: Seq<char>,
    race_mode: bool,
    spoiler_token: Seq<char>,
    visualizer: Seq<(String, Vec<u8>)>,
    course: Seq<(SaveEvent<E>, SaveAction<E>)>,
    i: int,
)
    requires
        is_course(seed_name, race_mode, spoiler_token, visualizer, course),
        0 <= i < course.len(),
    ensures
        course.len() <= 4,
        course[i].1 is Store ==> i == 2 && course[1].0 is LookedUp && course[1].0->LookedUp_0
            is Err,
{
    assert(course[0].1 is LookUp);
    if course.len() > 1 {
        assert(answers(course[0].1, course[1].0));
        assert(course[1].1 is Make || course[1].1 is Finish);
    }
    if course.len() > 2 {
        assert(answers(course[1].1, course[2].0));
        assert(course[2].1 is Store || course[2].1 is Finish);
    }
    if course.len() > 3 {
        assert(answers(course[2].1, course[3].0));
        assert(course[3].1 is Finish);
    }
    if course.len() > 4 {
        assert(answers(course[3].1, course[4].0));
    }
}

/// A course that ends without an error has stored the seed.
pub proof fn success_means_stored<E>(
    seed_name: Seq<char>,
    race_mode: bool,
    spoiler_token: Seq<char>,
    visualizer: Seq<(String, Vec<u8>)>,
    course: Seq<(SaveEvent<E>, SaveAction<E>)>,
)
    requires
        is_course(seed_name, race_mode, spoiler_token, visualizer, course),
        course.len() > 0,
        course.last().1 == SaveAction::<E>::Finish(Ok(())),
    ensures
        course.len() == 4,
        course[2].1 is Store,
        course[3].0 is Stored && course[3].0->Stored_0 is Ok,
{
    existing_seeds_are_never_stored_over(
        seed_name,
        race_mode,
        spoiler_token,
        visualizer,
        course,
        course.len() - 1,
    );
    assert(course[0].1 is LookUp);
    if course.len() > 1 {
        assert(answers(course[0].1, course[1].0));
    }
    if course.len() > 2 {
        assert(answers(course[1].1, course[2].0));
    }
    if course.len() > 3 {
        assert(answers(course[2].1, course[3].0));
    }
}

/// A path is served to everyone.
pub open spec fn is_public(path: Seq<char>) -> bool {
    "public/"@.is_prefix_of(path)
}

/// The files of a seed that do not come from the visualizer.
pub open spec fn own_files(
    race_mode: bool,
    spoiler_token: Seq<char>,
    artifacts: SeedArtifacts,
) -> Seq<(Seq<char>, Seq<u8>)> {
    private_files(artifacts) + token_files(race_mode, spoiler_token) + settings_files(artifacts)
        + spoiler_files(race_mode, artifacts)
}

/// What the literals in the paths say, as far as the paths are told apart by it.
proof fn lemma_literals()
    ensures
        SEED_DATA_FILE@.len() == 14 && SEED_DATA_FILE@[0] == 's',
        "patch.ips"@.len() == 9 && "patch.ips"@[1] == 'a',
        "seed_header.html"@.len() == 16 && "seed_header.html"@[0] == 's'
            && "seed_header.html"@[5] == 'h',
        "seed_footer.html"@.len() == 16 && "seed_footer.html"@[0] == 's'
            && "seed_footer.html"@[5] == 'f',
        "spoiler_token.txt"@.len() == 17 && "spoiler_token.txt"@[0] == 's',
        "map.json"@.len() == 8 && "map.json"@[0] == 'm',
        "public/settings.json"@.len() == 20 && "public/settings.json"@[7] == 's',
        "locked"@.len() == 6 && "locked"@[0] == 'l',
        "public"@.len() == 6,
        "/spoiler.json"@.len() == 13 && "/spoiler.json"@[1] == 's',
        "/map-assigned.png"@.len() == 17 && "/map-assigned.png"@[1] == 'm',
        "/map-vanilla.png"@.len() == 16 && "/map-vanilla.png"@[1] == 'm',
        "/map-grid.png"@.len() == 13 && "/map-grid.png"@[1] == 'm',
        "/visualizer/"@.len() == 12 && "/visualizer/"@[1] == 'v',
        "public/"@.len() == 7 && "public/"@[0] == 'p' && "public/"@[1] == 'u',
        is_public("public/settings.json"@),
{
    reveal_strlit("seed_data.json");
    reveal_strlit("patch.ips");
    reveal_strlit("seed_header.html");
    reveal_strlit("seed_footer.html");
    reveal_strlit("spoiler_token.txt");
    reveal_strlit("map.json");
    reveal_strlit("public/settings.json");
    reveal_strlit("locked");
    reveal_strlit("public");
    reveal_strlit("/spoiler.json");
    reveal_strlit("/map-assigned.png");
    reveal_strlit("/map-vanilla.png");
    reveal_strlit("/map-grid.png");
    reveal_strlit("/visualizer/");
    reveal_strlit("public/");
    assert("public/settings.json"@.subrange(0, 7) =~= "public/"@);
}

/// A file whose path begins otherwise is not public.
proof fn lemma_not_public(path: Seq<char>, i: int)
    requires
        0 <= i < 2,
        i < path.len(),
        path[i] != "public/"@[i],
    ensures
        !is_public(path),
{
    lemma_literals();
    if is_public(path) {
        assert(path.subrange(0, 7)[i] == path[i]);
    }
}

/// The data of a seed, which tells who requested it, its patch, its pages, its map and the token
/// of a race are never public.
pub proof fn private_files_are_not_public(
    race_mode: bool,
    spoiler_token: Seq<char>,
    artifacts: SeedArtifacts,
    visualizer: Seq<(String, Vec<u8>)>,
    i: int,
)
    requires
        0 <= i <= private_files(artifacts).len() + token_files(race_mode, spoiler_token).len(),
    ensures
        !is_public(seed_file_list(race_mode, spoiler_token, artifacts, visualizer)[i].0),
{
    lemma_literals();
    let path = seed_file_list(race_mode, spoiler_token, artifacts, visualizer)[i].0;
    if i == 1 {
        assert(path == "patch.ips"@);
        lemma_not_public(path, 1);
    } else {
        lemma_not_public(path, 0);
    }
}

/// Of a race seed, only the settings are public.
pub proof fn races_publish_only_settings(
    spoiler_token: Seq<char>,
    artifacts: SeedArtifacts,
    visualizer: Seq<(String, Vec<u8>)>,
    i: int,
)
    requires
        0 <= i < seed_file_list(true, spoiler_token, artifacts, visualizer).len(),
        is_public(seed_file_list(true, spoiler_token, artifacts, visualizer)[i].0),
    ensures
        seed_file_list(true, spoiler_token, artifacts, visualizer)[i] == (
            "public/settings.json"@,
            artifacts.settings_json@,
        ),
{
    lemma_literals();
    let list = seed_file_list(true, spoiler_token, artifacts, visualizer);
    if i <= 5 {
        private_files_are_not_public(true, spoiler_token, artifacts, visualizer, i);
    } else if i > 6 {
        let path = list[i].0;
        assert(path[0] == 'l') by {
            if i < 11 {
                assert(list[i] == spoiler_files(true, artifacts)[i - 7]);
            } else {
                assert(list[i] == visualizer_copies(true, visualizer)[i - 11]);
            }
        }
        lemma_not_public(path, 0);
    }
}

/// The paths of the files that do not come from the visualizer are told apart by their lengths,
/// except for two pairs, and none of them is that of a visualizer file.
proof fn lemma_own_paths(race_mode: bool, spoiler_token: Seq<char>, artifacts: SeedArtifacts)
    ensures
        forall|i: int, j: int|
            0 <= i < j < own_files(race_mode, spoiler_token, artifacts).len() ==> (
            #[trigger] own_files(race_mode, spoiler_token, artifacts)[i]).0 != (
            #[trigger] own_files(race_mode, spoiler_token, artifacts)[j]).0,
        forall|i: int|
            0 <= i < own_files(race_mode, spoiler_token, artifacts).len() ==> (
            #[trigger] own_files(race_mode, spoiler_token, artifacts)[i]).0.len() < 18 || own_files(
                race_mode,
                spoiler_token,
                artifacts,
            )[i].0[7] != 'v',
{
    lemma_literals();
    let own = own_files(race_mode, spoiler_token, artifacts);
    let k: int = if race_mode {
        1
    } else {
        0
    };
    assert(own.len() == 10 + k);
    assert(own[0].0.len() == 14 && own[1].0.len() == 9);
    assert(own[2].0.len() == 16 && own[2].0[5] == 'h');
    assert(own[3].0.len() == 16 && own[3].0[5] == 'f');
    assert(race_mode ==> own[4].0.len() == 17);
    assert(own[4 + k].0.len() == 8);
    assert(own[5 + k].0.len() == 20 && own[5 + k].0[7] == 's');
    assert(own[6 + k].0.len() == 19 && own[6 + k].0[7] == 's');
    assert(own[7 + k].0.len() == 23 && own[7 + k].0[7] == 'm');
    assert(own[8 + k].0.len() == 22 && own[8 + k].0[7] == 'm');
    assert(own[9 + k].0.len() == 19 && own[9 + k].0[7] == 'm');
}

/// Where the visualizer has no two files of the same name, no two files of a seed have the same
/// path.
pub proof fn paths_are_distinct(
    race_mode: bool,
    spoiler_token: Seq<char>,
    artifacts: SeedArtifacts,
    visualizer: Seq<(String, Vec<u8>)>,
    i: int,
    j: int,
)
    requires
        forall|a: int, b: int|
            0 <= a < b < visualizer.len() ==> (#[trigger] visualizer[a]).0@ != (
            #[trigger] visualizer[b]).0@,
        0 <= i < j < seed_file_list(race_mode, spoiler_token, artifacts, visualizer).len(),
    ensures
        seed_file_list(race_mode, spoiler_token, artifacts, visualizer)[i].0 != seed_file_list(
            race_mode,
            spoiler_token,
            artifacts,
            visualizer,
        )[j].0,
{
    lemma_literals();
    lemma_own_paths(race_mode, spoiler_token, artifacts);
    let own = own_files(race_mode, spoiler_token, artifacts);
    let copies = visualizer_copies(race_mode, visualizer);
    let list = seed_file_list(race_mode, spoiler_token, artifacts, visualizer);
    assert(list =~= own + copies);
    let n = own.len() as int;
    if j >= n {
        let head = spoiler_prefix(race_mode) + "/visualizer/"@;
        let y = visualizer[j - n].0@;
        assert(list[j].0 == head + y);
        assert(list[j].0[7] == 'v');
        if i >= n {
            let x = visualizer[i - n].0@;
            assert(list[i].0 == head + x);
            if head + x == head + y {
                assert((head + x).skip(head.len() as int) =~= x);
                assert((head + y).skip(head.len() as int) =~= y);
            }
        } else {
            assert(list[i] == own[i]);
        }
    } else {
        assert(list[i] == own[i] && list[j] == own[j]);
    }
}

/// A stored seed is recognised: it has the file that is looked up to see whether a seed exists.
pub proof fn stored_seeds_are_recognised<E>(
    seed_name: Seq<char>,
    race_mode: bool,
    spoiler_token: Seq<char>,
    visualizer: Seq<(String, Vec<u8>)>,
    store: (SaveEvent<E>, SaveAction<E>),
    look_up: SaveAction<E>,
)
    requires
        is_next(seed_name, race_mode, spoiler_token, visualizer, store.0, store.1),
        store.1 is Store,
        is_next(seed_name, race_mode, spoiler_token, visualizer, SaveEvent::Requested, look_up),
    ensures
        store.1->Store_0.name@ == look_up->LookUp_seed_name@,
        exists|i: int|
            0 <= i < store.1->Store_0.files@.len() && (
            #[trigger] store.1->Store_0.files@[i]).name@ == look_up->LookUp_file@,
{
    let files = store.1->Store_0.files@;
    assert(store.0 is Made && store.0->Made_0 is Ok);
    let list = file_list(files);
    assert(list[0].0 == SEED_DATA_FILE@ && list.len() >= private_files(
        store.0->Made_0->Ok_0,
    ).len());
    assert(files.len() == list.len());
    assert(files[0].name@ == SEED_DATA_FILE@);
}

} // verus!
