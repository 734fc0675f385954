use std::collections::hash_map::DefaultHasher;
use std::hash::{Hash, Hasher};

use anime_bot::data::config::{self, download_file_name, load_step, png_name_for_hash, CatalogStep, LoadAction, LoadEvent};
use anime_bot::data::cpu::{all_links, character_names, show_names, Data, FileIndex};
use anime_bot::data::user;
use anime_bot::error::Error;

fn catalogue() -> user::Data {
    user::Data {
        shows: vec![
            user::Anime {
                name: "K-On".to_string(),
                characters: vec![
                    user::Character { name: "Yui".to_string(), links: vec!["a".to_string(), "b".to_string()] },
                    user::Character { name: "Mio".to_string(), links: vec![] },
                ],
            },
            user::Anime {
                name: "Haruhi".to_string(),
                characters: vec![user::Character { name: "Nagato".to_string(), links: vec!["c".to_string()] }],
            },
        ],
        save_location: "./downloaded_data".to_string(),
    }
}

#[test]
fn user_data_getters() {
    let data = catalogue();
    assert_eq!(data.path(), "./downloaded_data");
    assert_eq!(data.shows().len(), 2);
    assert_eq!(data.shows()[0].name(), "K-On");
    assert_eq!(data.shows()[0].characters().len(), 2);
    assert_eq!(data.shows()[0].characters()[0].name(), "Yui");
    assert_eq!(data.shows()[0].characters()[0].links(), &vec!["a".to_string(), "b".to_string()]);
}

#[test]
fn catalog_steps_follow_the_catalogue() {
    let data = config::Data {
        shows: vec![config::Anime {
            name: "K-On".to_string(),
            characters: vec![
                config::Character { name: "Yui".to_string(), links: vec!["a".to_string(), "b".to_string()] },
                config::Character { name: "Mio".to_string(), links: vec![] },
            ],
        }],
        save_location: "pics".to_string(),
    };
    assert_eq!(data.path(), "pics");
    let steps = data.catalog_steps();
    let rendered: Vec<String> = steps
        .iter()
        .map(|s| match s {
            CatalogStep::NewAnime { anime } => format!("anime {}", anime),
            CatalogStep::NewCharacter { anime, character } => format!("character {}/{}", anime, character),
            CatalogStep::Link { anime, character, link } => format!("link {}/{}/{}", anime, character, link),
        })
        .collect();
    assert_eq!(
        rendered,
        vec![
            "anime K-On",
            "character K-On/Yui",
            "link K-On/Yui/a",
            "link K-On/Yui/b",
            "character K-On/Mio",
        ]
    );
}

#[test]
fn empty_catalogue_has_no_steps() {
    let data = config::Data { shows: vec![], save_location: String::new() };
    assert!(data.catalog_steps().is_empty());
}

#[test]
fn png_names_are_the_decimal_hash() {
    assert_eq!(png_name_for_hash(0), "0.png");
    assert_eq!(png_name_for_hash(2163536056233450499), "2163536056233450499.png");
}

#[test]
fn download_file_name_hashes_the_link() {
    let link = "https://example.com/yui.png".to_string();
    let mut hasher = DefaultHasher::new();
    link.hash(&mut hasher);
    let expected = format!("{}.png", hasher.finish());
    assert_eq!(download_file_name(&link), expected);
    assert_ne!(download_file_name(&link), format!("{}.png", link));
    assert_eq!(download_file_name(&link), download_file_name(&link.clone()));
    assert_ne!(download_file_name(&link), download_file_name(&"https://example.com/mio.png".to_string()));
}

#[test]
fn names_and_links_are_flattened_in_order() {
    let data = catalogue();
    assert_eq!(show_names(&data), vec!["K-On", "Haruhi"]);
    assert_eq!(character_names(&data), vec!["Yui", "Mio", "Nagato"]);
    assert_eq!(all_links(&data), vec!["a", "b", "c"]);
}

#[test]
fn file_index_insert_and_lookup() {
    let mut index = FileIndex::new();
    assert!(!index.contains_key(&"a".to_string()));
    index.insert("a".to_string(), "1.png".to_string());
    index.insert("b".to_string(), "2.png".to_string());
    index.insert("a".to_string(), "3.png".to_string());
    assert!(index.contains_key(&"a".to_string()));
    assert!(index.contains_key(&"b".to_string()));
    let mut names = index.file_names();
    names.sort();
    assert_eq!(names, vec!["2.png", "3.png"]);
    let copy = index.clone();
    assert!(copy.contains_key(&"b".to_string()));
}

#[test]
fn only_unsaved_links_are_fetched() {
    let mut data = Data::default();
    data.record_downloads(vec![("a".to_string(), Ok("1.png".to_string()))]);
    let fresh = data.links_to_fetch(&all_links(&catalogue()));
    assert_eq!(fresh, vec!["b", "c"]);
}

#[test]
fn failed_downloads_are_not_recorded() {
    let mut data = Data::default();
    data.record_downloads(vec![
        ("b".to_string(), Ok("2.png".to_string())),
        ("c".to_string(), Err(Error::Reqwest("timed out".to_string()))),
    ]);
    assert!(data.contains_key(&"b".to_string()));
    assert!(!data.contains_key(&"c".to_string()));
    assert_eq!(data.file_names(), vec!["2.png"]);
}

#[test]
fn later_download_of_a_link_wins() {
    let mut data = Data::default();
    data.record_downloads(vec![
        ("a".to_string(), Ok("1.png".to_string())),
        ("a".to_string(), Ok("9.png".to_string())),
    ]);
    assert_eq!(data.file_names(), vec!["9.png"]);
}

#[test]
fn saved_files_survive_fetching_new_links() {
    let mut data = Data::default();
    data.record_downloads(vec![("a".to_string(), Ok("1.png".to_string()))]);
    let fresh = data.links_to_fetch(&all_links(&catalogue()));
    let fetched = fresh.into_iter().map(|l| { let f = format!("{}.png", l); (l, Ok(f)) }).collect();
    data.record_downloads(fetched);
    let mut names = data.file_names();
    names.sort();
    assert_eq!(names, vec!["1.png", "b.png", "c.png"]);
}

#[test]
fn to_ref_lists_the_saved_file_names() {
    let mut data = Data::default();
    data.record_downloads(vec![("a".to_string(), Ok("1.png".to_string()))]);
    let catalogue = user::Data {
        shows: vec![user::Anime {
            name: "S".to_string(),
            characters: vec![user::Character { name: "C".to_string(), links: vec!["a".to_string()] }],
        }],
        save_location: "dl".to_string(),
    };
    let fresh = data.links_to_fetch(&all_links(&catalogue));
    assert!(fresh.is_empty());
    let result = data.to_ref(catalogue, vec![]).ok().unwrap();
    assert_eq!(result.file_names(), &vec!["1.png".to_string()]);
    assert!(result.previous_files().contains_key(&"a".to_string()));
}

#[test]
fn to_ref_records_new_downloads_and_keeps_old_ones() {
    let mut data = Data::default();
    data.record_downloads(vec![("a".to_string(), Ok("1.png".to_string()))]);
    let catalogue = catalogue();
    let fresh = data.links_to_fetch(&all_links(&catalogue));
    assert_eq!(fresh, vec!["b", "c"]);
    let fetched = vec![
        ("b".to_string(), Ok("2.png".to_string())),
        ("c".to_string(), Err(Error::Reqwest("refused".to_string()))),
    ];
    let result = data.to_ref(catalogue, fetched).ok().unwrap();
    let mut names = result.file_names().clone();
    names.sort();
    assert_eq!(names, vec!["1.png", "2.png"]);
    assert!(result.previous_files().contains_key(&"a".to_string()));
    assert!(result.previous_files().contains_key(&"b".to_string()));
    assert!(!result.previous_files().contains_key(&"c".to_string()));
}

#[test]
fn load_steps_follow_the_error_policy() {
    assert!(matches!(load_step(LoadEvent::AnimeCreated(Err(Error::Postgres("dup".to_string())))), LoadAction::NextStep));
    assert!(matches!(load_step(LoadEvent::CharacterCreated(Ok(()))), LoadAction::NextStep));
    assert!(matches!(load_step(LoadEvent::LinkChecked(Ok(true))), LoadAction::Download));
    assert!(matches!(load_step(LoadEvent::LinkChecked(Ok(false))), LoadAction::NextStep));
    assert!(matches!(load_step(LoadEvent::LinkChecked(Err(Error::Postgres("down".to_string())))), LoadAction::Fail(Error::Postgres(_))));
    match load_step(LoadEvent::Downloaded(Ok("7.png".to_string()))) {
        LoadAction::InsertFile { file_name } => assert_eq!(file_name, "7.png"),
        _ => panic!("expected the file to be recorded"),
    }
    assert!(matches!(load_step(LoadEvent::Downloaded(Err(Error::Reqwest("404".to_string())))), LoadAction::Fail(Error::Reqwest(_))));
    assert!(matches!(load_step(LoadEvent::FileInserted(Err(Error::Postgres("dup".to_string())))), LoadAction::NextStep));
}
