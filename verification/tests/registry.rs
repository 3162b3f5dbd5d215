use cmini::util::cache::{Corpus, ServerCachedStats};
use cmini::util::conv::layout;
use cmini::util::jsons::get_table;
use cmini::util::keys::Layout;
use cmini::util::memory::{best_of, RemoveError, RenameError, ServerLayouts};
use cmini::util::model::{LayoutConfig, Metric};

fn keys(col: u8) -> Layout {
    let mut keys = Layout::new();
    keys.insert('a', (1, col, 3));
    keys.insert('s', (1, 1, 2));
    keys.insert('k', (1, 7, 7));
    keys
}

fn config(name: &str, user: u64) -> LayoutConfig {
    LayoutConfig::new(name.to_string(), user, "ortho".to_string(), keys(0))
}

fn registry() -> ServerLayouts {
    let mut layouts = ServerLayouts::new();
    assert!(layouts.add(config("qwerty", 1)));
    assert!(layouts.add(config("dvorak", 2)));
    layouts
}

fn corpora() -> Vec<Corpus> {
    vec![
        Corpus { name: "english".to_string(), trigrams: vec![(['a', 's', 'k'], 3), (['s', 'a', 'k'], 1)] },
        Corpus { name: "empty".to_string(), trigrams: vec![] },
    ]
}

#[test]
fn find_returns_the_most_similar_name() {
    let layouts = registry();
    assert_eq!(layouts.find("qwrty").unwrap().name, "qwerty");
    assert_eq!(layouts.best_match("qwrty"), "qwerty");
    assert_eq!(layouts.best_match("dvork"), "dvorak");
    assert_eq!(layouts.best_match("zzzz"), "");
    assert!(layouts.find("zzzz").is_none());
    assert!(ServerLayouts::new().find("qwerty").is_none());
}

#[test]
fn best_of_takes_the_first_of_the_greatest() {
    assert_eq!(best_of(&vec![]), None);
    assert_eq!(best_of(&vec![0, 0]), None);
    assert_eq!(best_of(&vec![1, 5, 5, 2]), Some(1));
    assert_eq!(best_of(&vec![0, 7]), Some(1));
}

#[test]
fn add_refuses_a_name_that_is_taken() {
    let mut layouts = registry();
    assert!(!layouts.add(config("qwerty", 9)));
    assert_eq!(layouts.len(), 2);
    assert_eq!(layouts.get("qwerty").unwrap().user, 1);
    assert!(layouts.get("Qwerty").is_none());
    assert!(layouts.contains("dvorak"));
    assert_eq!(layouts.get_index(1).unwrap().name, "dvorak");
    assert!(layouts.get_index(2).is_none());
}

#[test]
fn remove_asks_for_the_owner() {
    let mut layouts = registry();
    assert!(matches!(layouts.remove("colemak", 1), Err(RemoveError::NotFound("colemak"))));
    assert!(matches!(layouts.remove("qwerty", 2), Err(RemoveError::NotOwner("qwerty"))));
    assert_eq!(layouts.len(), 2);
    assert_eq!(layouts.remove("qwerty", 1).unwrap().name, "qwerty");
    assert_eq!(layouts.len(), 1);
    assert_eq!(layouts.remove_as_admin("dvorak", 99).unwrap().user, 2);
    assert_eq!(layouts.len(), 0);
}

#[test]
fn remove_errors_say_what_happened() {
    assert_eq!(RemoveError::NotFound("x").to_string(), "Error: `x` does not exist");
    assert_eq!(
        RemoveError::NotOwner("x").to_string(),
        "Error: you don't own `x`\nHelp: you may remove it with `remove x --sudo`"
    );
    assert_eq!(RenameError::Exists("y").to_string(), "Error: `y` already exists");
}

#[test]
fn rename_keeps_keys_and_checksum() {
    let mut layouts = registry();
    let sum = layouts.get("qwerty").unwrap().sum;
    assert!(matches!(layouts.rename("qwerty", "dvorak", 1), Err(RenameError::Exists("dvorak"))));
    assert!(matches!(layouts.rename("qwerty", "other", 2), Err(RenameError::NotOwner("qwerty"))));
    assert!(matches!(layouts.rename("nothing", "other", 2), Err(RenameError::NotFound("nothing"))));
    assert_eq!(layouts.len(), 2);
    assert!(layouts.rename("qwerty", "other", 1).is_ok());
    assert!(layouts.get("qwerty").is_none());
    let renamed = layouts.get("other").unwrap();
    assert_eq!(renamed.sum, sum);
    assert_eq!(renamed.user, 1);
    assert_eq!(layout::pack(&renamed.keys), layout::pack(&keys(0)));
    assert_eq!(layouts.get_index(1).unwrap().name, "other");
}

#[test]
fn assign_changes_the_owner_only() {
    let mut layouts = registry();
    assert!(layouts.assign("qwerty", 7));
    assert!(!layouts.assign("colemak", 7));
    assert_eq!(layouts.get("qwerty").unwrap().user, 7);
    assert_eq!(layouts.get_index(0).unwrap().name, "qwerty");
}

#[test]
fn second_resync_computes_nothing() {
    let layouts = registry();
    let table = get_table(&vec![("LILMRM".to_string(), "inroll".to_string())]).unwrap();
    let mut cache = ServerCachedStats::new();
    assert_eq!(cache.cache_files(&layouts, &table, &corpora()), 2);
    assert_eq!(cache.cache_files(&layouts, &table, &corpora()), 0);
    let stat = cache.get("QWERTY", "English").unwrap();
    assert_eq!(stat.get(Metric::InRoll).num, 3);
    assert_eq!(stat.get(Metric::Unknown).num, 1);
    assert_eq!(stat.get(Metric::InRoll).den, 4);
    assert!(cache.get("qwerty", "empty").is_none());
    assert!(cache.get("qwerty", "").is_none());
    assert!(cache.get("", "english").is_none());
    assert!(cache.get("colemak", "english").is_none());
}

#[test]
fn changed_keys_are_computed_again() {
    let mut layouts = registry();
    let table = get_table(&vec![("LILMRM".to_string(), "inroll".to_string())]).unwrap();
    let mut cache = ServerCachedStats::new();
    assert_eq!(cache.cache_files(&layouts, &table, &corpora()), 2);
    let before = layouts.get("qwerty").unwrap().sum;
    layouts.remove("qwerty", 1).unwrap();
    let moved = LayoutConfig::new("qwerty".to_string(), 1, "ortho".to_string(), keys(4));
    assert_ne!(moved.sum, before);
    assert!(!cache.is_fresh(&moved));
    assert!(layouts.add(moved));
    assert_eq!(cache.cache_files(&layouts, &table, &corpora()), 1);
    assert!(cache.is_fresh(layouts.get("qwerty").unwrap()));
    assert_eq!(cache.cache_files(&layouts, &table, &corpora()), 0);
}
