use std::collections::HashMap;

use cmini::cmds::add::{parse_matrix, AddError, Board, MatrixError};
use cmini::cmds::{add, corpus, github, like, maintenance, remove, rename, suggest, unlike};
use cmini::util::corpora::{get_corpus, get_user_corpus, ngrams, set_user_corpus, words, Prefs};
use cmini::util::links::{get_link, Links};
use cmini::util::memory::{get_like_count, Likes, ServerLayouts};

const ADMIN: u64 = 169285177481101312;

fn submit(layouts: &mut ServerLayouts, name: &str, id: u64) {
    let arg = format!("{name} ```\nq w e r t y u i o p\na s d f g h j k l ;\nz x c v b n m , . /\n```");
    assert_eq!(add::Command.exec(&arg, id, layouts).unwrap(), name);
}

#[test]
fn ortho_matrix_is_read() {
    let (board, keys) = parse_matrix("q w e r t  y u i o p\na s d f g  h j k l ;\nz x c v b  n m , . /").unwrap();
    assert_eq!(board, Board::Ortho);
    assert_eq!(keys.len(), 30);
    assert_eq!(keys.get('q'), Some((0, 0, 0)));
    assert_eq!(keys.get('t'), Some((0, 4, 3)));
    assert_eq!(keys.get('y'), Some((0, 5, 6)));
    assert_eq!(keys.get('p'), Some((0, 9, 9)));
    assert_eq!(keys.get('z'), Some((2, 0, 0)));
    assert_eq!(keys.get('/'), Some((2, 9, 9)));
}

#[test]
fn angle_matrix_shifts_the_last_row() {
    let (board, keys) = parse_matrix("q w e r t\na s d f g\n z x c v b").unwrap();
    assert_eq!(board, Board::Angle);
    assert_eq!(keys.get('a'), Some((1, 0, 0)));
    assert_eq!(keys.get('z'), Some((2, 0, 1)));
    assert_eq!(keys.get('x'), Some((2, 1, 2)));
    assert_eq!(keys.get('c'), Some((2, 2, 3)));
    assert_eq!(keys.get('b'), Some((2, 4, 3)));
}

#[test]
fn stagger_matrix_needs_growing_indentation() {
    let (board, keys) = parse_matrix("q w e\n a s d\n  z x c").unwrap();
    assert_eq!(board, Board::Stagger);
    assert_eq!(keys.get('z'), Some((2, 0, 0)));
    assert_eq!(parse_matrix("q w e\n a s d\n z x c").err(), Some(MatrixError::Undefined));
    assert_eq!(parse_matrix(" q w e\na s d\nz x c").err(), Some(MatrixError::Undefined));
}

#[test]
fn mini_matrix_has_a_thumb_row() {
    let (board, keys) = parse_matrix("q w e\na s d\n  z x c\n          t").unwrap();
    assert_eq!(board, Board::Mini);
    assert_eq!(keys.get('t'), Some((3, 0, 4)));
    let (_, keys) = parse_matrix("q w e\na s d\n  z x c\n    t n").unwrap();
    assert_eq!(keys.get('t'), Some((3, 0, 5)));
    assert_eq!(keys.get('n'), Some((3, 1, 5)));
    assert_eq!(parse_matrix("q w e\na s d\n  z x c").err(), Some(MatrixError::Undefined));
}

#[test]
fn matrix_errors() {
    assert_eq!(parse_matrix("").err(), Some(MatrixError::TooFewRows(0)));
    assert_eq!(parse_matrix("q w e\na s d").err(), Some(MatrixError::TooFewRows(2)));
    assert_eq!(
        parse_matrix("q w e\na s d\nz x c\nt").err(),
        Some(MatrixError::TooManyRows(Board::Ortho, 4))
    );
    assert_eq!(
        parse_matrix("q w e\na s d\n  z x c\n t\n u").err(),
        Some(MatrixError::TooManyRows(Board::Mini, 5))
    );
    assert_eq!(parse_matrix("q w e\na q d\nz x c").err(), Some(MatrixError::Duplicate('q')));
    assert_eq!(parse_matrix("q w e\na s d\n  z x c\n  a").err(), Some(MatrixError::Duplicate('a')));
}

#[test]
fn matrix_skips_free_slots_and_wraps_long_rows() {
    let (_, keys) = parse_matrix("q ~ e\r\n~ s d\r\nz x ~").unwrap();
    assert_eq!(keys.len(), 6);
    assert_eq!(keys.get('e'), Some((0, 1, 1)));
    assert_eq!(keys.get('~'), None);
    assert_eq!(keys.get('\r'), None);
    let (_, keys) = parse_matrix("abcdefghijklm\nn\no").unwrap();
    assert_eq!(keys.get('m'), Some((0, 12, 9)));
}

#[test]
fn matrix_error_messages() {
    assert_eq!(MatrixError::TooFewRows(2).to_string(), "Expected 3 lines, got 2");
    assert_eq!(MatrixError::Undefined.to_string(), "Error: board shape is undefined");
    assert_eq!(
        MatrixError::TooManyRows(Board::Mini, 12).to_string(),
        "Error: board type `mini` supports at most 4 rows, got 12"
    );
    assert_eq!(MatrixError::Duplicate('q').to_string(), "Error: `q` is defined twice");
    assert_eq!(AddError::Exists("x".to_string()).to_string(), "Error: `x` already exists");
}

#[test]
fn add_leaves_no_trace_where_it_fails() {
    let mut layouts = ServerLayouts::new();
    submit(&mut layouts, "first", 3);
    assert_eq!(layouts.len(), 1);
    let ll = layouts.get("first").unwrap();
    assert_eq!((ll.user, ll.board.as_str(), ll.keys.len()), (3, "ortho", 30));
    let again = add::Command.exec("FIRST ```\na\nb\nc\n```", 4, &mut layouts);
    assert!(matches!(again, Err(AddError::Exists(name)) if name == "first"));
    let bad_name = add::Command.exec("_x ```\na\nb\nc\n```", 4, &mut layouts);
    assert!(matches!(bad_name, Err(AddError::Name(m)) if m == "Error: names cannot start with an underscore"));
    let twice = add::Command.exec("second ```\na\nb\na\n```", 4, &mut layouts);
    assert!(matches!(twice, Err(AddError::Matrix(MatrixError::Duplicate('a')))));
    let none = add::Command.exec("second", 4, &mut layouts);
    assert!(matches!(none, Err(AddError::Matrix(MatrixError::TooFewRows(0)))));
    assert_eq!(layouts.len(), 1);
    assert_eq!(layouts.get("first").unwrap().user, 3);
}

#[test]
fn remove_command_answers() {
    let mut layouts = ServerLayouts::new();
    submit(&mut layouts, "first", 3);
    submit(&mut layouts, "second", 3);
    submit(&mut layouts, "third", 3);
    assert_eq!(remove::Command.exec("nothing", 3, &mut layouts), "Error: `nothing` does not exist");
    assert_eq!(
        remove::Command.exec("first", 4, &mut layouts),
        "Error: you don't own `first`\nHelp: you may remove it with `remove first --sudo`"
    );
    assert_eq!(remove::Command.exec("first", 3, &mut layouts), "`first` has been removed");
    assert_eq!(
        remove::Command.exec("second", ADMIN, &mut layouts),
        "Error: you don't own `second`\nHelp: you may remove it with `remove second --sudo`"
    );
    assert_eq!(remove::Command.exec("second --force", ADMIN, &mut layouts), "Invalid kwarg: force");
    assert_eq!(layouts.len(), 2);
    assert_eq!(remove::Command.exec("second --sudo", ADMIN, &mut layouts), "`second` has been removed");
    assert_eq!(remove::Command.exec("third --sudo", 3, &mut layouts), "Error: `third --sudo` does not exist");
    assert_eq!(layouts.len(), 1);
}

#[test]
fn rename_command_answers() {
    let mut layouts = ServerLayouts::new();
    submit(&mut layouts, "first", 3);
    submit(&mut layouts, "second", 3);
    assert_eq!(rename::Command.exec("first ab", 3, &mut layouts), "Error: names must be at least 3 characters long");
    assert_eq!(rename::Command.exec("first second", 3, &mut layouts), "Error: `second` already exists");
    assert_eq!(rename::Command.exec("nothing third", 3, &mut layouts), "Error: `nothing` does not exist");
    assert_eq!(
        rename::Command.exec("first third", 4, &mut layouts),
        "Error: you don't own `first`\nHelp: you may remove it with `remove first --sudo`"
    );
    assert_eq!(rename::Command.exec("first third", 3, &mut layouts), "`first` has been renamed to `third`");
    assert!(layouts.contains("third"));
    assert!(!layouts.contains("first"));
}

#[test]
fn maintenance_switch() {
    let mut mode = false;
    assert_eq!(maintenance::Command.exec("on", 5, &mut mode), "Unauthorized");
    assert!(!mode);
    assert_eq!(maintenance::Command.exec("", ADMIN, &mut mode), "Maintenance mode: false");
    assert_eq!(maintenance::Command.exec("enable now", ADMIN, &mut mode), "Maintenance mode enabled");
    assert!(mode);
    assert_eq!(maintenance::Command.exec("what", ADMIN, &mut mode), "Maintenance mode: true");
    assert_eq!(maintenance::Command.exec(" false", ADMIN, &mut mode), "Maintenance mode disabled");
    assert!(!mode);
    assert!(maintenance::maintenance_check(5, false));
    assert!(!maintenance::maintenance_check(5, true));
    assert!(maintenance::maintenance_check(ADMIN, true));
}

#[test]
fn likes_are_counted() {
    let mut layouts = ServerLayouts::new();
    submit(&mut layouts, "first", 3);
    submit(&mut layouts, "qwerty", 3);
    let mut likes = Likes::new();
    assert_eq!(like::Command.exec("", 7, &layouts, &mut likes), "like <layout>\nlike a layout");
    assert_eq!(like::Command.exec("frst", 7, &layouts, &mut likes), "You liked first. (Now at 1 like)");
    assert_eq!(like::Command.exec("first", 7, &layouts, &mut likes), "You've already liked this layout");
    assert_eq!(like::Command.exec("first", 8, &layouts, &mut likes), "You liked first. (Now at 2 likes)");
    assert_eq!(like::Command.exec("qwerty", 8, &layouts, &mut likes), "You can't like Qwerty :yellow_circle:");
    assert_eq!(get_like_count(&likes, "first"), 2);
    assert_eq!(get_like_count(&likes, "qwerty"), 0);
    assert_eq!(unlike::Command.exec("first", 9, &layouts, &mut likes), "You've already unliked this layout");
    assert_eq!(unlike::Command.exec("first", 7, &layouts, &mut likes), "You unliked first. (Now at 1 likes)");
    assert_eq!(unlike::Command.exec("qwerty", 7, &layouts, &mut likes), "You've already unliked this layout");
    assert_eq!(get_like_count(&likes, "first"), 1);
    assert_eq!(like::Command.exec("12345", 7, &ServerLayouts::new(), &mut likes), "Error: `12345` does not exist");
}

#[test]
fn corpus_preference() {
    let corpora = vec!["english".to_string(), "mt-quotes".to_string()];
    let mut prefs: Prefs = HashMap::new();
    assert_eq!(get_user_corpus(&prefs, 1), "mt-quotes");
    assert_eq!(corpus::Command.exec("", 1, &mut prefs, &corpora), "```\nList of Corpora\n- english\n- mt-quotes\n```");
    assert_eq!(corpus::Command.exec("French", 1, &mut prefs, &corpora), "The corpus `French` doesn't exist.");
    assert_eq!(get_user_corpus(&prefs, 1), "mt-quotes");
    assert_eq!(
        corpus::Command.exec("English", 1, &mut prefs, &corpora),
        "Your corpus preference has been changed to `english`."
    );
    assert_eq!(get_user_corpus(&prefs, 1), "english");
    assert_eq!(get_user_corpus(&prefs, 2), "mt-quotes");
    assert_eq!(set_user_corpus(&mut prefs, &corpora, 2, "nothing"), Err(()));
    assert_eq!(set_user_corpus(&mut prefs, &corpora, 2, "MT-Quotes"), Ok(()));
    assert_eq!(ngrams(&prefs, 1, 3), "./corpora/english/trigrams.json");
    assert_eq!(ngrams(&prefs, 5, 1), "./corpora/mt-quotes/monograms.json");
    assert_eq!(words(&prefs, 1), "./corpora/english/words.json");
}

#[test]
fn corpus_keys_become_trigrams() {
    let entries = vec![("The".to_string(), 5u64), ("he ".to_string(), 2)];
    assert_eq!(get_corpus(&entries), Some(vec![(['t', 'h', 'e'], 5), (['h', 'e', ' '], 2)]));
    assert_eq!(get_corpus(&vec![("th".to_string(), 1)]), None);
}

#[test]
fn links_are_shown_in_brackets() {
    let mut links = Links::new();
    links.insert("first".to_string(), "https://example.org".to_string());
    assert_eq!(get_link(&links, "first"), "<https://example.org>");
    assert_eq!(get_link(&links, "second"), "");
}

#[test]
fn fixed_answers() {
    assert_eq!(github::Command.exec(), "<https://github.com/waterdragen/cmini-rs>");
    assert_eq!(suggest::Command.exec(), "Received :)");
    assert_eq!(add::Command.desc(), "contribute a new layout");
    assert_eq!(remove::Command.usage(), "remove <layout>");
}
