use std::collections::HashMap;

use cmini::cmds::help::{commands, two_column_display};
use cmini::cmds::{_8ball, add, assign, handle, help, likes, view, Action, Context, Reply};
use cmini::util::analyzer_util::{MetricName, ThreeFingerCombo};
use cmini::util::authors::{greatest_of, Authors};
use cmini::util::cache::{Corpus, JsonCachedStatConfig, RawCachedStatConfig, ServerCachedStats};
use cmini::util::conv::{layout, stats};
use cmini::util::jsons::get_table;
use cmini::util::keys::Layout;
use cmini::util::layout::get_matrix_str;
use cmini::util::links::Links;
use cmini::util::memory::{Likes, ServerLayouts};
use cmini::util::model::{Freq, JsonLayoutConfig, LayoutConfig, Metric, Stat};
use cmini::util::names::NameMap;
use cmini::util::text::{parse_number, sort_texts, text_le};
use cmini::util::validate_json;

const ADMIN: u64 = 474550534301548556;

fn authors() -> Authors {
    Authors::open(vec![
        (1, vec!["eve".to_string(), "evelyn".to_string()]),
        (2, vec!["waterdragen".to_string()]),
    ])
    .unwrap()
}

fn context() -> Context {
    let mut layouts = ServerLayouts::new();
    for (name, user) in [("qwerty", 1), ("dvorak", 2)] {
        let arg = format!("{name} ```\nq w e\na s d\n z x c\n```");
        assert!(add::Command.exec(&arg, user, &mut layouts).is_ok());
    }
    Context {
        layouts,
        likes: Likes::new(),
        prefs: HashMap::new(),
        corpora: vec!["english".to_string()],
        authors: authors(),
        links: Links::new(),
        maintenance: false,
    }
}

fn say(ctx: &mut Context, content: &str, id: u64) -> String {
    match handle(ctx, content, false, "tester", false, true, id, 7) {
        Action::Say { reply: Reply::Text(text), direct } => {
            assert!(!direct);
            text
        }
        Action::Say { reply: Reply::Layout(text, name), .. } => format!("{text}[{name}]"),
        Action::Ignore => "(ignored)".to_string(),
    }
}

#[test]
fn authors_are_found_by_name_and_id() {
    let mut authors = authors();
    assert_eq!(authors.len(), 2);
    assert!(!authors.is_empty());
    assert_eq!(authors.get_name(1), Some("eve"));
    assert_eq!(authors.get_name(3), None);
    assert_eq!(authors.get_id("evelin"), Some(1));
    assert_eq!(authors.get_id("waterdragon"), Some(2));
    assert_eq!(authors.name_count(), 3);
    authors.update(3, "newcomer".to_string());
    authors.update(1, "eva".to_string());
    authors.update(1, "eve".to_string());
    authors.update(2, "eve".to_string());
    assert_eq!(authors.get_name(3), Some("newcomer"));
    assert_eq!(authors.get_names(1).unwrap(), &vec!["eve".to_string(), "evelyn".to_string(), "eva".to_string()]);
    assert_eq!(authors.get_names(2).unwrap().len(), 2);
    assert_eq!(authors.get_id("eve"), Some(1));
    assert_eq!(authors.name_count(), 5);
    assert!(Authors::open(vec![]).is_none());
    assert!(Authors::open(vec![(1, vec![])]).is_none());
    assert_eq!(Authors::new().get_id("eve"), None);
    assert_eq!(greatest_of(&vec![0, 0]), 0);
    assert_eq!(greatest_of(&vec![1, 3, 3]), 1);
}

#[test]
fn assign_command_answers() {
    let mut ctx = context();
    let authors = authors();
    assert_eq!(
        assign::Command.exec("qwerty", &mut ctx.layouts, &authors),
        "assign <layout> <author>\nassign a layout to a new author"
    );
    assert_eq!(assign::Command.exec("colemak eve", &mut ctx.layouts, &authors), "Error: `colemak` does not exist");
    assert_eq!(
        assign::Command.exec("qwerty 99", &mut ctx.layouts, &authors),
        "Error: Author with ID `99` does not exist"
    );
    assert_eq!(assign::Command.exec("qwerty 2", &mut ctx.layouts, &authors), "`qwerty` has been assigned to `waterdragen`");
    assert_eq!(ctx.layouts.get("qwerty").unwrap().user, 2);
    assert_eq!(assign::Command.exec("qwerty evelin", &mut ctx.layouts, &authors), "`qwerty` has been assigned to `evelin`");
    assert_eq!(ctx.layouts.get("qwerty").unwrap().user, 1);
    assert_eq!(
        assign::Command.exec("qwerty someone", &mut ctx.layouts, &Authors::new()),
        "Error: Author `someone` does not exist"
    );
    assert!(assign::Command.mods_only());
}

#[test]
fn numbers_are_read() {
    assert_eq!(parse_number("0"), Some(0));
    assert_eq!(parse_number("+15"), Some(15));
    assert_eq!(parse_number("18446744073709551615"), Some(u64::MAX));
    assert_eq!(parse_number("18446744073709551616"), None);
    assert_eq!(parse_number(""), None);
    assert_eq!(parse_number("+"), None);
    assert_eq!(parse_number("12a"), None);
    assert_eq!(parse_number("-1"), None);
}

#[test]
fn help_lists_the_commands_in_two_columns() {
    let table = commands();
    assert_eq!(table.len(), 14);
    let list = help::Command.exec("", &table);
    let expected = "Usage: `!cmini (command) [args]`\n```\
8ball           like            \n\
add             likes           \n\
assign          remove          \n\
corpus          rename          \n\
gh              suggest         \n\
github          unlike          \n\
help            view            \n\
```";
    assert_eq!(list, expected);
    assert_eq!(
        help::Command.exec("remove", &table),
        "Help page for `remove`:```\nremove <layout>\ndelete one of your layouts\n```"
    );
    assert_eq!(help::Command.exec("nothing", &table), "Unknown command nothing");
    let mut out = Vec::new();
    two_column_display(&mut out, &table[..3].to_vec());
    assert_eq!(out.iter().collect::<String>(), "8ball           assign          \n");
}

#[test]
fn likes_are_listed_in_order() {
    let mut likes = Likes::new();
    likes.insert("zebra".to_string(), vec![1, 2]);
    likes.insert("apple".to_string(), vec![2]);
    likes.insert("mango".to_string(), vec![3, 1]);
    assert_eq!(likes::Command.exec(1, "eve", &likes), "```\neve's liked layouts:\nmango\nzebra\n```");
    assert_eq!(likes::Command.exec(2, "w", &likes), "```\nw's liked layouts:\napple\nzebra\n```");
    assert_eq!(likes::Command.exec(9, "nobody", &likes), "```\nnobody's liked layouts:\n```");
}

#[test]
fn texts_are_ordered_by_code_point() {
    let le = |a: &str, b: &str| text_le(&a.chars().collect(), &b.chars().collect());
    assert!(le("", "a"));
    assert!(le("a", "a"));
    assert!(le("a", "ab"));
    assert!(!le("ab", "a"));
    assert!(le("Z", "a"));
    assert!(!le("b", "abc"));
    let texts: Vec<Vec<char>> = ["pear", "apple", "", "apple", "Pear"].iter().map(|s| s.chars().collect()).collect();
    let sorted: Vec<String> = sort_texts(&texts).iter().map(|t| t.iter().collect()).collect();
    assert_eq!(sorted, vec!["", "Pear", "apple", "apple", "pear"]);
}

#[test]
fn view_finds_the_layout() {
    let ctx = context();
    assert_eq!(view::Command.exec("qwert", &ctx.layouts).unwrap().name, "qwerty");
    assert_eq!(
        view::Command.exec("", &ctx.layouts).err().unwrap(),
        "view <layout name>\nsee the stats of a layout"
    );
    assert_eq!(view::Command.exec("12345", &ctx.layouts).err().unwrap(), "Error: `12345` does not exist");
}

#[test]
fn ball_answers_by_the_roll() {
    assert_eq!(_8ball::Command.exec(0), "Yes");
    assert_eq!(_8ball::Command.exec(11), "Probably not");
    assert_eq!(_8ball::Command.exec(12), "Yes");
    assert_eq!(_8ball::Command.exec(29), "Maybe");
}

#[test]
fn messages_are_heard_and_routed() {
    let mut ctx = context();
    assert!(matches!(handle(&mut ctx, "!cmini github", true, "bot", false, true, 5, 0), Action::Ignore));
    assert!(matches!(handle(&mut ctx, "", false, "x", true, true, 5, 0), Action::Ignore));
    assert!(matches!(handle(&mut ctx, "hello there", false, "x", false, true, 5, 0), Action::Ignore));
    assert!(matches!(
        handle(&mut ctx, "github", false, "x", true, false, 5, 0),
        Action::Say { reply: Reply::Text(text), direct: false } if text == "<https://github.com/waterdragen/cmini-rs>"
    ));
    assert_eq!(say(&mut ctx, "!cmini", 5), "Try `!cmini help`");
    assert_eq!(say(&mut ctx, "!cmini akl", 5), "Not yet implemented");
    assert_eq!(say(&mut ctx, "!amini gh", 5), "<https://github.com/waterdragen/cmini-rs>");
    assert_eq!(say(&mut ctx, "!cmini 8ball will it work", 5), "No");
    assert_eq!(say(&mut ctx, "!cmini suggest more", 5), "Received :)");
    assert_eq!(say(&mut ctx, "!cmini dance", 5), "Error: dance is not an available command");
    assert_eq!(say(&mut ctx, "!cmini assign qwerty 2", 5), "Unauthorized");
    assert_eq!(say(&mut ctx, "!cmini assign qwerty 2", ADMIN), "`qwerty` has been assigned to `waterdragen`");
    assert_eq!(say(&mut ctx, "!cmini view qwert", 5), "[qwerty]");
    assert_eq!(say(&mut ctx, "!cmini add new ```\na b\nc d\ne f\n```", 5), "Success!\n[new]");
    assert_eq!(say(&mut ctx, "!cmini add new ```\na b\nc d\ne f\n```", 5), "Error: `new` already exists");
    assert_eq!(say(&mut ctx, "!cmini like new", 5), "You liked new. (Now at 1 like)");
    assert_eq!(say(&mut ctx, "!cmini likes", 5), "```\ntester's liked layouts:\nnew\n```");
    assert_eq!(say(&mut ctx, "!cmini unlike new", 5), "You unliked new. (Now at 0 likes)");
    assert_eq!(say(&mut ctx, "!cmini rename new newer", 5), "`new` has been renamed to `newer`");
    assert_eq!(say(&mut ctx, "!cmini remove newer", 5), "`newer` has been removed");
    assert_eq!(say(&mut ctx, "!cmini corpus English", 5), "Your corpus preference has been changed to `english`.");
    assert_eq!(say(&mut ctx, "!cmini help like", 5), "Help page for `like`:```\nlike <layout>\nlike a layout\n```");
    assert_eq!(ctx.layouts.len(), 2);
}

#[test]
fn maintenance_silences_everyone_but_admins() {
    let mut ctx = context();
    assert_eq!(say(&mut ctx, "!cmini maintenance on", 5), "Unauthorized");
    assert_eq!(say(&mut ctx, "!cmini 1984 on", ADMIN), "Maintenance mode enabled");
    assert!(ctx.maintenance);
    assert_eq!(say(&mut ctx, "!cmini github", 5), "(ignored)");
    assert_eq!(say(&mut ctx, "!cmini maintenance", ADMIN), "Maintenance mode: true");
    assert_eq!(say(&mut ctx, "!cmini maintenance off", ADMIN), "Maintenance mode disabled");
    assert_eq!(say(&mut ctx, "!cmini github", 5), "<https://github.com/waterdragen/cmini-rs>");
}

#[test]
fn matrix_is_drawn() {
    let mut keys = Layout::new();
    keys.insert('q', (0, 0, 0));
    keys.insert('p', (0, 9, 9));
    keys.insert('a', (1, 0, 0));
    keys.insert('z', (2, 1, 1));
    keys.insert('x', (7, 1, 1));
    keys.insert('y', (1, 16, 1));
    let ortho = LayoutConfig::new("m".to_string(), 1, "ortho".to_string(), keys);
    let gap = " ".repeat(33);
    let row0 = format!("  q{}p{}", " ".repeat(10 + 8), " ".repeat(13));
    let row1 = format!("  a{}", " ".repeat(32));
    let row2 = format!("    z{}", " ".repeat(30));
    assert_eq!(row0.len(), 35);
    assert_eq!(get_matrix_str(&ortho), format!("{row0}\n{row1}\n{row2}"));

    let mut keys = Layout::new();
    keys.insert('t', (3, 5, 4));
    let stagger = LayoutConfig::new("m".to_string(), 1, "stagger".to_string(), keys);
    let thumb = format!("  {} t{}", " ".repeat(10), " ".repeat(21));
    assert_eq!(thumb.len(), 35);
    assert_eq!(get_matrix_str(&stagger), format!("  {gap}\n   {gap}\n    {gap}\n{thumb}"));

    let angle = LayoutConfig::new("m".to_string(), 1, "angle".to_string(), Layout::new());
    assert_eq!(get_matrix_str(&angle), format!("  {gap}\n  {gap}\n   {gap}"));
}

#[test]
fn layouts_are_persisted_as_packed_keys() {
    let mut keys = Layout::new();
    keys.insert('a', (1, 0, 3));
    keys.insert('q', (0, 0, 0));
    let ll = LayoutConfig::new("mine".to_string(), 4, "ortho".to_string(), keys);
    let json = ll.to_json();
    assert_eq!((json.user, json.board.as_str(), json.keys.as_str()), (4, "ortho", "q000a103"));
    let back = LayoutConfig::from_json("mine".to_string(), &json).unwrap();
    assert_eq!(back.sum, ll.sum);
    assert_eq!(layout::pack(&back.keys), "q000a103");
    let bad = JsonLayoutConfig { user: 1, board: "ortho".to_string(), keys: "q00".to_string() };
    assert!(LayoutConfig::from_json("bad".to_string(), &bad).is_none());
}

#[test]
fn cached_stats_are_persisted_packed_and_sorted() {
    let mut freqs = vec![Freq { num: 0, den: 4 }; 14];
    freqs[3] = Freq { num: 4, den: 4 };
    let mut raw = RawCachedStatConfig { sum: 77, stats: NameMap::new() };
    raw.stats.insert("zulu".to_string(), Stat::new(freqs.clone()).unwrap());
    raw.stats.insert("alpha".to_string(), Stat::new(freqs).unwrap());
    let json = JsonCachedStatConfig::from_raw(&raw);
    assert_eq!(json.sum, 77);
    assert_eq!(json.stats.get_index(0).unwrap().0, "alpha");
    assert_eq!(json.stats.get_index(1).unwrap().0, "zulu");
    let packed = json.stats.get("zulu").unwrap();
    assert_eq!(packed, &stats::pack(raw.stats.get("zulu").unwrap()));
    assert_eq!(&packed[9..12], "Yag");
    let back = RawCachedStatConfig::from_json(&json).unwrap();
    assert_eq!(back.sum, 77);
    assert_eq!(back.stats.get("alpha").unwrap().get(Metric::Alt), Freq { num: 100000, den: 100000 });
    let mut broken = JsonCachedStatConfig { sum: 1, stats: NameMap::new() };
    broken.stats.insert("x".to_string(), "short".to_string());
    assert!(RawCachedStatConfig::from_json(&broken).is_none());
}

#[test]
fn name_map_keeps_order_and_sorts() {
    let mut map: NameMap<u32> = NameMap::new();
    assert_eq!(map.insert("b".to_string(), 1), None);
    assert_eq!(map.insert("c".to_string(), 2), None);
    assert_eq!(map.insert("a".to_string(), 3), None);
    assert_eq!(map.insert("c".to_string(), 4), Some(2));
    assert_eq!(map.len(), 3);
    assert_eq!(map.index_of("c"), Some(1));
    assert_eq!(map.get_index(2), Some((&"a".to_string(), &3)));
    assert_eq!(map.first_name(), 2);
    assert_eq!(map.replace_index(0, 9), 1);
    assert_eq!(map.shift_remove("b"), Some(9));
    assert_eq!(map.shift_remove("b"), None);
    assert_eq!(map.index_of("c"), Some(0));
    assert!(!map.contains_key("b"));
    map.insert("b".to_string(), 5);
    map.sort_keys();
    assert_eq!(map.get_index(0), Some((&"a".to_string(), &3)));
    assert_eq!(map.get_index(1), Some((&"b".to_string(), &5)));
    assert_eq!(map.get_index(2), Some((&"c".to_string(), &4)));
    assert_eq!(map.get_index(3), None);
    assert_eq!(map.get("c"), Some(&4));
}

#[test]
fn stores_must_hold_something() {
    let mut ctx = context();
    let mut cache = ServerCachedStats::new();
    assert!(!validate_json(&ctx, &cache));
    let table = get_table(&vec![]).unwrap();
    let corpora = vec![Corpus { name: "english".to_string(), trigrams: vec![(['a', 's', 'd'], 1)] }];
    cache.cache_files(&ctx.layouts, &table, &corpora);
    assert_eq!(cache.len(), 2);
    assert_eq!(cache.get_index(0).unwrap().0, "dvorak");
    ctx.prefs.insert(1, "english".to_string());
    ctx.links.insert("qwerty".to_string(), "https://example.org".to_string());
    assert!(!validate_json(&ctx, &cache));
    ctx.likes.insert("qwerty".to_string(), vec![1]);
    assert!(validate_json(&ctx, &cache));
}

#[test]
fn names_of_the_table_have_hashes() {
    assert_eq!(ThreeFingerCombo::new("LILMRP".to_string()).hash_value(), Some(0x01b));
    assert_eq!(ThreeFingerCombo::new("RTRBLR".to_string()).hash_value(), Some(0xcd2));
    assert_eq!(ThreeFingerCombo::new("LIL".to_string()).hash_value(), None);
    assert_eq!(MetricName::new("sfb").hash_value(), Some(2));
    assert_eq!(MetricName::new("sfT").hash_value(), Some(1));
    assert_eq!(MetricName::new("dsfb").hash_value(), Some(4));
    assert_eq!(MetricName::new("alternate").hash_value(), Some(5));
    assert_eq!(MetricName::new("roll-in").hash_value(), Some(33));
    assert_eq!(MetricName::new("oneh-out").hash_value(), Some(16));
    assert_eq!(MetricName::new("sf").hash_value(), None);
    assert_eq!(MetricName::new("unknown").to_string(), "unknown");
}
