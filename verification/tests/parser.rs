use cmini::util::layout::check_name;
use cmini::util::message::{split_word, Message};
use cmini::util::parser::{
    get_args, get_kwargs, get_layout, map_from_vec, slice_kwarg, Kwarg, KwargType as KT,
    ParseKwargError,
};

fn owned(s: &str) -> String {
    String::from(s)
}

#[test]
fn test_kwarg() {
    let cmd_kwargs = map_from_vec(vec![("vec", KT::Vec), ("bool", KT::Bool), ("str", KT::Str)]);
    let kwargs = get_kwargs("", &cmd_kwargs).unwrap();
    assert_eq!(kwargs.arg, "");
    let kwargs = get_kwargs("hello vec --vec 1 2 3", &cmd_kwargs).unwrap();
    assert_eq!(kwargs.arg, "hello vec");
    assert_eq!(
        kwargs.get("vec").unwrap().unwrap_vec(),
        Some(&*vec![owned("1"), owned("2"), owned("3")])
    );
    let kwargs = get_kwargs("hello str --str bogos binted", &cmd_kwargs).unwrap();
    assert_eq!(kwargs.arg, "hello str");
    assert_eq!(kwargs.get("str").unwrap().unwrap_str(), Some("bogos binted"));
    let kwargs = get_kwargs("hello bool --bool", &cmd_kwargs).unwrap();
    assert_eq!(kwargs.arg, "hello bool");
    assert!(kwargs.get("bool").unwrap().unwrap_bool());
    let kwargs = get_kwargs("hello all --vec a b --str c d --bool", &cmd_kwargs).unwrap();
    assert_eq!(kwargs.arg, "hello all");
    assert_eq!(kwargs.get("vec").unwrap().unwrap_vec(), Some(&*vec![owned("a"), owned("b")]));
    assert_eq!(kwargs.get("str").unwrap().unwrap_str(), Some("c d"));
    assert!(kwargs.get("bool").unwrap().unwrap_bool());
    let not_kwargs = get_kwargs("hello all --other --flag", &cmd_kwargs);
    assert!(not_kwargs.is_err());
}

#[test]
fn kwarg_defaults_and_repeats() {
    let cmd_kwargs = map_from_vec(vec![("vec", KT::Vec), ("bool", KT::Bool), ("str", KT::Str)]);
    let kwargs = get_kwargs("just words", &cmd_kwargs).unwrap();
    assert!(!kwargs.get("bool").unwrap().unwrap_bool());
    assert_eq!(kwargs.get("vec").unwrap().unwrap_vec(), None);
    assert_eq!(kwargs.get("str").unwrap().unwrap_str(), None);
    assert!(kwargs.get("other").is_none());
    let kwargs = get_kwargs("x --vec a --bool ignored --VEC b c \u{2014}str", &cmd_kwargs).unwrap();
    assert_eq!(kwargs.arg, "x");
    assert_eq!(kwargs.get("vec").unwrap().unwrap_vec(), Some(&*vec![owned("b"), owned("c")]));
    assert_eq!(kwargs.get("str").unwrap().unwrap_str(), Some(""));
    assert!(kwargs.get("bool").unwrap().unwrap_bool());
    match get_kwargs("a --Flag --other", &cmd_kwargs) {
        Err(ParseKwargError::Invalid(name)) => assert_eq!(name, "flag"),
        Ok(_) => panic!("--Flag is no keyword"),
    }
}

#[test]
fn slice_kwarg_by_type() {
    let words = vec![owned("a"), owned("b")];
    assert!(matches!(slice_kwarg(KT::Vec, &words), Kwarg::Vec(Some(v)) if v == words));
    assert!(matches!(slice_kwarg(KT::Str, &words), Kwarg::Str(Some(s)) if s == "a b"));
    assert!(matches!(slice_kwarg(KT::Bool, &words), Kwarg::Str(Some(s)) if s == "a b"));
    assert!(matches!(Kwarg::default_from_type(KT::Bool), Kwarg::Bool(false)));
    assert!(matches!(Kwarg::default_from_type(KT::Vec), Kwarg::Vec(None)));
    assert!(matches!(Kwarg::default_from_type(KT::Str), Kwarg::Str(None)));
}

#[test]
fn words_are_split_at_whitespace() {
    assert_eq!(get_args("  on \t now\n"), vec!["on", "now"]);
    assert_eq!(get_args(""), Vec::<String>::new());
    assert_eq!(get_args("   "), Vec::<String>::new());
}

#[test]
fn submission_is_taken_apart() {
    let (name, matrix) = get_layout("  My-Layout ```\nQ W E\nA S D\n Z X C\n``` trailing");
    assert_eq!(name, "my-layout");
    assert_eq!(matrix, "q w e\na s d\n z x c");
    assert_eq!(get_layout("name only"), (owned("name only"), owned("")));
    assert_eq!(get_layout(""), (owned(""), owned("")));
    assert_eq!(get_layout("a```b"), (owned("a"), owned("b")));
}

#[test]
fn names_are_checked() {
    assert_eq!(check_name("qwerty"), Ok(()));
    assert_eq!(check_name("a-b_c(1):~'"), Ok(()));
    assert_eq!(check_name("_ab"), Err(owned("Error: names cannot start with an underscore")));
    assert_eq!(check_name("_"), Err(owned("Error: names cannot start with an underscore")));
    assert_eq!(check_name("ab"), Err(owned("Error: names must be at least 3 characters long")));
    assert_eq!(check_name(""), Err(owned("Error: names must be at least 3 characters long")));
    assert_eq!(check_name("a b c"), Err(owned("names cannot contain ` `")));
    assert_eq!(check_name("\u{e9}a"), Err(owned("names cannot contain `\u{e9}`")));
    assert_eq!(check_name("\u{e9}"), Err(owned("Error: names must be at least 3 characters long")));
}

#[test]
fn first_word_is_split_off() {
    assert_eq!(split_word("old   new name"), (owned("old"), owned("new name")));
    assert_eq!(split_word("single"), (owned("single"), owned("")));
    assert_eq!(split_word(""), (owned(""), owned("")));
    assert_eq!(split_word(" x"), (owned(""), owned("x")));
}

#[test]
fn message_has_a_trigger_in_a_channel_only() {
    let m = Message::from("!cmini view  qwerty now", false, 5);
    assert_eq!((m.trigger.as_str(), m.action.as_str(), m.arg.as_str(), m.id), ("!cmini", "view", "qwerty now", 5));
    let m = Message::from("view qwerty", true, 6);
    assert_eq!((m.trigger.as_str(), m.action.as_str(), m.arg.as_str(), m.id), ("", "view", "qwerty", 6));
}
