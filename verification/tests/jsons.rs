use cmini::util::corpora::{is_listed, set_user_corpus, Prefs};

#[test]
fn test_get_vec_str() {
    let path = "./pairs.json";
    let text = "[\"english\", \"mt-quotes\"]";
    let vec: Vec<String> = serde_json::from_str(text).unwrap();
    println!("{path}: {vec:?}");
    assert!(is_listed(&vec, "english"));
    let mut prefs = Prefs::new();
    assert_eq!(set_user_corpus(&mut prefs, &vec, 1, "English"), Ok(()));
}
