use cmini::util::analyzer::{classify, fingers_usage, trigrams, Table};
use cmini::util::jsons::{get_table, TableError};
use cmini::util::keys::Layout;
use cmini::util::model::{Freq, LayoutConfig, Metric, StatError};

fn config(keys: Layout) -> LayoutConfig {
    LayoutConfig::new("test".to_string(), 1, "ortho".to_string(), keys)
}

fn home_row() -> Layout {
    let mut keys = Layout::new();
    keys.insert('a', (1, 0, 3));
    keys.insert('s', (1, 1, 2));
    keys.insert('k', (1, 7, 7));
    keys.insert('l', (1, 8, 8));
    keys
}

fn table() -> Table {
    let entries = vec![
        ("LILMRM".to_string(), "inroll".to_string()),
        ("LILMRR".to_string(), "alt".to_string()),
        ("RMRRLI".to_string(), "outroll".to_string()),
    ];
    get_table(&entries).unwrap()
}

#[test]
fn unassigned_key_is_unknown() {
    let mut keys = Layout::new();
    keys.insert('a', (1, 0, 3));
    keys.insert('s', (1, 1, 2));
    assert_eq!(classify(&['a', 's', 'd'], &keys, &table()), Some(Metric::Unknown));
}

#[test]
fn repeated_key_is_same_finger_whatever_the_table() {
    let keys = home_row();
    assert_eq!(classify(&['a', 'a', 'a'], &keys, &table()), Some(Metric::Sfr));
    assert_eq!(classify(&['a', 'a', 'a'], &keys, &Table::new()), Some(Metric::Sfr));
    assert_eq!(classify(&['a', 's', 'a'], &keys, &Table::new()), Some(Metric::Sfr));
    assert_eq!(classify(&['z', 'z', 'q'], &Layout::new(), &Table::new()), Some(Metric::Sfr));
}

#[test]
fn boundary_gram_is_not_classified() {
    let keys = home_row();
    assert_eq!(classify(&['a', ' ', 's'], &keys, &table()), None);
    assert_eq!(classify(&[' ', ' ', ' '], &keys, &table()), None);
}

#[test]
fn classify_reads_the_table() {
    let keys = home_row();
    let table = table();
    assert_eq!(classify(&['a', 's', 'k'], &keys, &table), Some(Metric::InRoll));
    assert_eq!(classify(&['a', 's', 'l'], &keys, &table), Some(Metric::Alt));
    assert_eq!(classify(&['k', 'l', 'a'], &keys, &table), Some(Metric::OutRoll));
    assert_eq!(classify(&['s', 'a', 'k'], &keys, &table), Some(Metric::Unknown));
    assert_eq!(classify(&['a', 's', 'k'], &keys, &table), classify(&['a', 's', 'k'], &keys, &table));
}

#[test]
fn finger_that_does_not_fit_is_unknown() {
    let mut keys = home_row();
    keys.insert('x', (2, 0, 16));
    assert_eq!(classify(&['x', 'a', 's'], &keys, &table()), Some(Metric::Unknown));
}

#[test]
fn trigram_frequencies_add_up_to_one() {
    let ll = config(home_row());
    let grams = vec![
        (['a', 's', 'k'], 5u64),
        (['a', 's', 'l'], 3),
        (['a', ' ', 'l'], 100),
        (['a', 'a', 'l'], 2),
        (['a', 's', 'z'], 1),
        (['k', 'l', 'a'], 4),
    ];
    let stat = trigrams(&ll, &table(), &grams).unwrap();
    assert_eq!(stat.get(Metric::InRoll), Freq { num: 5, den: 15 });
    assert_eq!(stat.get(Metric::Alt), Freq { num: 3, den: 15 });
    assert_eq!(stat.get(Metric::Sfr), Freq { num: 2, den: 15 });
    assert_eq!(stat.get(Metric::Unknown), Freq { num: 1, den: 15 });
    assert_eq!(stat.get(Metric::OutRoll), Freq { num: 4, den: 15 });
    assert_eq!(stat.get(Metric::Sfb), Freq { num: 0, den: 15 });
    let mut sum = 0.0;
    for i in 0..14u8 {
        let f = stat.get(Metric::unpack(i));
        sum += f.num as f64 / f.den as f64;
    }
    assert!((sum - 1.0f64).abs() <= 1e-5);
}

#[test]
fn trigrams_of_nothing_counted_is_an_error() {
    let ll = config(home_row());
    assert_eq!(trigrams(&ll, &table(), &[]).err(), Some(StatError::ZeroTotal));
    let only_boundary = vec![(['a', ' ', 'l'], 100u64)];
    assert_eq!(trigrams(&ll, &table(), &only_boundary).err(), Some(StatError::ZeroTotal));
    let zero = vec![(['a', 's', 'k'], 0u64)];
    assert_eq!(trigrams(&ll, &table(), &zero).err(), Some(StatError::ZeroTotal));
}

#[test]
fn trigrams_past_the_limit_is_an_error() {
    let ll = config(home_row());
    let grams = vec![(['a', 's', 'k'], u64::MAX), (['a', 's', 'l'], 1)];
    assert_eq!(trigrams(&ll, &table(), &grams).err(), Some(StatError::TooLarge));
    let same = vec![(['a', 's', 'k'], u64::MAX), (['a', 's', 'k'], 1)];
    assert_eq!(trigrams(&ll, &table(), &same).err(), Some(StatError::TooLarge));
    let fits = vec![(['a', 's', 'k'], u64::MAX - 1), (['a', 's', 'l'], 1)];
    assert!(trigrams(&ll, &table(), &fits).is_ok());
}

#[test]
fn finger_usage_counts_hands() {
    let ll = config(home_row());
    let grams = vec![([('a')], 6u64), (['s'], 2), (['k'], 1), (['l'], 1), (['z'], 50)];
    let usage = fingers_usage(&ll, &grams).unwrap();
    assert_eq!(usage.get(3), Some(Freq { num: 6, den: 10 }));
    assert_eq!(usage.get(2), Some(Freq { num: 2, den: 10 }));
    assert_eq!(usage.get(7), Some(Freq { num: 1, den: 10 }));
    assert_eq!(usage.get(8), Some(Freq { num: 1, den: 10 }));
    assert_eq!(usage.get(0), Some(Freq { num: 0, den: 10 }));
    assert_eq!(usage.get(10), Some(Freq { num: 8, den: 10 }));
    assert_eq!(usage.get(11), Some(Freq { num: 2, den: 10 }));
    assert_eq!(usage.get(12), None);
    assert_eq!(fingers_usage(&ll, &[(['z'], 5u64)]).err(), Some(StatError::ZeroTotal));
    let big = vec![(['a'], u64::MAX), (['s'], 1)];
    assert_eq!(fingers_usage(&ll, &big).err(), Some(StatError::TooLarge));
}

#[test]
fn table_is_filled_from_names() {
    let table = table();
    // LI = 3, LM = 2, RM = 7: 3 * 256 + 2 * 16 + 7
    assert_eq!(table.get(0x327), Metric::InRoll);
    assert_eq!(table.get(0x328), Metric::Alt);
    assert_eq!(table.get(0x783), Metric::OutRoll);
    assert_eq!(table.get(0), Metric::Unknown);
    assert_eq!(table.get(4095), Metric::Unknown);
    let later = vec![
        ("LPLPLP".to_string(), "sft".to_string()),
        ("LPLPLPx".to_string(), "sfb".to_string()),
    ];
    assert_eq!(get_table(&later).unwrap().get(0), Metric::Sfb);
}

#[test]
fn table_refuses_unknown_names() {
    let bad_finger = vec![
        ("LILMRM".to_string(), "inroll".to_string()),
        ("LILMXX".to_string(), "alt".to_string()),
    ];
    assert_eq!(get_table(&bad_finger).err(), Some(TableError::BadFingers(1)));
    let short = vec![("LILM".to_string(), "alt".to_string())];
    assert_eq!(get_table(&short).err(), Some(TableError::BadFingers(0)));
    let bad_metric = vec![("LILMRM".to_string(), "roll".to_string())];
    assert_eq!(get_table(&bad_metric).err(), Some(TableError::BadMetric(0)));
}
