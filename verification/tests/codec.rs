use cmini::util::conv::{base64, freq, hash_keys, layout, pos, stats};
use cmini::util::keys::Layout;
use cmini::util::model::{Freq, Metric, Stat};

fn sample_layout() -> Layout {
    let mut keys = Layout::new();
    keys.insert('s', (1, 1, 2));
    keys.insert('a', (1, 0, 3));
    keys.insert('q', (0, 0, 0));
    keys
}

fn sorted(mut entries: Vec<(char, (u8, u8, u16))>) -> Vec<(char, (u8, u8, u16))> {
    entries.sort();
    entries
}

#[test]
fn base64_symbols_round_trip() {
    for value in 0u8..64 {
        let symbol = base64::pack(value);
        assert!(base64::is_alphabet(symbol));
        assert_eq!(base64::unpack(symbol), u32::from(value));
    }
    assert_eq!(base64::pack(0), 'A');
    assert_eq!(base64::pack(25), 'Z');
    assert_eq!(base64::pack(26), 'a');
    assert_eq!(base64::pack(51), 'z');
    assert_eq!(base64::pack(52), '0');
    assert_eq!(base64::pack(61), '9');
    assert_eq!(base64::pack(62), '+');
    assert_eq!(base64::pack(63), '/');
    assert_eq!(base64::pack(200), '/');
    assert_eq!(base64::unpack('+'), 62);
    assert_eq!(base64::unpack('/'), 63);
    assert!(!base64::is_alphabet('-'));
}

#[test]
fn position_packs_to_three_hex_digits() {
    assert_eq!(pos::pack(&(1, 10, 9)), "1a9");
    assert_eq!(pos::pack(&(0, 0, 0)), "000");
    assert_eq!(pos::pack(&(17, 255, 0x123)), "1f3");
    assert_eq!(pos::unpack("1a9"), (1, 10, 9));
    assert_eq!(pos::unpack("1A9"), (1, 10, 9));
    assert_eq!(pos::parse('1', 'a', '9'), Some((1, 10, 9)));
    assert_eq!(pos::parse('+', 'a', '9'), None);
    assert_eq!(pos::parse('g', '0', '0'), None);
}

#[test]
fn frequency_is_rounded_to_units() {
    assert_eq!(freq::units(Freq { num: 1, den: 3 }), 33333);
    assert_eq!(freq::units(Freq { num: 2, den: 3 }), 66667);
    assert_eq!(freq::units(Freq { num: 1, den: 200000 }), 1);
    assert_eq!(freq::units(Freq { num: 1, den: 200001 }), 0);
    assert_eq!(freq::units(Freq { num: 1, den: 1 }), 100000);
    assert_eq!(freq::units(Freq { num: 0, den: 0 }), 0);
    assert_eq!(freq::units(Freq { num: 5, den: 0 }), u32::MAX);
    assert_eq!(freq::units(Freq { num: u64::MAX, den: 1 }), u32::MAX);
}

#[test]
fn frequency_packs_to_three_symbols() {
    assert_eq!(freq::pack(Freq { num: 0, den: 1 }), ['A', 'A', 'A']);
    // 100000 = 24 * 4096 + 26 * 64 + 32
    assert_eq!(freq::pack(Freq { num: 1, den: 1 }), ['Y', 'a', 'g']);
    assert_eq!(freq::unpack(&['Y', 'a', 'g']), Freq { num: 100000, den: 100000 });
    assert_eq!(freq::unpack(&['/', '/', '/']), Freq { num: 262143, den: 100000 });
}

#[test]
fn packed_frequency_is_within_one_unit() {
    for (num, den) in [(1u64, 3u64), (2, 7), (12345, 99999), (0, 5), (5, 5), (9, 70)] {
        let f = Freq { num, den };
        let g = freq::unpack(&freq::pack(f));
        assert_eq!(g.den, 100000);
        let exact = num as f64 / den as f64;
        let back = g.num as f64 / g.den as f64;
        assert!((exact - back).abs() <= 1e-5);
    }
}

#[test]
fn layout_packs_in_order_of_row_and_column() {
    let keys = sample_layout();
    assert_eq!(layout::pack(&keys), "q000a103s112");
}

#[test]
fn layout_pack_does_not_depend_on_insertion_order() {
    let mut other = Layout::new();
    other.insert('q', (0, 0, 0));
    other.insert('a', (1, 0, 3));
    other.insert('s', (1, 1, 2));
    assert_eq!(layout::pack(&other), layout::pack(&sample_layout()));
}

#[test]
fn layout_unpack_reverses_pack() {
    let keys = sample_layout();
    let back = layout::unpack(&layout::pack(&keys));
    assert_eq!(sorted(back.entries()), sorted(keys.entries()));
    assert_eq!(back.len(), 3);
    assert_eq!(back.get('a'), Some((1, 0, 3)));
    assert_eq!(back.get('z'), None);
}

#[test]
fn layout_unpack_refuses_bad_text() {
    assert!(layout::try_unpack("").is_some());
    assert!(layout::try_unpack("q00").is_none());
    assert!(layout::try_unpack("q0g0").is_none());
    assert!(layout::try_unpack("q+00").is_none());
    assert!(layout::try_unpack("q000q101").is_none());
    assert!(layout::try_unpack("q000a101").is_some());
}

#[test]
fn layout_ties_are_ordered_by_key() {
    let mut keys = Layout::new();
    keys.insert('b', (0, 0, 1));
    keys.insert('a', (0, 0, 2));
    assert_eq!(layout::pack(&keys), "a002b001");
}

#[test]
fn stat_packs_to_forty_two_symbols() {
    let mut freqs = Vec::new();
    for i in 0..14u64 {
        freqs.push(Freq { num: i, den: 91 });
    }
    let stat = Stat::new(freqs).unwrap();
    let packed = stats::pack(&stat);
    assert_eq!(packed.chars().count(), 42);
    let back = stats::unpack(&packed);
    for i in 0..14u8 {
        let metric = Metric::unpack(i);
        let f = stat.get(metric);
        let g = back.get(metric);
        assert_eq!(g.den, 100000);
        assert_eq!(g.num, u64::from(freq::units(f)));
        assert!((f.num as f64 / f.den as f64 - g.num as f64 / g.den as f64).abs() <= 1e-5);
    }
}

#[test]
fn stat_unpack_refuses_bad_text() {
    assert!(stats::try_unpack("AAA").is_none());
    assert!(stats::try_unpack(&"A".repeat(42)).is_some());
    assert!(stats::try_unpack(&"-".repeat(42)).is_none());
    assert!(Stat::new(vec![Freq { num: 0, den: 1 }; 13]).is_none());
}

#[test]
fn checksum_changes_with_the_text() {
    assert_eq!(hash_keys("q000a103"), hash_keys("q000a103"));
    assert_ne!(hash_keys("q000a103"), hash_keys("q000a113"));
    assert_ne!(hash_keys("q000a103"), 0);
}

#[test]
fn metric_names_and_numbers() {
    assert_eq!(Metric::from_str("sfb"), Metric::Sfb);
    assert_eq!(Metric::from_str("bad-red-sfs"), Metric::BadRedSfs);
    assert_eq!(Metric::from_str("inoneh"), Metric::InOne);
    assert_eq!(Metric::from_str("unknown"), Metric::Unknown);
    assert_eq!(Metric::parse("Sfb"), None);
    assert_eq!(Metric::parse(""), None);
    for i in 0..14u8 {
        assert_eq!(Metric::unpack(i).pack(), i);
    }
    assert_eq!(Metric::Sfb.pack(), 0);
    assert_eq!(Metric::Unknown.pack(), 13);
}
