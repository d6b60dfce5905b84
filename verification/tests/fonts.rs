use svg_page::fonts::sorted_families;

fn names(list: &[&str]) -> Vec<String> {
    list.iter().map(|name| name.to_string()).collect()
}

#[test]
fn families_are_sorted_and_unique() {
    let given = names(&["Zeta", "Alpha", "Zeta", "beta", "Alpha", "Mono"]);
    assert_eq!(sorted_families(&given), names(&["Alpha", "Mono", "Zeta", "beta"]));
}

#[test]
fn families_of_nothing() {
    assert_eq!(sorted_families(&Vec::new()), Vec::<String>::new());
    assert_eq!(sorted_families(&names(&["Solo"])), names(&["Solo"]));
    assert_eq!(sorted_families(&names(&["Solo", "Solo", "Solo"])), names(&["Solo"]));
}

#[test]
fn families_order_by_character_codes() {
    let given = names(&["b", "a", "", "ab", "B", "é", "z", "a\u{10000}", "a\u{ffff}", "aa"]);
    let mut expected = given.clone();
    expected.sort();
    expected.dedup();
    assert_eq!(sorted_families(&given), expected);
    assert_eq!(
        sorted_families(&given),
        names(&["", "B", "a", "aa", "ab", "a\u{ffff}", "a\u{10000}", "b", "z", "é"])
    );
}

#[test]
fn families_keep_every_name_once() {
    let given = names(&["Noto Sans", "Arial", "Noto Serif", "Arial", "DejaVu Sans", "Noto Sans"]);
    let families = sorted_families(&given);
    for name in &given {
        assert_eq!(families.iter().filter(|family| *family == name).count(), 1);
    }
    for family in &families {
        assert!(given.contains(family));
    }
    for pair in families.windows(2) {
        assert!(pair[0] < pair[1]);
    }
}
