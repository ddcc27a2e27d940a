use lighter_mm_dryrun::axes::{name_less, sort_axis_names};

#[test]
fn axis_names_sort_like_string_ord() {
    let names: Vec<String> = vec!["vol_to_half_spread", "skew", "c1_ticks", "Skew", "c1", "ü", "z"]
        .into_iter()
        .map(String::from)
        .collect();
    let sorted = sort_axis_names(&names);
    let mut expected = names.clone();
    expected.sort();
    assert_eq!(sorted, expected);
    assert_eq!(sorted, vec!["Skew", "c1", "c1_ticks", "skew", "vol_to_half_spread", "z", "ü"]);
}

#[test]
fn duplicate_and_empty_names_are_kept() {
    let names: Vec<String> = vec!["b", "", "a", "b"].into_iter().map(String::from).collect();
    assert_eq!(sort_axis_names(&names), vec!["", "a", "b", "b"]);
    assert!(sort_axis_names(&Vec::new()).is_empty());
}

#[test]
fn name_comparison_is_bytewise() {
    assert!(name_less("c1", "c1_ticks"));
    assert!(!name_less("c1_ticks", "c1"));
    assert!(!name_less("skew", "skew"));
    assert!(name_less("Z", "a"));
    assert!(name_less("z", "é"));
    assert!(name_less("", "a"));
    assert!(!name_less("a", ""));
}
