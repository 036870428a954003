use bigecho::tags::collect_known_tags;

#[test]
fn collect_known_tags_returns_sorted_unique_non_empty_tags() {
    let first = vec![
        "project/acme".to_string(),
        "call/sales".to_string(),
        "project/acme".to_string(),
        " ".to_string(),
    ];
    let second = vec!["person/ivan".to_string(), "call/sales".to_string()];

    let tags = collect_known_tags(&vec![first, second]);

    assert_eq!(
        tags,
        vec![
            "call/sales".to_string(),
            "person/ivan".to_string(),
            "project/acme".to_string()
        ]
    );
}

#[test]
fn collect_known_tags_trims_and_handles_no_sessions() {
    assert!(collect_known_tags(&Vec::new()).is_empty());
    let tags = collect_known_tags(&vec![vec!["  b ".to_string()], vec![], vec!["a".to_string(), "b".to_string()]]);
    assert_eq!(tags, vec!["a".to_string(), "b".to_string()]);
}

#[test]
fn normalizing_known_tags_again_changes_nothing() {
    let once = bigecho::tags::normalize_tags(vec![
        " zoom ".to_string(),
        "call/sales".to_string(),
        "".to_string(),
        "zoom".to_string(),
    ]);
    assert_eq!(once, vec!["call/sales".to_string(), "zoom".to_string()]);
    assert_eq!(bigecho::tags::normalize_tags(once.clone()), once);
}
