use alfred_tailwindcss_docs::models::{SearchResult, SearchResultHierarchy};

fn hierarchy() -> SearchResultHierarchy {
    SearchResultHierarchy {
        lvl0: "Docs".to_owned(),
        lvl1: Some("Background Color".to_owned()),
        lvl2: None,
        lvl3: Some("Usage".to_owned()),
        lvl4: None,
        lvl5: None,
        lvl6: Some("Deep".to_owned()),
    }
}

fn result(result_type: &str) -> SearchResult {
    SearchResult {
        object_id: "id".to_owned(),
        result_type: result_type.to_owned(),
        url: "https://tailwindcss.com/docs".to_owned(),
        hierarchy: hierarchy(),
        content: None,
    }
}

#[test]
fn level_reads_each_hierarchy_value() {
    let h = hierarchy();

    assert_eq!(h.level(0), Some("Docs"));
    assert_eq!(h.level(1), Some("Background Color"));
    assert_eq!(h.level(2), None);
    assert_eq!(h.level(3), Some("Usage"));
    assert_eq!(h.level(6), Some("Deep"));
    assert_eq!(h.level(7), None);
}

#[test]
fn values_lists_present_levels_in_order() {
    assert_eq!(
        hierarchy().values(),
        vec!["Docs", "Background Color", "Usage", "Deep"]
    );
}

#[test]
fn hierarchy_level_reads_lvl_numbers_up_to_six() {
    for level in 0..=6 {
        assert_eq!(result(&format!("lvl{level}")).hierarchy_level().unwrap(), level);
    }
}

#[test]
fn hierarchy_level_accepts_what_usize_parsing_accepts() {
    assert_eq!(result("lvl+3").hierarchy_level().unwrap(), 3);
    assert_eq!(result("lvl003").hierarchy_level().unwrap(), 3);
}

#[test]
fn hierarchy_level_rejects_other_types() {
    for result_type in [
        "lvl",
        "contents",
        "heading",
        "lvl7",
        "lvl-1",
        "lvl+",
        "lvl 1",
        "Lvl1",
        "lvl1x",
        "lvl99999999999999999999999",
    ] {
        let error = result(result_type).hierarchy_level().unwrap_err();
        assert_eq!(
            error.message(),
            format!("invalid Algolia result type: {result_type}")
        );
    }
}

#[test]
fn content_result_is_level_zero() {
    let mut content = result("content");
    content.content = Some("Building complex components.".to_owned());

    assert_eq!(content.hierarchy_level().unwrap(), 0);
}
