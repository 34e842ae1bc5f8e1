use alfred_tailwindcss_docs::cli::Cli;
use alfred_tailwindcss_docs::models::{SearchResult, SearchResultHierarchy};
use alfred_tailwindcss_docs::workflow::{
    cache_plan, file_cache_key, items_for_search, population_action, population_start,
    update_item, update_notice, workflow_settings_from_defaults, FileCachePlan,
    PopulationAction, UserDefault, WorkflowSettings,
};

fn settings(version: &str) -> WorkflowSettings {
    WorkflowSettings {
        tailwind_version: version.to_owned(),
        use_alfred_cache: false,
        use_file_cache: false,
        cache_ttl: Some(86_400),
        file_cache_max_entries: Some(1_280),
    }
}

#[test]
fn file_cache_key_includes_normalized_query_and_version() {
    assert_eq!(
        file_cache_key("background color", "v4"),
        "background color_v4"
    );
}

#[test]
fn automatic_cache_wins_when_both_modes_are_enabled() {
    let mut settings = settings("v4");
    settings.use_alfred_cache = true;
    settings.use_file_cache = true;

    let plan = cache_plan("background", &settings);

    assert_eq!((plan.use_automatic_cache, plan.file_cache), (true, None));
}

#[test]
fn file_cache_uses_versioned_key_and_entry_limit() {
    let mut settings = settings("v4");
    settings.use_file_cache = true;

    let plan = cache_plan("background", &settings);

    assert_eq!(
        (plan.use_automatic_cache, plan.file_cache, plan.time_to_live),
        (
            false,
            Some(FileCachePlan {
                key: "background_v4".to_owned(),
                max_entries: Some(1_280),
            }),
            Some(86_400)
        )
    );
}

#[test]
fn empty_query_does_not_enter_file_cache() {
    let mut settings = settings("v4");
    settings.use_file_cache = true;

    let start = population_start(&Cli::default(), &settings);

    assert_eq!(start.cache.file_cache, None);
    assert!(matches!(
        population_action(&start.query, "v4", None),
        PopulationAction::Show(_)
    ));
}

#[test]
fn empty_query_shows_placeholder_without_searching() {
    let start = population_start(&Cli::default(), &settings("v4"));

    match population_action(&start.query, "v4", Some(0)) {
        PopulationAction::Show(item) => {
            assert_eq!(item.title(), "Search the Tailwind CSS docs...");
        }
        other => panic!("unexpected action: {other:?}"),
    }
}

#[test]
fn file_cache_entries_are_version_specific() {
    assert_ne!(
        file_cache_key("background", "v3"),
        file_cache_key("background", "v4")
    );
}

#[test]
fn query_of_only_the_version_shows_placeholder() {
    let cli = Cli {
        query: "v4".to_owned(),
        ..Cli::default()
    };
    let start = population_start(&cli, &settings("v4"));

    assert_eq!(start.query.as_str(), "");
    assert!(matches!(
        population_action(&start.query, "v4", None),
        PopulationAction::Show(_)
    ));
}

#[test]
fn non_empty_query_is_normalized_and_searched() {
    let mut settings = settings("v4");
    settings.use_file_cache = true;
    let cli = Cli {
        query: " Background  v4 ".to_owned(),
        ..Cli::default()
    };
    let start = population_start(&cli, &settings);

    assert_eq!(start.query, "background");
    assert_eq!(
        population_action(&start.query, "v4", None),
        PopulationAction::CheckCache
    );
    assert_eq!(
        population_action(&start.query, "v4", Some(0)),
        PopulationAction::Search {
            query: "background".to_owned(),
            version: "v4".to_owned()
        }
    );
    assert_eq!(
        start.cache.file_cache.map(|cache| cache.key),
        Some("background_v4".to_owned())
    );
}

#[test]
fn plist_defaults_map_to_runtime_settings() {
    let defaults = vec![
        ("cache_ttl".to_owned(), UserDefault::NumberSlider(86_400)),
        ("file_cache_max_entries".to_owned(), UserDefault::NumberSlider(1_280)),
        ("tailwind_version".to_owned(), UserDefault::Select("v4".to_owned())),
        ("use_alfred_cache".to_owned(), UserDefault::CheckBox(true)),
        ("use_file_cache".to_owned(), UserDefault::CheckBox(false)),
    ];

    assert_eq!(
        workflow_settings_from_defaults(&defaults).unwrap(),
        WorkflowSettings {
            tailwind_version: "v4".to_owned(),
            use_alfred_cache: true,
            use_file_cache: false,
            cache_ttl: Some(86_400),
            file_cache_max_entries: Some(1_280),
        }
    );
}

#[test]
fn settings_require_a_selected_version() {
    let defaults = vec![
        ("tailwind_version".to_owned(), UserDefault::CheckBox(true)),
        ("use_alfred_cache".to_owned(), UserDefault::CheckBox(true)),
    ];

    let error = workflow_settings_from_defaults(&defaults).unwrap_err();

    assert_eq!(error.message(), "tailwind_version not set!");
}

#[test]
fn settings_ignore_negative_sliders_and_missing_checkboxes() {
    let defaults = vec![
        ("tailwind_version".to_owned(), UserDefault::Select("v3".to_owned())),
        ("cache_ttl".to_owned(), UserDefault::NumberSlider(-1)),
        ("file_cache_max_entries".to_owned(), UserDefault::Select("10".to_owned())),
    ];

    assert_eq!(
        workflow_settings_from_defaults(&defaults).unwrap(),
        WorkflowSettings {
            tailwind_version: "v3".to_owned(),
            use_alfred_cache: false,
            use_file_cache: false,
            cache_ttl: None,
            file_cache_max_entries: None,
        }
    );
}

#[test]
fn update_item_is_offered_only_when_an_update_is_available() {
    assert_eq!(update_notice(Some(true)), Some(update_item()));
    assert_eq!(update_notice(Some(false)), None);
    assert_eq!(update_notice(None), None);
    let item = update_item();
    assert_eq!(
        (item.title(), item.arg(), item.valid()),
        ("Auto-Update available!", Some("update:workflow"), true)
    );
}

#[test]
fn search_without_hits_offers_google() {
    let items = items_for_search("background color", &[]).unwrap();

    assert_eq!(items.len(), 1);
    assert_eq!(
        items[0].arg(),
        Some("https://www.google.com/search?q=Tailwind+CSS+background+color")
    );
}

#[test]
fn search_with_hits_lists_them() {
    let result = SearchResult {
        object_id: "flex".to_owned(),
        result_type: "lvl0".to_owned(),
        url: "https://tailwindcss.com/docs/flex".to_owned(),
        hierarchy: SearchResultHierarchy {
            lvl0: "Flex".to_owned(),
            lvl1: None,
            lvl2: None,
            lvl3: None,
            lvl4: None,
            lvl5: None,
            lvl6: None,
        },
        content: None,
    };

    let items = items_for_search("flex", &[result]).unwrap();

    assert_eq!(
        items.iter().map(|item| item.title()).collect::<Vec<_>>(),
        vec!["Flex"]
    );
}

#[test]
fn file_cache_hit_bypasses_algolia() {
    assert_eq!(
        population_action("background", "v4", Some(1)),
        PopulationAction::KeepCached
    );
}
