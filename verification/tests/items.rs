use alfred_tailwindcss_docs::items::{
    google_fallback_item, item_from_result, items_from_results, placeholder_item, AlfredItem,
};
use alfred_tailwindcss_docs::models::{SearchResult, SearchResultHierarchy};

fn result(result_type: &str) -> SearchResult {
    SearchResult {
        object_id: "background-color".to_owned(),
        result_type: result_type.to_owned(),
        url: "https://tailwindcss.com/docs/background-color".to_owned(),
        hierarchy: SearchResultHierarchy {
            lvl0: "Docs &amp; Guides".to_owned(),
            lvl1: Some("Background &amp; Color".to_owned()),
            lvl2: None,
            lvl3: None,
            lvl4: None,
            lvl5: None,
            lvl6: None,
        },
        content: None,
    }
}

#[test]
fn items_from_results_preserves_provider_order() {
    let mut second = result("content");
    second.object_id = "second".to_owned();

    let items = items_from_results(&[result("lvl1"), second]).unwrap();

    assert_eq!(
        items.iter().map(AlfredItem::uid).collect::<Vec<_>>(),
        vec![Some("background-color"), Some("second")]
    );
}

#[test]
fn content_item_uses_root_title_without_breadcrumb() {
    let items = items_from_results(&[result("content")]).unwrap();

    assert_eq!(
        (items[0].title(), items[0].subtitle()),
        ("Docs &amp; Guides", None)
    );
}

#[test]
fn item_uses_selected_hierarchy_level_as_title() {
    let items = items_from_results(&[result("lvl1")]).unwrap();

    assert_eq!(items[0].title(), "Background &amp; Color");
}

#[test]
fn item_decodes_html_entities_in_breadcrumb() {
    let items = items_from_results(&[result("lvl1")]).unwrap();

    assert_eq!(
        items[0].subtitle(),
        Some("Docs & Guides > Background & Color")
    );
}

#[test]
fn item_preserves_url_fields() {
    let items = items_from_results(&[result("lvl1")]).unwrap();
    let item = &items[0];

    assert_eq!(
        (item.arg(), item.quick_look_url(), item.valid()),
        (
            Some("https://tailwindcss.com/docs/background-color"),
            Some("https://tailwindcss.com/docs/background-color"),
            true,
        )
    );
}

#[test]
fn item_rejects_missing_selected_hierarchy_level() {
    let error = items_from_results(&[result("lvl2")])
        .expect_err("missing hierarchy level must be rejected");

    assert_eq!(
        error.message(),
        "Algolia result background-color is missing hierarchy level 2"
    );
}

#[test]
fn item_rejects_invalid_result_type() {
    let error =
        items_from_results(&[result("heading")]).expect_err("invalid result type must be rejected");

    assert_eq!(error.message(), "invalid Algolia result type: heading");
}

#[test]
fn google_fallback_encodes_query_and_is_selectable() {
    let item = google_fallback_item("background color").unwrap();

    assert_eq!(
        (item.arg(), item.valid()),
        (
            Some("https://www.google.com/search?q=Tailwind+CSS+background+color"),
            true,
        )
    );
}

#[test]
fn google_fallback_percent_encodes_reserved_characters() {
    let item = google_fallback_item("a&b=c").unwrap();

    assert_eq!(
        item.arg(),
        Some("https://www.google.com/search?q=Tailwind+CSS+a%26b%3Dc")
    );
    assert_eq!(item.quick_look_url(), item.arg());
    assert_eq!(item.title(), "No matching answers found");
    assert_eq!(item.subtitle(), Some("Shall I try and search Google?"));
}

#[test]
fn placeholder_is_not_selectable() {
    assert!(!placeholder_item().valid());
}

#[test]
fn item_carries_uid_copy_text_large_type_and_icon() {
    let item = item_from_result(&result("lvl1")).unwrap();
    let text = item.text.clone().unwrap();

    assert_eq!(item.uid(), Some("background-color"));
    assert_eq!(text.copy, "https://tailwindcss.com/docs/background-color");
    assert_eq!(text.large_type.as_deref(), Some("Background &amp; Color"));
    assert_eq!(item.icon.as_deref(), Some("icon.png"));
}

#[test]
fn empty_result_list_gives_no_items() {
    assert!(items_from_results(&[]).unwrap().is_empty());
}

#[test]
fn deep_breadcrumb_joins_every_present_level() {
    let mut deep = result("lvl3");
    deep.hierarchy.lvl3 = Some("Using &lt;div&gt;".to_owned());

    let item = item_from_result(&deep).unwrap();

    assert_eq!(item.title(), "Using &lt;div&gt;");
    assert_eq!(
        item.subtitle(),
        Some("Docs & Guides > Background & Color > Using <div>")
    );
}
