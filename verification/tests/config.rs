use alfred_tailwindcss_docs::config::{
    algolia_search_config, configuration_value, dotenv_value, RuntimeValue, SettingSources,
};

#[test]
fn runtime_value_takes_precedence_over_other_sources() {
    let value = configuration_value(
        "SETTING",
        RuntimeValue::Present("runtime".to_owned()),
        Some("dotenv"),
        Some("embedded"),
    )
    .unwrap();

    assert_eq!(value, "runtime");
}

#[test]
fn dotenv_value_takes_precedence_over_embedded_value() {
    let value = configuration_value(
        "SETTING",
        RuntimeValue::NotPresent,
        Some("dotenv"),
        Some("embedded"),
    )
    .unwrap();

    assert_eq!(value, "dotenv");
}

#[test]
fn embedded_value_is_used_when_other_sources_are_missing() {
    let value =
        configuration_value("SETTING", RuntimeValue::NotPresent, None, Some("embedded")).unwrap();

    assert_eq!(value, "embedded");
}

#[test]
fn empty_runtime_value_is_rejected() {
    let error = configuration_value(
        "SETTING",
        RuntimeValue::Present(String::new()),
        None,
        Some("embedded"),
    )
    .expect_err("an empty runtime override must be rejected");

    assert_eq!(error.message(), "SETTING must not be empty");
}

#[test]
fn empty_dotenv_value_is_rejected() {
    let error = configuration_value("SETTING", RuntimeValue::NotPresent, Some(""), Some("embedded"))
        .expect_err("an empty dotenv override must be rejected");

    assert_eq!(error.message(), "SETTING must not be empty");
}

#[test]
fn missing_values_are_rejected() {
    let error = configuration_value("SETTING", RuntimeValue::NotPresent, None, None)
        .expect_err("a missing setting must be rejected");

    assert_eq!(
        error.message(),
        "SETTING must be set in the environment, .env file, or embedded at build time"
    );
}

#[test]
fn non_unicode_runtime_value_is_rejected() {
    let error = configuration_value(
        "SETTING",
        RuntimeValue::NotUnicode,
        None,
        Some("embedded"),
    )
    .expect_err("a non-Unicode runtime override must be rejected");

    assert_eq!(error.message(), "SETTING must contain valid Unicode");
}

#[test]
fn empty_embedded_value_counts_as_missing() {
    let error = configuration_value("SETTING", RuntimeValue::NotPresent, None, Some(""))
        .expect_err("an empty embedded value must not be used");

    assert_eq!(
        error.message(),
        "SETTING must be set in the environment, .env file, or embedded at build time"
    );
}

#[test]
fn dotenv_first_assignment_wins() {
    let entries = vec![
        ("OTHER".to_owned(), "x".to_owned()),
        ("SETTING".to_owned(), "first".to_owned()),
        ("SETTING".to_owned(), "second".to_owned()),
    ];

    assert_eq!(dotenv_value(&entries, "SETTING"), Some("first"));
    assert_eq!(dotenv_value(&entries, "MISSING"), None);
}

fn sources(runtime: RuntimeValue, dotenv: Option<&str>) -> SettingSources {
    SettingSources {
        runtime,
        dotenv: dotenv.map(str::to_owned),
        embedded: None,
    }
}

#[test]
fn search_config_fills_missing_runtime_values_from_dotenv() {
    let config = algolia_search_config(
        &sources(RuntimeValue::Present("runtime-app".to_owned()), Some("dotenv-app")),
        &sources(RuntimeValue::NotPresent, Some("dotenv-key")),
        &sources(RuntimeValue::NotPresent, Some("dotenv-index")),
    )
    .unwrap();

    assert_eq!(
        (
            config.application_id.as_str(),
            config.api_key.as_str(),
            config.index_name.as_str()
        ),
        ("runtime-app", "dotenv-key", "dotenv-index")
    );
}

#[test]
fn search_config_rejects_empty_runtime_value_instead_of_using_dotenv() {
    let error = algolia_search_config(
        &sources(RuntimeValue::Present(String::new()), Some("dotenv-app")),
        &sources(RuntimeValue::NotPresent, Some("dotenv-key")),
        &sources(RuntimeValue::NotPresent, Some("dotenv-index")),
    )
    .unwrap_err();

    assert_eq!(error.message(), "ALGOLIA_APPLICATION_ID must not be empty");
}

#[test]
fn search_config_reports_first_missing_setting() {
    let error = algolia_search_config(
        &sources(RuntimeValue::Present("app".to_owned()), None),
        &sources(RuntimeValue::NotPresent, None),
        &sources(RuntimeValue::NotPresent, None),
    )
    .unwrap_err();

    assert_eq!(
        error.message(),
        "ALGOLIA_SEARCH_ONLY_API_KEY must be set in the environment, .env file, or embedded at build time"
    );
}
