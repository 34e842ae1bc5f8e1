use alfred_tailwindcss_docs::cli::{Cli, CliError};

fn args(values: &[&str]) -> Vec<String> {
    values.iter().map(|value| (*value).to_owned()).collect()
}

fn parse_error(values: &[&str]) -> CliError {
    match Cli::parse(args(values)) {
        Ok(cli) => panic!("expected an error, got {cli:?}"),
        Err(error) => error,
    }
}

#[test]
fn parse_reads_query_and_flags() {
    let cli = Cli::parse(args(&["-q", "  v4   Background Color ", "--verbose"])).unwrap();

    assert_eq!(
        cli,
        Cli {
            query: "  v4   Background Color ".to_owned(),
            verbose: true,
            update: false,
        }
    );
}

#[test]
fn normalized_query_removes_selected_version_and_collapses_whitespace() {
    let cli = Cli {
        query: "  v4   Background Color v4 ".to_owned(),
        ..Cli::default()
    };

    assert_eq!(cli.normalized_query("v4"), "background color");
}

#[test]
fn parse_rejects_missing_query_value() {
    let error = parse_error(&["--query"]);

    assert_eq!(error.message(), "--query requires a value");
}

#[test]
fn parse_rejects_missing_short_query_value() {
    let error = parse_error(&["-q"]);

    assert_eq!(error.message(), "-q requires a value");
}

#[test]
fn parse_rejects_long_query_followed_by_verbose_flag() {
    let error = parse_error(&["--query", "--verbose"]);

    assert_eq!(error.message(), "--query requires a value");
}

#[test]
fn parse_rejects_short_query_followed_by_update_flag() {
    let error = parse_error(&["-q", "-u"]);

    assert_eq!(error.message(), "-q requires a value");
}

#[test]
fn parse_accepts_unrecognized_dash_prefixed_query() {
    let cli = Cli::parse(args(&["-q", "--force"])).unwrap();

    assert_eq!(cli.query, "--force");
}

#[test]
fn parse_accepts_recognized_flag_text_with_equals_query() {
    let cli = Cli::parse(args(&["--query=-u"])).unwrap();

    assert_eq!(cli.query, "-u");
}

#[test]
fn parse_accepts_attached_short_query_value() {
    let cli = Cli::parse(args(&["-qbackground"])).unwrap();

    assert_eq!(cli.query, "background");
}

#[test]
fn parse_accepts_collapsed_short_flags() {
    let cli = Cli::parse(args(&["-vu"])).unwrap();

    assert_eq!(
        cli,
        Cli {
            query: String::new(),
            verbose: true,
            update: true,
        }
    );
}

#[test]
fn parse_accepts_collapsed_flags_with_attached_query() {
    let cli = Cli::parse(args(&["-vuqbackground"])).unwrap();

    assert_eq!(
        cli,
        Cli {
            query: "background".to_owned(),
            verbose: true,
            update: true,
        }
    );
}

#[test]
fn parse_accepts_collapsed_flags_with_separated_query() {
    let cli = Cli::parse(args(&["-vq", "background"])).unwrap();

    assert_eq!(
        cli,
        Cli {
            query: "background".to_owned(),
            verbose: true,
            update: false,
        }
    );
}

#[test]
fn parse_rejects_unknown_flag_in_cluster() {
    let error = parse_error(&["-vx"]);

    assert_eq!(error.message(), "unknown argument: -vx");
}

#[test]
fn parse_rejects_cluster_query_without_value() {
    let error = parse_error(&["-vq"]);

    assert_eq!(error.message(), "-q requires a value");
}

#[test]
fn parse_rejects_unknown_arguments() {
    let error = parse_error(&["--unknown"]);

    assert_eq!(error.message(), "unknown argument: --unknown");
}

#[test]
fn parse_of_nothing_is_the_default() {
    assert_eq!(Cli::parse(Vec::new()).unwrap(), Cli::default());
}

#[test]
fn parse_reads_long_flags_and_separated_long_query() {
    let cli = Cli::parse(args(&["--update", "--query", "grid", "--verbose"])).unwrap();

    assert_eq!(
        cli,
        Cli {
            query: "grid".to_owned(),
            verbose: true,
            update: true,
        }
    );
}

#[test]
fn parse_keeps_the_last_query() {
    let cli = Cli::parse(args(&["-q", "first", "--query=second"])).unwrap();

    assert_eq!(cli.query, "second");
}

#[test]
fn parse_rejects_positional_argument_and_lone_dashes() {
    assert_eq!(parse_error(&["background"]).message(), "unknown argument: background");
    assert_eq!(parse_error(&["-"]).message(), "unknown argument: -");
    assert_eq!(parse_error(&["--"]).message(), "unknown argument: --");
}

#[test]
fn parse_takes_dash_prefixed_value_after_short_cluster_query() {
    let cli = Cli::parse(args(&["-uq", "-x"])).unwrap();

    assert_eq!((cli.query.as_str(), cli.update), ("-x", true));
}

#[test]
fn normalized_query_lowercases_unicode_and_splits_on_unicode_whitespace() {
    let cli = Cli {
        query: "GRID\u{00A0}Template\tÄREAS\n".to_owned(),
        ..Cli::default()
    };

    assert_eq!(cli.normalized_query("v3"), "grid template äreas");
}

#[test]
fn normalized_query_of_only_the_version_is_empty() {
    let cli = Cli {
        query: " v4  v4 ".to_owned(),
        ..Cli::default()
    };

    assert_eq!(cli.normalized_query("v4"), "");
}

#[test]
fn normalized_query_keeps_words_that_merely_contain_the_version() {
    let cli = Cli {
        query: "v4-colors V4 v4".to_owned(),
        ..Cli::default()
    };

    assert_eq!(cli.normalized_query("v4"), "v4-colors v4");
}

#[test]
fn no_option_word_is_taken_as_a_query_value() {
    for word in ["-q", "--query", "-v", "--verbose", "-u", "--update"] {
        assert_eq!(parse_error(&["-q", word]).message(), "-q requires a value");
        assert_eq!(
            parse_error(&["--query", word]).message(),
            "--query requires a value"
        );
    }
}

#[test]
fn normalized_query_words_are_separated_by_single_spaces() {
    let cli = Cli {
        query: "\t grid \n\n template   v4  areas ".to_owned(),
        ..Cli::default()
    };
    let normalized = cli.normalized_query("v4");

    assert_eq!(normalized, "grid template areas");
    assert_eq!(
        normalized.split_whitespace().collect::<Vec<_>>().join(" "),
        normalized
    );
}

#[test]
fn normalized_query_splits_at_every_unicode_white_space_character() {
    let cli = Cli {
        query: "\u{3000}grid\u{2009}areas\u{85}v4\u{200B}x\u{1680}v4".to_owned(),
        ..Cli::default()
    };

    // U+200B (zero width space) has no White_Space property.
    assert_eq!(cli.normalized_query("v4"), "grid areas v4\u{200b}x");
}

#[test]
fn normalized_query_is_empty_only_when_every_word_is_the_version() {
    let only_version = Cli {
        query: " v4\tv4 ".to_owned(),
        ..Cli::default()
    };
    let other_word = Cli {
        query: " v4\tv3 ".to_owned(),
        ..Cli::default()
    };

    assert_eq!(only_version.normalized_query("v4"), "");
    assert_eq!(Cli::default().normalized_query("v4"), "");
    assert_eq!(other_word.normalized_query("v4"), "v3");
}
