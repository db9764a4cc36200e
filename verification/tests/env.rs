use partial_config::env::{extract, typed, Candidate, Lookup, Resolution};
use partial_config::notice::{Level, Notice};
use partial_config::Error;

fn text(value: &str) -> Lookup {
    Lookup::Text(value.to_owned())
}

fn run(candidates: &[Candidate<'_>]) -> (Result<Option<String>, Error>, Vec<Notice>) {
    let mut log = Vec::new();
    let outcome = extract(candidates, &mut log);
    (outcome, log)
}

#[test]
fn only_first_alias_set_resolves_to_its_value() {
    let (outcome, log) = run(&[
        Candidate { name: "A", found: text("5") },
        Candidate { name: "B", found: Lookup::Absent },
    ]);
    assert_eq!(outcome.unwrap(), Some("5".to_owned()));
    assert!(log.is_empty());
}

#[test]
fn only_second_alias_set_resolves_to_its_value() {
    let (outcome, log) = run(&[
        Candidate { name: "A", found: Lookup::Absent },
        Candidate { name: "B", found: text("5") },
    ]);
    assert_eq!(outcome.unwrap(), Some("5".to_owned()));
    assert!(log.is_empty());
}

#[test]
fn both_aliases_set_alike_resolve_with_a_redundancy_warning() {
    let (outcome, log) = run(&[
        Candidate { name: "A", found: text("5") },
        Candidate { name: "B", found: text("5") },
    ]);
    assert_eq!(outcome.unwrap(), Some("5".to_owned()));
    assert_eq!(log.len(), 1);
    assert_eq!(log[0].level, Level::Warn);
    assert_eq!(
        log[0].text,
        "Redundant specification of the environment variable B, which was previously set via A"
    );
}

#[test]
fn aliases_set_differently_fail_and_name_both() {
    let (outcome, log) = run(&[
        Candidate { name: "A", found: text("5") },
        Candidate { name: "B", found: text("6") },
    ]);
    match outcome {
        Err(Error::InconsistentSetting {
            first_source,
            first_setting,
            second_source,
            second_setting,
        }) => {
            assert_eq!(first_source, "Environment variable A");
            assert_eq!(first_setting, "5");
            assert_eq!(second_source, "Environment variable B");
            assert_eq!(second_setting, "6");
        }
        _ => panic!("two different values must not resolve"),
    }
    assert_eq!(log.len(), 1);
    assert_eq!(log[0].level, Level::Error);
    assert_eq!(
        log[0].text,
        "Inconsistent specification via environment variable B. Expected 5 found 6"
    );
}

#[test]
fn no_alias_set_resolves_to_nothing() {
    let (outcome, log) = run(&[
        Candidate { name: "A", found: Lookup::Absent },
        Candidate { name: "B", found: Lookup::Absent },
    ]);
    assert_eq!(outcome.unwrap(), None);
    assert!(log.is_empty());
}

#[test]
fn no_alias_at_all_resolves_to_nothing() {
    let (outcome, log) = run(&[]);
    assert_eq!(outcome.unwrap(), None);
    assert!(log.is_empty());
}

#[test]
fn alias_that_is_not_unicode_is_passed_over_with_a_warning() {
    let (outcome, log) = run(&[
        Candidate { name: "A", found: Lookup::NotUnicode { shown: "\"\\xFF\"".to_owned() } },
        Candidate { name: "B", found: text("5") },
    ]);
    assert_eq!(outcome.unwrap(), Some("5".to_owned()));
    assert_eq!(log.len(), 1);
    assert_eq!(log[0].level, Level::Warn);
    assert_eq!(
        log[0].text,
        "The value of the environment variable for `A` was not Unicode. Got \"\\xFF\""
    );
}

#[test]
fn aliases_that_are_all_not_unicode_resolve_to_nothing() {
    let (outcome, log) = run(&[
        Candidate { name: "A", found: Lookup::NotUnicode { shown: "x".to_owned() } },
        Candidate { name: "B", found: Lookup::NotUnicode { shown: "y".to_owned() } },
    ]);
    assert_eq!(outcome.unwrap(), None);
    assert_eq!(log.len(), 2);
}

#[test]
fn alias_that_is_not_unicode_after_a_value_does_not_unset_it() {
    let (outcome, log) = run(&[
        Candidate { name: "A", found: text("5") },
        Candidate { name: "B", found: Lookup::NotUnicode { shown: "x".to_owned() } },
    ]);
    assert_eq!(outcome.unwrap(), Some("5".to_owned()));
    assert_eq!(log.len(), 1);
}

#[test]
fn resolution_stops_at_the_first_conflict() {
    let (outcome, log) = run(&[
        Candidate { name: "A", found: text("5") },
        Candidate { name: "B", found: text("6") },
        Candidate { name: "C", found: Lookup::NotUnicode { shown: "x".to_owned() } },
        Candidate { name: "D", found: text("7") },
    ]);
    match outcome {
        Err(Error::InconsistentSetting { second_source, second_setting, .. }) => {
            assert_eq!(second_source, "Environment variable B");
            assert_eq!(second_setting, "6");
        }
        _ => panic!("two different values must not resolve"),
    }
    // Nothing is noted for C and D: they are not looked at.
    assert_eq!(log.len(), 1);
}

#[test]
fn redundancy_names_the_first_origin_each_time() {
    let (outcome, log) = run(&[
        Candidate { name: "A", found: Lookup::Absent },
        Candidate { name: "B", found: text("v") },
        Candidate { name: "C", found: text("v") },
        Candidate { name: "D", found: text("v") },
    ]);
    assert_eq!(outcome.unwrap(), Some("v".to_owned()));
    assert_eq!(log.len(), 2);
    assert_eq!(
        log[0].text,
        "Redundant specification of the environment variable C, which was previously set via B"
    );
    assert_eq!(
        log[1].text,
        "Redundant specification of the environment variable D, which was previously set via B"
    );
}

#[test]
fn conflict_is_with_the_first_value_not_the_latest_alias() {
    let (outcome, _) = run(&[
        Candidate { name: "A", found: text("v") },
        Candidate { name: "B", found: text("v") },
        Candidate { name: "C", found: text("w") },
    ]);
    match outcome {
        Err(Error::InconsistentSetting { first_source, second_source, .. }) => {
            assert_eq!(first_source, "Environment variable A");
            assert_eq!(second_source, "Environment variable C");
        }
        _ => panic!("two different values must not resolve"),
    }
}

#[test]
fn extract_appends_to_what_the_log_holds() {
    let mut log = vec![Notice::sourcing("Environment Variables")];
    let outcome = extract(
        &[
            Candidate { name: "A", found: text("5") },
            Candidate { name: "B", found: text("5") },
        ],
        &mut log,
    );
    assert_eq!(outcome.unwrap(), Some("5".to_owned()));
    assert_eq!(log.len(), 2);
    assert_eq!(log[0].text, "Sourcing configuration from `Environment Variables`");
}

#[test]
fn empty_text_is_a_value() {
    let (outcome, _) = run(&[Candidate { name: "A", found: text("") }]);
    assert_eq!(outcome.unwrap(), Some(String::new()));
    let (outcome, _) = run(&[
        Candidate { name: "A", found: text("") },
        Candidate { name: "B", found: text("x") },
    ]);
    assert!(outcome.is_err());
}

#[test]
fn steps_drive_the_same_resolution_one_lookup_at_a_time() {
    let state = Resolution::Unset;
    assert!(!state.is_failed());
    let (state, notice) = state.step("A", &Lookup::Absent);
    assert!(notice.is_none());
    let (state, notice) = state.step("B", &text("5"));
    assert!(notice.is_none());
    match &state {
        Resolution::Settled { origin, value } => {
            assert_eq!(*origin, "B");
            assert_eq!(value, "5");
        }
        _ => panic!("the first text settles the value"),
    }
    let (state, notice) = state.step("C", &text("5"));
    assert_eq!(notice.unwrap().level, Level::Warn);
    let (state, notice) = state.step("D", &text("6"));
    assert_eq!(notice.unwrap().level, Level::Error);
    assert!(state.is_failed());
    let (state, notice) = state.step("E", &text("5"));
    assert!(notice.is_none());
    assert!(state.is_failed());
    match state.finish() {
        Err(Error::InconsistentSetting {
            first_source,
            first_setting,
            second_source,
            second_setting,
        }) => {
            assert_eq!(first_source, "Environment variable B");
            assert_eq!(first_setting, "5");
            assert_eq!(second_source, "Environment variable D");
            assert_eq!(second_setting, "6");
        }
        _ => panic!("a failed resolution ends in the error"),
    }
}

#[test]
fn unset_resolution_finishes_with_nothing() {
    assert_eq!(Resolution::Unset.finish().unwrap(), None);
}

#[test]
fn typed_field_without_text_has_no_value() {
    let parsed: Option<Result<u64, std::num::ParseIntError>> = None;
    assert_eq!(typed("port", "u64", parsed).unwrap(), None);
}

#[test]
fn typed_field_with_parsed_text_has_the_value() {
    let parsed = Some("8080".parse::<u64>());
    assert_eq!(typed("port", "u64", parsed).unwrap(), Some(8080));
}

#[test]
fn typed_field_with_unparsable_text_fails_with_the_field_and_type() {
    let parsed = Some("eighty".parse::<u64>());
    match typed("port", "u64", parsed) {
        Err(Error::ParseFieldError { field_name, field_type, error_condition }) => {
            assert_eq!(field_name, "port");
            assert_eq!(field_type, "u64");
            assert_eq!(error_condition, "invalid digit found in string");
        }
        _ => panic!("unparsable text must fail"),
    }
}
