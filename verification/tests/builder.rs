use partial_config::builder::Builder;
use partial_config::notice::Level;
use partial_config::Error;

fn names(error: Error) -> Vec<&'static str> {
    match error {
        Error::MissingFields { required_fields } => {
            required_fields.iter().map(|field| field.0).collect()
        }
        other => panic!("expected missing fields, got {}", other.message()),
    }
}

#[test]
fn build_with_every_required_field_succeeds() {
    let mut builder = Builder::new();
    let str1: String = builder.require("str1", Some("X".to_owned()));
    let port: u64 = builder.require("port", Some(8080));
    let built = builder.finish((str1, port)).unwrap();
    assert_eq!(built, ("X".to_owned(), 8080));
}

#[test]
fn build_without_sources_lists_both_required_fields() {
    let mut builder = Builder::new();
    let str1: String = builder.require("str1", None);
    let port: u64 = builder.require("port", None);
    let outcome = builder.finish((str1, port));
    assert_eq!(names(outcome.unwrap_err()), vec!["str1", "port"]);
}

#[test]
fn build_lists_all_three_absent_fields_and_not_only_the_first() {
    let mut builder = Builder::new();
    let w: u8 = builder.require("w", Some(1));
    let x: u8 = builder.require("x", None);
    let y: u8 = builder.require("y", None);
    let v: u8 = builder.require("v", Some(2));
    let z: u8 = builder.require("z", None);
    let outcome = builder.finish((w, x, y, v, z));
    assert_eq!(names(outcome.unwrap_err()), vec!["x", "y", "z"]);
}

#[test]
fn absent_required_field_gets_the_default_as_placeholder() {
    let mut builder = Builder::new();
    let port: u64 = builder.require("port", None);
    let name: String = builder.require("name", None);
    assert_eq!(port, 0);
    assert_eq!(name, "");
    assert!(builder.finish(()).is_err());
}

#[test]
fn absent_optional_field_is_no_error() {
    let mut builder = Builder::new();
    let height: Option<u64> = builder.optional("height", None);
    let width: Option<u64> = builder.optional("width", Some(3));
    let port: u64 = builder.require("port", Some(1));
    assert_eq!(height, None);
    assert_eq!(width, Some(3));
    let built = builder.finish((height, width, port)).unwrap();
    assert_eq!(built, (None, Some(3), 1));
}

#[test]
fn optional_fields_are_never_listed() {
    let mut builder = Builder::new();
    let _: Option<u64> = builder.optional("height", None);
    let _: u64 = builder.require("port", None);
    let _: Option<u64> = builder.optional("width", None);
    assert_eq!(names(builder.finish(()).unwrap_err()), vec!["port"]);
}

#[test]
fn missing_can_be_asked_before_the_end() {
    let mut builder = Builder::new();
    assert!(builder.missing().is_empty());
    let _: u64 = builder.require("port", None);
    let _: u64 = builder.require("size", Some(1));
    let missing = builder.missing();
    assert_eq!(missing.len(), 1);
    assert_eq!(missing[0].0, "port");
}

#[test]
fn empty_build_succeeds() {
    assert_eq!(Builder::new().finish(7_u8).unwrap(), 7);
    assert_eq!(Builder::new().tally(), (0, 0));
}

#[test]
fn tally_counts_required_and_optional_fields() {
    let mut builder = Builder::new();
    let _: u64 = builder.require("a", None);
    let _: Option<u64> = builder.optional("b", None);
    let _: u64 = builder.require("c", Some(1));
    let _: u64 = builder.require("d", Some(1));
    assert_eq!(builder.tally(), (3, 1));
    let notice = builder.notice();
    assert_eq!(notice.level, Level::Info);
    assert_eq!(notice.text, "Building configuration. 3 (1) fields");
}
