use partial_config::serde_support::{file_name, FileReadError, Format, Json, Toml};
use std::collections::BTreeMap;
use std::path::{Path, PathBuf};

#[test]
fn extensions_name_their_formats() {
    assert_eq!(Format::of_extension("toml"), Some(Format::Toml));
    assert_eq!(Format::of_extension("tml"), Some(Format::Toml));
    assert_eq!(Format::of_extension("json"), Some(Format::Json));
    assert_eq!(Format::of_extension("js"), Some(Format::Json));
}

#[test]
fn other_extensions_name_no_format() {
    assert_eq!(Format::of_extension("yaml"), None);
    assert_eq!(Format::of_extension(""), None);
    assert_eq!(Format::of_extension("TOML"), None);
    assert_eq!(Format::of_extension("toml "), None);
    assert_eq!(Format::of_extension("jso"), None);
}

#[test]
fn file_that_does_not_exist_is_reported_first() {
    let path = PathBuf::from("missing.yaml");
    match Format::detect(path.clone(), false, Some("yaml")) {
        Err(FileReadError::NoFile(named)) => assert_eq!(named, path),
        _ => panic!("a missing file is reported as such"),
    }
    match Format::detect(path.clone(), false, None) {
        Err(FileReadError::NoFile(named)) => assert_eq!(named, path),
        _ => panic!("a missing file is reported as such"),
    }
}

#[test]
fn file_without_extension_is_refused() {
    match Format::detect(PathBuf::from("config"), true, None) {
        Err(FileReadError::NoExtension) => {}
        _ => panic!("a file without extension is refused"),
    }
}

#[test]
fn file_with_unknown_extension_is_refused_by_name() {
    match Format::detect(PathBuf::from("config.yaml"), true, Some("yaml")) {
        Err(FileReadError::UnsupportedExtension(extension)) => assert_eq!(extension, "yaml"),
        _ => panic!("an unknown extension is refused"),
    }
}

#[test]
fn file_with_known_extension_is_read_in_its_format() {
    assert_eq!(
        Format::detect(PathBuf::from("config.tml"), true, Some("tml")).unwrap(),
        Format::Toml
    );
    assert_eq!(
        Format::detect(PathBuf::from("config.json"), true, Some("json")).unwrap(),
        Format::Json
    );
}

#[test]
fn decoded_toml_layer_is_handed_on() {
    let attempt = toml::from_str::<BTreeMap<String, u64>>("port = 8080\nworkers = 4\n");
    let layer = Toml::decoded(attempt).unwrap();
    assert_eq!(layer.len(), 2);
    assert_eq!(layer["port"], 8080);
    assert_eq!(layer["workers"], 4);
}

#[test]
fn toml_text_that_is_no_layer_fails_as_toml() {
    let attempt = toml::from_str::<BTreeMap<String, u64>>("port = ");
    match Toml::decoded(attempt) {
        Err(FileReadError::Toml(cause)) => {
            let error = FileReadError::Toml(cause.clone());
            assert_eq!(error.message(), format!("Error parsing TOML file {}", cause));
        }
        _ => panic!("broken TOML must fail as TOML"),
    }
    let attempt = toml::from_str::<BTreeMap<String, u64>>("port = \"high\"");
    assert!(matches!(Toml::decoded(attempt), Err(FileReadError::Toml(_))));
}

#[test]
fn decoded_json_layer_is_handed_on() {
    let attempt =
        serde_json::from_slice::<BTreeMap<String, u64>>(br#"{"port": 8080, "workers": 4}"#);
    let layer = Json::decoded(attempt).unwrap();
    assert_eq!(layer.len(), 2);
    assert_eq!(layer["port"], 8080);
    assert_eq!(layer["workers"], 4);
}

#[test]
fn json_bytes_that_are_no_layer_fail_as_json() {
    let attempt = serde_json::from_slice::<BTreeMap<String, u64>>(b"{\"port\": ");
    match Json::decoded(attempt) {
        Err(FileReadError::Json(cause)) => {
            let shown = cause.to_string();
            let error = FileReadError::Json(cause);
            assert_eq!(error.message(), format!("Error parsing JSON file {}", shown));
        }
        _ => panic!("broken JSON must fail as JSON"),
    }
    let attempt = serde_json::from_slice::<BTreeMap<String, u64>>(&[0xff, 0xfe]);
    assert!(matches!(Json::decoded(attempt), Err(FileReadError::Json(_))));
}

#[test]
fn decoded_hands_a_layer_on_and_wraps_a_failure() {
    assert_eq!(Toml::decoded::<u8>(Ok(3)).unwrap(), 3);
    assert_eq!(Json::decoded::<u8>(Ok(4)).unwrap(), 4);
    let cause = serde_json::from_slice::<u8>(b"x").unwrap_err();
    assert!(matches!(Json::decoded::<u8>(Err(cause)), Err(FileReadError::Json(_))));
    let cause = toml::from_str::<BTreeMap<String, u8>>("=").unwrap_err();
    assert!(matches!(
        Toml::decoded::<BTreeMap<String, u8>>(Err(cause)),
        Err(FileReadError::Toml(_))
    ));
}

#[test]
fn files_are_named_by_format_and_path() {
    assert_eq!(Toml(Path::new("conf.toml")).name(), "TOML file at \"conf.toml\"");
    assert_eq!(Json(Path::new("etc/conf.json")).name(), "JSON file at \"etc/conf.json\"");
    assert_eq!(
        file_name(&PathBuf::from("conf.toml")),
        "Configuration file at `\"conf.toml\"`"
    );
}
