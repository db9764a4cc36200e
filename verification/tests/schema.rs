use partial_config::schema::{
    env_var_names, env_var_struct_name, is_option, is_string, partial_derives,
    partial_struct_name, EnvNameError,
};

fn group(names: &[&str]) -> Vec<String> {
    names.iter().map(|name| name.to_string()).collect()
}

#[test]
fn option_is_told_by_the_last_segment() {
    assert!(is_option("Option"));
    assert!(!is_option("Height"));
    assert!(!is_option("option"));
    assert!(!is_option("Options"));
    assert!(!is_option(""));
}

#[test]
fn text_types_are_string_and_str() {
    assert!(is_string("String"));
    assert!(is_string("str"));
    assert!(!is_string("u64"));
    assert!(!is_string("string"));
    assert!(!is_string("Str"));
}

#[test]
fn partial_type_is_named_after_its_target() {
    assert_eq!(partial_struct_name("Configuration", &[]), "PartialConfiguration");
    assert_eq!(partial_struct_name("Conf", &[]), "PartialConf");
}

#[test]
fn partial_type_takes_the_last_rename() {
    assert_eq!(
        partial_struct_name("Configuration", &["CustomPartialConfiguration"]),
        "CustomPartialConfiguration"
    );
    assert_eq!(partial_struct_name("Configuration", &["First", "Second"]), "Second");
}

#[test]
fn environment_source_is_named_env_var_source_unless_renamed() {
    assert_eq!(env_var_struct_name(&[]), "EnvVarSource");
    assert_eq!(env_var_struct_name(&["EnvVarSomething"]), "EnvVarSomething");
    assert_eq!(env_var_struct_name(&["One", "Two"]), "Two");
}

#[test]
fn partial_type_derives_default_after_what_was_asked() {
    assert_eq!(partial_derives(group(&["Clone"])), group(&["Clone", "Default"]));
    assert_eq!(partial_derives(group(&[])), group(&["Default"]));
}

#[test]
fn partial_type_does_not_derive_default_twice() {
    assert_eq!(
        partial_derives(group(&["Debug", "Default", "Clone"])),
        group(&["Debug", "Default", "Clone"])
    );
}

#[test]
fn names_stand_in_the_order_written() {
    let groups = vec![group(&["THING1", "THING2"]), group(&["THING3"])];
    assert_eq!(env_var_names(&groups).unwrap(), group(&["THING1", "THING2", "THING3"]));
    let groups = vec![group(&["ZED"]), group(&["ALPHA", "MID"])];
    assert_eq!(env_var_names(&groups).unwrap(), group(&["ZED", "ALPHA", "MID"]));
}

#[test]
fn name_repeated_within_one_attribute_is_taken_once() {
    let groups = vec![group(&["A", "B", "A"])];
    assert_eq!(env_var_names(&groups).unwrap(), group(&["A", "B"]));
}

#[test]
fn name_given_by_two_attributes_is_refused() {
    let groups = vec![group(&["A", "B"]), group(&["C", "B", "A"])];
    match env_var_names(&groups) {
        Err(EnvNameError::Repeated { name }) => assert_eq!(name, "B"),
        _ => panic!("a name given twice must be refused"),
    }
}

#[test]
fn field_without_a_name_is_refused() {
    assert!(matches!(env_var_names(&vec![]), Err(EnvNameError::NoName)));
    assert!(matches!(env_var_names(&vec![group(&[]), group(&[])]), Err(EnvNameError::NoName)));
}

#[test]
fn empty_attribute_beside_a_full_one_is_no_fault() {
    let groups = vec![group(&[]), group(&["ONLY"])];
    assert_eq!(env_var_names(&groups).unwrap(), group(&["ONLY"]));
}
