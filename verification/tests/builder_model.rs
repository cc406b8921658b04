use builder::descriptor::{extract, NamedField, StructDescriptor, TypeDescription, TypeShape};
use builder::instance::{BuildError, Value};

fn command_descriptor() -> StructDescriptor {
    let input = TypeDescription {
        name: "Command".to_string(),
        shape: TypeShape::NamedFields(vec![
            NamedField { name: "executable".to_string(), ty: "String".to_string() },
            NamedField { name: "args".to_string(), ty: "Vec<String>".to_string() },
            NamedField { name: "env".to_string(), ty: "Vec<String>".to_string() },
            NamedField { name: "working_dir".to_string(), ty: "String".to_string() },
        ]),
    };
    extract(&input).unwrap()
}

fn text(s: &str) -> Value {
    Value::Text(s.to_string())
}

fn list(items: &[&str]) -> Value {
    Value::ListOfText(items.iter().map(|s| s.to_string()).collect())
}

fn missing(field: &str) -> BuildError {
    BuildError::MissingField { field: field.to_string() }
}

#[test]
fn fresh_builder_fails_naming_first_declared_field() {
    let mut b = command_descriptor().builder();
    let e = b.build().unwrap_err();
    assert_eq!(e, missing("executable"));
}

#[test]
fn partial_builder_names_first_missing_in_declaration_order() {
    // The scenario: only `executable` set; `args` is the first unset field.
    let mut b = command_descriptor().builder();
    assert!(b.set_by_name(&"executable".to_string(), text("cat")));
    let e = b.build().unwrap_err();
    assert_eq!(e, missing("args"));

    // Everything but `executable` set, in reverse order: the first missing
    // field is named regardless of the order the others were set in.
    let mut b = command_descriptor().builder();
    assert!(b.set_by_name(&"working_dir".to_string(), text(".")));
    assert!(b.set_by_name(&"env".to_string(), list(&[])));
    assert!(b.set_by_name(&"args".to_string(), list(&[])));
    let e = b.build().unwrap_err();
    assert_eq!(e, missing("executable"));

    // A gap in the middle is reported, not a later one.
    let mut b = command_descriptor().builder();
    assert!(b.set_by_name(&"executable".to_string(), text("cat")));
    assert!(b.set_by_name(&"args".to_string(), list(&["-n"])));
    assert!(b.set_by_name(&"working_dir".to_string(), text(".")));
    let e = b.build().unwrap_err();
    assert_eq!(e, missing("env"));
}

#[test]
fn full_builder_returns_last_written_values_set_in_any_order() {
    let mut b = command_descriptor().builder();
    assert!(b.set_by_name(&"working_dir".to_string(), text("/tmp")));
    assert!(b.set_by_name(&"executable".to_string(), text("ls")));
    assert!(b.set_by_name(&"env".to_string(), list(&["HOME=/root"])));
    assert!(b.set_by_name(&"args".to_string(), list(&["-l", "-a"])));
    let record = b.build().unwrap();
    assert_eq!(
        record.values,
        vec![text("ls"), list(&["-l", "-a"]), list(&["HOME=/root"]), text("/tmp")]
    );
}

#[test]
fn setter_overwrites_and_last_write_wins() {
    // The scenario: `executable("ls")` then `executable("cat")`.
    let mut b = command_descriptor().builder();
    assert!(b.set_by_name(&"executable".to_string(), text("ls")));
    assert!(b.set_by_name(&"executable".to_string(), text("cat")));
    assert!(b.set_by_name(&"args".to_string(), list(&[])));
    assert!(b.set_by_name(&"env".to_string(), list(&[])));
    assert!(b.set_by_name(&"working_dir".to_string(), text(".")));
    let record = b.build().unwrap();
    assert_eq!(record.values[0], text("cat"));
}

#[test]
fn build_is_a_repeatable_observation() {
    let mut b = command_descriptor().builder();
    assert!(b.set_by_name(&"executable".to_string(), text("cat")));
    assert!(b.set_by_name(&"args".to_string(), list(&[])));
    assert!(b.set_by_name(&"env".to_string(), list(&[])));
    assert!(b.set_by_name(&"working_dir".to_string(), text(".")));
    let first = b.build().unwrap();
    let second = b.build().unwrap();
    assert_eq!(first, second);

    // The builder stays fully populated and usable: further setter calls
    // remain valid and a later build sees the overwrite.
    assert!(b.set_by_name(&"executable".to_string(), text("ls")));
    let third = b.build().unwrap();
    assert_eq!(third.values[0], text("ls"));
    assert_eq!(third.values[1..], first.values[1..]);
}

#[test]
fn command_scenario_end_to_end() {
    // Create builder; set `executable("cat")` only; build fails naming `args`.
    let mut b = command_descriptor().builder();
    assert!(b.set_by_name(&"executable".to_string(), text("cat")));
    let e = b.build().unwrap_err();
    assert_eq!(e, missing("args"));

    // Set the rest; build succeeds with the expected field values.
    assert!(b.set_by_name(&"args".to_string(), list(&[])));
    assert!(b.set_by_name(&"env".to_string(), list(&[])));
    assert!(b.set_by_name(&"working_dir".to_string(), text(".")));
    let record = b.build().unwrap();
    assert_eq!(record.values, vec![text("cat"), list(&[]), list(&[]), text(".")]);
}

#[test]
fn setting_an_unknown_field_changes_nothing() {
    let mut b = command_descriptor().builder();
    assert!(b.set_by_name(&"executable".to_string(), text("cat")));
    assert!(!b.set_by_name(&"user".to_string(), text("root")));
    let e = b.build().unwrap_err();
    assert_eq!(e, missing("args"));
}

#[test]
fn duplicate_field_names_pass_extraction_and_name_the_first_slot() {
    // Uniqueness is assumed, not enforced: extraction performs no
    // deduplication, and a named setter addresses the first matching slot.
    let input = TypeDescription {
        name: "Odd".to_string(),
        shape: TypeShape::NamedFields(vec![
            NamedField { name: "a".to_string(), ty: "u32".to_string() },
            NamedField { name: "a".to_string(), ty: "u64".to_string() },
        ]),
    };
    let d = extract(&input).unwrap();
    assert_eq!(d.fields.len(), 2);
    let mut b = d.builder();
    assert!(b.set_by_name(&"a".to_string(), text("x")));
    // Only the first slot was written; the second, also named `a`, is the
    // first missing one.
    let e = b.build().unwrap_err();
    assert_eq!(e, missing("a"));
}

#[test]
fn a_cloned_descriptor_outlives_the_factory() {
    let d = command_descriptor();
    let copy = d.clone();
    let mut b = d.builder();
    assert_eq!(copy.name, "Command");
    assert_eq!(copy.fields.len(), 4);
    assert_eq!(copy.fields[1].name, "args");
    assert_eq!(b.build().unwrap_err(), missing("executable"));
}

#[test]
fn index_setter_addresses_slots_in_declaration_order() {
    let mut b = command_descriptor().builder();
    b.set(0, text("cat"));
    b.set(1, list(&[]));
    b.set(2, list(&[]));
    b.set(3, text("."));
    let record = b.build().unwrap();
    assert_eq!(record.values.len(), 4);
    assert_eq!(record.values[3], text("."));
}
