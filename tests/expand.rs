use ters::{
    ters, AccessorKind, ExpandError, Expansion, Field, GenericParams, Marker, Object, Record,
};

fn marker(path: &str) -> Marker {
    Marker { path: path.to_string(), tokens: String::new() }
}

fn field(name: &str, ty: &str, markers: &[&str], docs: &[&str]) -> Field {
    Field {
        name: Some(name.to_string()),
        ty: ty.to_string(),
        markers: markers.iter().map(|m| marker(m)).collect(),
        docs: docs.iter().map(|d| d.to_string()).collect(),
    }
}

fn record(name: &str, fields: Vec<Field>) -> Record {
    Record {
        name: name.to_string(),
        generics: GenericParams { params: Vec::new(), where_predicates: Vec::new() },
        fields,
    }
}

fn object(values: &[&str]) -> Object {
    Object { values: values.iter().map(|v| v.to_string()).collect() }
}

fn expand(r: Record) -> Expansion {
    match ters(r) {
        Ok(e) => e,
        Err(err) => panic!("rejected: {:?}", err),
    }
}

fn paths(f: &Field) -> Vec<String> {
    f.markers.iter().map(|m| m.path.clone()).collect()
}

#[test]
fn getters() {
    let e = expand(record(
        "Foo",
        vec![field("a", "i32", &["allow"], &[]), field("b", "bool", &["get"], &[])],
    ));
    let foo = object(&["42", "true"]);
    assert_eq!(e.get(&foo, "b"), Some(&"true".to_string()));
}

#[test]
fn setters() {
    let e = expand(record(
        "Foo",
        vec![field("a", "i32", &["allow"], &[]), field("b", "bool", &["get", "set"], &[])],
    ));
    let mut foo = object(&["42", "true"]);
    assert_eq!(e.get(&foo, "b"), Some(&"true".to_string()));
    assert!(e.set(&mut foo, "set_b", "false".to_string()));

    assert_eq!(e.get(&foo, "b"), Some(&"false".to_string()));
}

#[test]
fn both() {
    let e = expand(record(
        "Foo",
        vec![field("a", "i32", &["get"], &[]), field("b", "bool", &["get", "set"], &[])],
    ));
    let mut foo = object(&["42", "true"]);
    assert_eq!(e.get(&foo, "a"), Some(&"42".to_string()));
    assert_eq!(e.get(&foo, "b"), Some(&"true".to_string()));
    assert!(e.set(&mut foo, "set_b", "false".to_string()));

    assert_eq!(e.get(&foo, "b"), Some(&"false".to_string()));
}

#[test]
fn docs() {
    let e = expand(record("Foo", vec![field("bar", "u8", &["get"], &[" Baz."])]));
    assert_eq!(e.item.name, "Foo");
    assert_eq!(e.item.fields.len(), 1);
    assert!(e.item.fields[0].markers.is_empty());
    assert_eq!(e.item.fields[0].docs, vec![" Baz.".to_string()]);
    let b = e.block.expect("block");
    assert_eq!(b.name, "Foo");
    assert_eq!(b.accessors.len(), 1);
    let a = &b.accessors[0];
    assert_eq!(a.kind, AccessorKind::Getter);
    assert_eq!(a.name, "bar");
    assert_eq!(a.ty, "u8");
    let header = format!("{}{}{}", "Getter for `", "bar", "`.");
    assert_eq!(a.docs, vec![header, String::new(), " Baz.".to_string()]);
}

#[test]
fn getter_only_leaves_other_field_alone() {
    let e = expand(record(
        "Foo",
        vec![field("a", "i32", &[], &[]), field("b", "bool", &["get"], &[])],
    ));
    assert_eq!(e.item.fields.len(), 2);
    assert_eq!(e.item.fields[0].name, Some("a".to_string()));
    assert_eq!(e.item.fields[0].ty, "i32");
    assert_eq!(e.item.fields[1].ty, "bool");
    let b = e.block.as_ref().expect("block");
    assert_eq!(b.accessors.len(), 1);
    assert_eq!(b.accessors[0].kind, AccessorKind::Getter);
    assert_eq!(b.accessors[0].name, "b");
    assert_eq!(b.accessors[0].ty, "bool");
    let foo = object(&["42", "true"]);
    assert_eq!(e.get(&foo, "a"), None);
    assert_eq!(e.get(&foo, "b"), Some(&"true".to_string()));
}

#[test]
fn setter_only() {
    let e = expand(record(
        "Foo",
        vec![field("a", "i32", &["set"], &[]), field("b", "bool", &[], &[])],
    ));
    let b = e.block.as_ref().expect("block");
    assert_eq!(b.accessors.len(), 1);
    assert_eq!(b.accessors[0].kind, AccessorKind::Setter);
    assert_eq!(b.accessors[0].name, "set_a");
    assert_eq!(b.accessors[0].field, "a");
    assert_eq!(b.accessors[0].ty, "i32");
    let mut foo = object(&["42", "true"]);
    assert_eq!(e.get(&foo, "a"), None);
    assert_eq!(e.get(&foo, "b"), None);
    assert!(e.set(&mut foo, "set_a", "7".to_string()));
    assert_eq!(foo.values, vec!["7".to_string(), "true".to_string()]);
    assert!(!e.set(&mut foo, "set_b", "false".to_string()));
    assert_eq!(foo.values, vec!["7".to_string(), "true".to_string()]);
}

#[test]
fn getter_and_setter_round_trip() {
    let e = expand(record("Foo", vec![field("a", "i32", &["get", "set"], &[])]));
    let b = e.block.as_ref().expect("block");
    assert_eq!(b.accessors.len(), 2);
    assert_eq!(b.accessors[0].kind, AccessorKind::Getter);
    assert_eq!(b.accessors[0].name, "a");
    assert_eq!(b.accessors[1].kind, AccessorKind::Setter);
    assert_eq!(b.accessors[1].name, "set_a");
    let mut foo = object(&["42"]);
    assert!(e.set(&mut foo, "set_a", "31".to_string()));
    assert_eq!(e.get(&foo, "a"), Some(&"31".to_string()));
}

#[test]
fn no_markers_no_block() {
    let e = expand(record(
        "Foo",
        vec![field("a", "i32", &["allow"], &[" A."]), field("b", "bool", &[], &[])],
    ));
    assert!(e.block.is_none());
    assert_eq!(paths(&e.item.fields[0]), vec!["allow".to_string()]);
    assert_eq!(e.item.fields[0].docs, vec![" A.".to_string()]);
}

#[test]
fn zero_fields_no_block() {
    let e = expand(record("Empty", Vec::new()));
    assert!(e.block.is_none());
    assert!(e.item.fields.is_empty());
    assert_eq!(e.item.name, "Empty");
}

#[test]
fn generic_parameters_are_threaded() {
    let r = Record {
        name: "Wrap".to_string(),
        generics: GenericParams {
            params: vec!["T: Clone".to_string()],
            where_predicates: vec!["T: Default".to_string()],
        },
        fields: vec![field("x", "T", &["get"], &[])],
    };
    let e = expand(r);
    let b = e.block.as_ref().expect("block");
    assert_eq!(b.generics.params, vec!["T: Clone".to_string()]);
    assert_eq!(b.generics.where_predicates, vec!["T: Default".to_string()]);
    assert_eq!(e.item.generics.params, vec!["T: Clone".to_string()]);
    assert_eq!(b.accessors[0].name, "x");
    assert_eq!(b.accessors[0].ty, "T");
}

#[test]
fn opaque_markers_keep_order() {
    let e = expand(record(
        "Foo",
        vec![field("a", "i32", &["serde", "get", "allow", "set", "cfg_attr"], &[])],
    ));
    assert_eq!(
        paths(&e.item.fields[0]),
        vec!["serde".to_string(), "allow".to_string(), "cfg_attr".to_string()]
    );
}

#[test]
fn qualified_marker_is_not_recognized() {
    let e = expand(record("Foo", vec![field("a", "i32", &["my::get"], &[])]));
    assert!(e.block.is_none());
    assert_eq!(paths(&e.item.fields[0]), vec!["my::get".to_string()]);
}

#[test]
fn setter_docs_follow_header() {
    let e = expand(record("Foo", vec![field("a", "i32", &["set"], &[" One.", " Two."])]));
    let b = e.block.expect("block");
    assert_eq!(
        b.accessors[0].docs,
        vec![
            "Setter for `a`.".to_string(),
            String::new(),
            " One.".to_string(),
            " Two.".to_string()
        ]
    );
}

#[test]
fn accessors_follow_field_order() {
    let e = expand(record(
        "Foo",
        vec![
            field("z", "u8", &["set"], &[]),
            field("m", "u8", &[], &[]),
            field("a", "u8", &["set", "get"], &[]),
        ],
    ));
    let b = e.block.expect("block");
    let names: Vec<String> = b.accessors.iter().map(|a| a.name.clone()).collect();
    assert_eq!(names, vec!["set_z".to_string(), "a".to_string(), "set_a".to_string()]);
}

#[test]
fn unnamed_field_is_rejected() {
    let mut positional = field("unused", "u8", &["get"], &[]);
    positional.name = None;
    let r = record("Foo", vec![field("a", "i32", &["get"], &[]), positional]);
    match ters(r) {
        Err(err) => assert_eq!(err, ExpandError::UnnamedField { index: 1 }),
        Ok(_) => panic!("accepted a positional field"),
    }
}

#[test]
fn unknown_method_is_absent() {
    let e = expand(record("Foo", vec![field("a", "i32", &["get"], &[])]));
    let mut foo = object(&["1"]);
    assert_eq!(e.get(&foo, "set_a"), None);
    assert!(!e.set(&mut foo, "a", "2".to_string()));
    assert_eq!(foo.values, vec!["1".to_string()]);
}
