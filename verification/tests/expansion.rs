use rud_gen::{expand, Annotation, AttrToken, Expansion, FieldDef, GeneratedImpl, Key, StructDef};

fn ident(s: &str) -> AttrToken {
    AttrToken::Ident(s.to_string())
}

fn lit(s: &str) -> AttrToken {
    AttrToken::Str(s.to_string())
}

fn named(name: &str, annotation: Annotation) -> FieldDef {
    FieldDef { name: Some(name.to_string()), annotation }
}

fn unnamed(annotation: Annotation) -> FieldDef {
    FieldDef { name: None, annotation }
}

fn plain_struct(name: &str, fields: Vec<FieldDef>) -> StructDef {
    StructDef { name: name.to_string(), annotation: Annotation::Absent, fields }
}

fn generated(d: &StructDef) -> GeneratedImpl {
    match expand(d).expect("expansion succeeds") {
        Expansion::Generated(g) => g,
        Expansion::Skipped => panic!("expected generated output"),
    }
}

fn name_key(s: &str) -> Key {
    Key::Name(s.to_string())
}

fn tester() -> StructDef {
    plain_struct(
        "Tester",
        vec![
            named("field", Annotation::Empty),
            named("read_only", Annotation::Args(vec![ident("read")])),
            named(
                "hellont",
                Annotation::Args(vec![
                    ident("rename"),
                    AttrToken::Equals,
                    lit("hello"),
                    AttrToken::Comma,
                    ident("read"),
                ]),
            ),
        ],
    )
}

#[test]
fn attributes() {
    let g = generated(&tester());
    assert_eq!(g.read_table.arms.len(), 3);
    assert_eq!(g.write_table.arms.len(), 1);
    assert_eq!(g.read_table.lookup(&name_key("field")), Ok(0));
    assert_eq!(g.write_table.lookup(&name_key("field")), Ok(0));
}

#[test]
fn nested() {
    let foo = plain_struct("Foo", vec![named("bar", Annotation::Empty)]);
    let bar = plain_struct("Bar", vec![named("value", Annotation::Empty)]);
    let gf = generated(&foo);
    let gb = generated(&bar);
    assert_eq!(gf.read_table.lookup(&name_key("bar")), Ok(0));
    assert_eq!(gf.write_table.lookup(&name_key("bar")), Ok(0));
    assert_eq!(gb.read_table.lookup(&name_key("value")), Ok(0));
    assert_eq!(gb.write_table.lookup(&name_key("value")), Ok(0));
}

#[test]
fn empty() {
    let foo = plain_struct(
        "Foo",
        vec![named("field1", Annotation::Absent), named("field2", Annotation::Absent)],
    );
    let g = generated(&foo);
    assert_eq!(g.read_table.lookup(&name_key("field1")), Ok(0));
    assert_eq!(g.read_table.lookup(&name_key("field2")), Ok(1));
    assert_eq!(g.write_table.lookup(&name_key("field1")), Ok(0));
    assert_eq!(g.write_table.lookup(&name_key("field2")), Ok(1));
}

#[test]
fn generics() {
    let foo = plain_struct(
        "Foo",
        vec![
            named("reference", Annotation::Absent),
            named("displayer", Annotation::Absent),
            named("accessible_field", Annotation::Empty),
        ],
    );
    let g = generated(&foo);
    assert_eq!(g.read_table.lookup(&name_key("accessible_field")), Ok(2));
    assert_eq!(g.write_table.lookup(&name_key("accessible_field")), Ok(2));
}

#[test]
fn default_exposure_by_name() {
    let d = plain_struct("S", vec![named("alpha", Annotation::Absent)]);
    let g = generated(&d);
    assert_eq!(g.read_table.lookup(&name_key("alpha")), Ok(0));
    assert_eq!(g.write_table.lookup(&name_key("alpha")), Ok(0));
}

#[test]
fn default_exposure_by_position() {
    let d = plain_struct("S", vec![unnamed(Annotation::Absent), unnamed(Annotation::Absent)]);
    let g = generated(&d);
    assert_eq!(g.read_table.lookup(&Key::Index(1)), Ok(0));
    assert_eq!(g.read_table.lookup(&Key::Index(2)), Ok(1));
    assert_eq!(g.write_table.lookup(&Key::Index(1)), Ok(0));
    assert_eq!(g.write_table.lookup(&Key::Index(2)), Ok(1));
}

#[test]
fn empty_annotation_matches_absent() {
    let with_empty = plain_struct("S", vec![named("x", Annotation::Empty)]);
    let with_absent = plain_struct("S", vec![named("x", Annotation::Absent)]);
    assert_eq!(expand(&with_empty), expand(&with_absent));
}

#[test]
fn read_only_field() {
    let g = generated(&tester());
    assert_eq!(g.read_table.lookup(&name_key("read_only")), Ok(1));
    let denied = g.write_table.lookup(&name_key("read_only"));
    assert_eq!(denied.unwrap_err().key, name_key("read_only"));
}

#[test]
fn rename_reaches_only_new_key() {
    let g = generated(&tester());
    assert_eq!(g.read_table.lookup(&name_key("hello")), Ok(2));
    assert!(g.read_table.lookup(&name_key("hellont")).is_err());
    assert!(g.write_table.lookup(&name_key("hello")).is_err());
    assert!(g.write_table.lookup(&name_key("hellont")).is_err());
}

#[test]
fn rename_without_read_grants_nothing() {
    let d = plain_struct(
        "S",
        vec![named("x", Annotation::Args(vec![ident("rename"), AttrToken::Equals, lit("y")]))],
    );
    let g = generated(&d);
    assert_eq!(g.read_table.arms.len(), 0);
    assert_eq!(g.write_table.arms.len(), 0);
    assert!(g.read_table.lookup(&name_key("y")).is_err());
}

#[test]
fn positional_keys_one_based() {
    let d = plain_struct(
        "S",
        vec![
            unnamed(Annotation::Empty),
            unnamed(Annotation::Empty),
            unnamed(Annotation::Empty),
        ],
    );
    let g = generated(&d);
    assert_eq!(g.read_table.lookup(&Key::Index(1)), Ok(0));
    assert_eq!(g.read_table.lookup(&Key::Index(2)), Ok(1));
    assert_eq!(g.read_table.lookup(&Key::Index(3)), Ok(2));
    assert!(g.read_table.lookup(&Key::Index(0)).is_err());
    assert!(g.read_table.lookup(&Key::Index(4)).is_err());
}

#[test]
fn zero_fields_skipped() {
    let d = plain_struct("Nothing", vec![]);
    assert_eq!(expand(&d), Ok(Expansion::Skipped));
}

#[test]
fn unknown_key_fallback() {
    let g = generated(&tester());
    let e = g.read_table.lookup(&name_key("nope")).unwrap_err();
    assert_eq!(e.key, name_key("nope"));
    let e = g.write_table.lookup(&name_key("nope")).unwrap_err();
    assert_eq!(e.key, name_key("nope"));
    let e = g.read_table.lookup(&Key::Index(7)).unwrap_err();
    assert_eq!(e.key, Key::Index(7));
    let e = g.write_table.lookup(&Key::Index(7)).unwrap_err();
    assert_eq!(e.key, Key::Index(7));
}

#[test]
fn duplicate_key_shadowing() {
    let d = plain_struct(
        "S",
        vec![named("dup", Annotation::Empty), named("dup", Annotation::Empty)],
    );
    let g = generated(&d);
    assert_eq!(g.read_table.arms.len(), 2);
    assert_eq!(g.read_table.lookup(&name_key("dup")), Ok(0));
    assert_eq!(g.write_table.lookup(&name_key("dup")), Ok(0));
}

#[test]
fn rename_collision_shadowed_by_earlier_field() {
    let d = plain_struct(
        "S",
        vec![
            named("a", Annotation::Empty),
            named(
                "b",
                Annotation::Args(vec![
                    ident("rename"),
                    AttrToken::Equals,
                    lit("a"),
                    AttrToken::Comma,
                    ident("read"),
                ]),
            ),
        ],
    );
    let g = generated(&d);
    assert_eq!(g.read_table.lookup(&name_key("a")), Ok(0));
    assert_eq!(g.write_table.lookup(&name_key("a")), Ok(0));
}

#[test]
fn end_to_end_scenario() {
    let g = generated(&tester());
    assert_eq!(g.read_table.lookup(&name_key("field")), Ok(0));
    assert_eq!(g.read_table.lookup(&name_key("read_only")), Ok(1));
    assert_eq!(g.read_table.lookup(&name_key("hello")), Ok(2));
    assert_eq!(g.write_table.lookup(&name_key("field")), Ok(0));
    for key in [
        name_key("hellont"),
        name_key("somewhere_else"),
        Key::Index(1),
        Key::Index(2),
    ] {
        assert_eq!(g.read_table.lookup(&key).unwrap_err().key, key);
    }
    for key in [
        name_key("read_only"),
        name_key("hello"),
        name_key("hellont"),
        Key::Index(1),
    ] {
        assert_eq!(g.write_table.lookup(&key).unwrap_err().key, key);
    }
}
