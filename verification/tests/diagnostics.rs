use rud_gen::{
    expand, generate, render, Annotation, AnnotationError, AttrToken, ExpandError, Expansion,
    FieldDef, GrammarError, StructDef, UnknownOptionError,
};

fn ident(s: &str) -> AttrToken {
    AttrToken::Ident(s.to_string())
}

fn lit(s: &str) -> AttrToken {
    AttrToken::Str(s.to_string())
}

fn named(name: &str, annotation: Annotation) -> FieldDef {
    FieldDef { name: Some(name.to_string()), annotation }
}

fn one_field_struct(annotation: Annotation) -> StructDef {
    StructDef {
        name: "S".to_string(),
        annotation: Annotation::Absent,
        fields: vec![named("x", annotation)],
    }
}

fn annotated_struct(annotation: Annotation) -> StructDef {
    StructDef {
        name: "S".to_string(),
        annotation,
        fields: vec![named("x", Annotation::Empty)],
    }
}

fn field_error(d: &StructDef) -> (usize, AnnotationError) {
    match expand(d).unwrap_err() {
        ExpandError::Field { field, error } => (field, error),
        other => panic!("expected a field diagnostic, got {:?}", other),
    }
}

fn structure_error(d: &StructDef) -> AnnotationError {
    match expand(d).unwrap_err() {
        ExpandError::Structure(error) => error,
        other => panic!("expected a structure diagnostic, got {:?}", other),
    }
}

fn rendered(d: &StructDef) -> String {
    match expand(d).expect("expansion succeeds") {
        Expansion::Generated(g) => render(&g),
        Expansion::Skipped => panic!("expected generated output"),
    }
}

#[test]
fn empty_argument_list_rejected() {
    let (field, error) = field_error(&one_field_struct(Annotation::Args(vec![])));
    assert_eq!(field, 0);
    assert_eq!(error, AnnotationError::Grammar(GrammarError::ExpectedEntry { pos: 0 }));
}

#[test]
fn non_identifier_entry_rejected() {
    let (_, error) = field_error(&one_field_struct(Annotation::Args(vec![lit("read")])));
    assert_eq!(error, AnnotationError::Grammar(GrammarError::ExpectedEntry { pos: 0 }));
}

#[test]
fn non_string_value_rejected() {
    let toks = vec![ident("rename"), AttrToken::Equals, AttrToken::OtherLit("1".to_string())];
    let (_, error) = field_error(&one_field_struct(Annotation::Args(toks)));
    assert_eq!(error, AnnotationError::Grammar(GrammarError::NotStringLiteral { pos: 2 }));
}

#[test]
fn missing_value_rejected() {
    let toks = vec![ident("rename"), AttrToken::Equals];
    let (_, error) = field_error(&one_field_struct(Annotation::Args(toks)));
    assert_eq!(error, AnnotationError::Grammar(GrammarError::NotStringLiteral { pos: 2 }));
}

#[test]
fn leftover_token_rejected() {
    let toks = vec![ident("read"), ident("read")];
    let (_, error) = field_error(&one_field_struct(Annotation::Args(toks)));
    assert_eq!(error, AnnotationError::Grammar(GrammarError::UnexpectedToken { pos: 1 }));
}

#[test]
fn trailing_comma_rejected() {
    let toks = vec![ident("read"), AttrToken::Comma];
    let (_, error) = field_error(&one_field_struct(Annotation::Args(toks)));
    assert_eq!(error, AnnotationError::Grammar(GrammarError::ExpectedEntry { pos: 2 }));
}

#[test]
fn unknown_field_flag_rejected() {
    let (_, error) = field_error(&one_field_struct(Annotation::Args(vec![ident("write")])));
    assert_eq!(
        error,
        AnnotationError::UnknownOption(UnknownOptionError { pos: 0, name: "write".to_string() })
    );
}

#[test]
fn unknown_field_pair_rejected() {
    let toks = vec![ident("alias"), AttrToken::Equals, lit("y")];
    let (_, error) = field_error(&one_field_struct(Annotation::Args(toks)));
    assert_eq!(
        error,
        AnnotationError::UnknownOption(UnknownOptionError { pos: 0, name: "alias".to_string() })
    );
}

#[test]
fn first_bad_field_named() {
    let d = StructDef {
        name: "S".to_string(),
        annotation: Annotation::Absent,
        fields: vec![
            named("good", Annotation::Empty),
            named("bad", Annotation::Args(vec![ident("write")])),
            named("worse", Annotation::Args(vec![lit("x")])),
        ],
    };
    let (field, _) = field_error(&d);
    assert_eq!(field, 1);
}

#[test]
fn struct_flag_rejected() {
    let error = structure_error(&annotated_struct(Annotation::Args(vec![ident("read")])));
    assert_eq!(
        error,
        AnnotationError::UnknownOption(UnknownOptionError { pos: 0, name: "read".to_string() })
    );
}

#[test]
fn struct_unknown_pair_rejected() {
    let toks = vec![ident("root"), AttrToken::Equals, lit("x")];
    let error = structure_error(&annotated_struct(Annotation::Args(toks)));
    assert_eq!(
        error,
        AnnotationError::UnknownOption(UnknownOptionError { pos: 0, name: "root".to_string() })
    );
}

#[test]
fn struct_crate_bad_path_rejected() {
    let toks = vec![ident("crate"), AttrToken::Equals, lit("not a path!!")];
    let error = structure_error(&annotated_struct(Annotation::Args(toks)));
    assert_eq!(
        error,
        AnnotationError::Grammar(GrammarError::InvalidPath {
            pos: 0,
            text: "not a path!!".to_string(),
        })
    );
}

#[test]
fn struct_crate_overrides_namespace() {
    let toks = vec![ident("crate"), AttrToken::Equals, lit("my_crate::lua")];
    let text = rendered(&annotated_struct(Annotation::Args(toks)));
    assert!(text.contains("impl my_crate::lua::rlua::UserData for S"));
    assert!(!text.contains("::rud_internal"));
}

#[test]
fn struct_crate_last_occurrence_wins() {
    let toks = vec![
        ident("crate"),
        AttrToken::Equals,
        lit("first::root"),
        AttrToken::Comma,
        ident("crate"),
        AttrToken::Equals,
        lit("second::root"),
    ];
    let text = rendered(&annotated_struct(Annotation::Args(toks)));
    assert!(text.contains("impl second::root::rlua::UserData for S"));
}

#[test]
fn default_namespace_rendered() {
    let text = rendered(&annotated_struct(Annotation::Absent));
    assert!(text.contains("impl ::rud_internal::rlua::UserData for S"));
}

#[test]
fn render_read_and_write_arms() {
    let d = StructDef {
        name: "Tester".to_string(),
        annotation: Annotation::Absent,
        fields: vec![
            named("field", Annotation::Empty),
            named("read_only", Annotation::Args(vec![ident("read")])),
            named(
                "hellont",
                Annotation::Args(vec![
                    ident("rename"),
                    AttrToken::Equals,
                    lit("hello"),
                    AttrToken::Comma,
                    ident("read"),
                ]),
            ),
        ],
    };
    let text = rendered(&d);
    assert_eq!(text.matches("key.as_bytes() == b\"field\"").count(), 2);
    assert_eq!(text.matches("key.as_bytes() == b\"read_only\"").count(), 1);
    assert_eq!(text.matches("key.as_bytes() == b\"hello\"").count(), 1);
    assert!(!text.contains("b\"hellont\""));
    assert_eq!(text.matches("FromLua::from_lua").count(), 1);
    assert!(text.contains("Ok(ToLua::to_lua(this.field.clone(), ctx)?)"));
    assert!(text.contains("this.field = FromLua::from_lua(val, ctx)?; Ok(())"));
}

#[test]
fn render_positional_arm() {
    let d = StructDef {
        name: "Pair".to_string(),
        annotation: Annotation::Absent,
        fields: vec![
            FieldDef { name: None, annotation: Annotation::Empty },
            FieldDef { name: None, annotation: Annotation::Empty },
        ],
    };
    let text = rendered(&d);
    assert!(text.contains("Value::Integer(key) if key == 1 as LuaInteger"));
    assert!(text.contains("Value::Integer(key) if key == 2 as LuaInteger"));
    assert!(text.contains("this.0"));
    assert!(text.contains("this.1"));
}

#[test]
fn render_renamed_tuple_field() {
    let d = StructDef {
        name: "Wrap".to_string(),
        annotation: Annotation::Absent,
        fields: vec![FieldDef {
            name: None,
            annotation: Annotation::Args(vec![
                ident("rename"),
                AttrToken::Equals,
                lit("t"),
                AttrToken::Comma,
                ident("read"),
            ]),
        }],
    };
    let text = rendered(&d);
    assert!(text.contains("key.as_bytes() == b\"t\""));
    assert!(text.contains("Ok(ToLua::to_lua(this.0.clone(), ctx)?)"));
}

#[test]
fn render_escapes_key_text() {
    let d = StructDef {
        name: "S".to_string(),
        annotation: Annotation::Absent,
        fields: vec![named(
            "x",
            Annotation::Args(vec![
                ident("rename"),
                AttrToken::Equals,
                lit("a\"b\\c\nd"),
                AttrToken::Comma,
                ident("read"),
            ]),
        )],
    };
    let text = rendered(&d);
    assert!(text.contains("key.as_bytes() == b\"a\\\"b\\\\c\\nd\""));
}

#[test]
fn generate_matches_expand_then_render() {
    let d = annotated_struct(Annotation::Absent);
    let text = generate(&d).expect("expansion succeeds").expect("output generated");
    assert_eq!(text, rendered(&d));
    assert!(text.starts_with("impl ::rud_internal::rlua::UserData for S {"));
    assert!(text.ends_with("}\n"));
}

#[test]
fn generate_skips_zero_fields() {
    let d = StructDef {
        name: "Nothing".to_string(),
        annotation: Annotation::Absent,
        fields: vec![],
    };
    assert_eq!(generate(&d), Ok(None));
}

#[test]
fn render_escapes_non_ascii_key() {
    let d = StructDef {
        name: "S".to_string(),
        annotation: Annotation::Absent,
        fields: vec![named(
            "x",
            Annotation::Args(vec![
                ident("rename"),
                AttrToken::Equals,
                lit("caf\u{e9}"),
                AttrToken::Comma,
                ident("read"),
            ]),
        )],
    };
    let text = rendered(&d);
    assert!(text.contains("key.as_bytes() == b\"caf\\xC3\\xA9\""));
}
