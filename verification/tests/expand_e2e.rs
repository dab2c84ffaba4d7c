use partially::annotation::{AnnArgs, Annotation};
use partially::diag::Diagnostic;
use partially::expand::expand_derive_partial;
use partially::schema::{
    FieldSchema, GenericParam, GenericsDecl, SchemaData, StructSchema,
};
use partially::token::{Delim, LitKind, LitTok, Spacing, Token};

fn ident(s: &str) -> Token {
    Token::Ident(s.to_string())
}

fn punct(c: char) -> Token {
    Token::Punct(c, Spacing::Alone)
}

fn jpunct(c: char) -> Token {
    Token::Punct(c, Spacing::Joint)
}

fn lit_str(s: &str) -> Token {
    Token::Lit(LitTok {
        kind: LitKind::Str(s.to_string()),
        text: format!("\"{}\"", s),
    })
}

fn bare(path: &str) -> Annotation {
    Annotation {
        path: path.to_string(),
        args: AnnArgs::Bare,
    }
}

fn list(path: &str, payload: Vec<Token>) -> Annotation {
    Annotation {
        path: path.to_string(),
        args: AnnArgs::List(Delim::Paren, payload),
    }
}

fn no_generics() -> GenericsDecl {
    GenericsDecl {
        params: Vec::new(),
        where_clause: String::new(),
    }
}

fn plain_field(name: &str, ty: &str) -> FieldSchema {
    FieldSchema {
        ident: Some(name.to_string()),
        vis: String::new(),
        ty: ty.to_string(),
        attrs: Vec::new(),
    }
}

fn field_with_attrs(name: &str, ty: &str, attrs: Vec<Annotation>) -> FieldSchema {
    FieldSchema {
        ident: Some(name.to_string()),
        vis: String::new(),
        ty: ty.to_string(),
        attrs,
    }
}

/// The struct-level annotations shared by the end-to-end inputs.
fn e2e_struct_attrs(rename_to: Option<&str>, krate: Option<&str>) -> Vec<Annotation> {
    let mut attrs = vec![list(
        "derive",
        vec![
            ident("partially"),
            jpunct(':'),
            punct(':'),
            ident("Partial"),
            punct(','),
            ident("Default"),
            punct(','),
            ident("Debug"),
        ],
    )];
    if let Some(name) = rename_to {
        attrs.push(list(
            "partially",
            vec![ident("rename"), punct('='), lit_str(name)],
        ));
    }
    attrs.push(list(
        "partially",
        vec![
            ident("derive"),
            Token::Group(
                Delim::Paren,
                vec![ident("Default"), punct(','), ident("Debug")],
            ),
        ],
    ));
    if let Some(path) = krate {
        attrs.push(list(
            "partially",
            vec![ident("crate"), punct('='), lit_str(path)],
        ));
    }
    attrs.push(bare("some_attr"));
    attrs
}

/// The fields shared by the end-to-end inputs; the first field's type
/// varies between the plain and the generic variants.
fn e2e_fields(first_name: &str, first_ty: &str) -> Vec<FieldSchema> {
    vec![
        field_with_attrs(
            first_name,
            first_ty,
            vec![
                Annotation {
                    path: "doc".to_string(),
                    args: AnnArgs::Value(vec![lit_str(" A documented field.")]),
                },
                bare("some_attr"),
            ],
        ),
        field_with_attrs(
            "skipped_field",
            "String",
            vec![list("partially", vec![ident("omit")])],
        ),
        field_with_attrs(
            "number_field",
            "i32",
            vec![
                list(
                    "partially",
                    vec![ident("as_type"), punct('='), lit_str("Option<f32>")],
                ),
                bare("some_attr"),
            ],
        ),
        field_with_attrs(
            "transparent_field",
            "Option < String >",
            vec![list("partially", vec![ident("transparent")])],
        ),
        field_with_attrs(
            "old_field",
            "String",
            vec![list(
                "partially",
                vec![ident("rename"), punct('='), lit_str("new_field")],
            )],
        ),
    ]
}

fn expected_fields(first_name: &str, first_out_ty: &str) -> String {
    format!(
        "{{ #[doc = \" A documented field.\"] #[some_attr] {} : {} , \
         #[some_attr] number_field : Option<f32> , \
         transparent_field : Option < String > , \
         new_field : Option < String > }}",
        first_name, first_out_ty
    )
}

fn expected_applicators(first_name: &str) -> String {
    format!(
        "if let Some ( {first} ) = partial . {first} {{ self . {first} = {first} . into ( ) ; applied = true ; }} \
         if let Some ( number_field ) = partial . number_field {{ self . number_field = number_field . into ( ) ; applied = true ; }} \
         if let Some ( transparent_field ) = partial . transparent_field {{ self . transparent_field = transparent_field . into ( ) ; applied = true ; }} \
         if let Some ( new_field ) = partial . new_field {{ self . old_field = new_field . into ( ) ; applied = true ; }}",
        first = first_name
    )
}

#[test]
fn basic_e2e() {
    let input = StructSchema {
        ident: "Data".to_string(),
        vis: String::new(),
        generics: no_generics(),
        attrs: e2e_struct_attrs(None, None),
        data: SchemaData::Struct(e2e_fields("str_field", "String")),
    };

    let expansion = expand_derive_partial(&input).unwrap();
    let expanded = expansion.render();

    let expected = format!(
        "#[derive(Default , Debug)] #[some_attr] struct PartialData {} \
         impl partially :: Partial for Data {{ type Item = PartialData ; \
         fn apply_some ( & mut self , partial : Self :: Item ) -> bool {{ \
         let mut applied = false ; {} applied }} }}",
        expected_fields("str_field", "Option < String >"),
        expected_applicators("str_field"),
    );

    assert_eq!(expanded, expected);
}

#[test]
fn basic_e2e_named() {
    let input = StructSchema {
        ident: "Data".to_string(),
        vis: String::new(),
        generics: no_generics(),
        attrs: e2e_struct_attrs(Some("OptData"), None),
        data: SchemaData::Struct(e2e_fields("str_field", "String")),
    };

    let expansion = expand_derive_partial(&input).unwrap();
    let expanded = expansion.render();

    let expected = format!(
        "#[derive(Default , Debug)] #[some_attr] struct OptData {} \
         impl partially :: Partial for Data {{ type Item = OptData ; \
         fn apply_some ( & mut self , partial : Self :: Item ) -> bool {{ \
         let mut applied = false ; {} applied }} }}",
        expected_fields("str_field", "Option < String >"),
        expected_applicators("str_field"),
    );

    assert_eq!(expanded, expected);
}

#[test]
fn generic_e2e() {
    let input = StructSchema {
        ident: "Data".to_string(),
        vis: String::new(),
        generics: GenericsDecl {
            params: vec![GenericParam {
                name: "T".to_string(),
                bounds: String::new(),
            }],
            where_clause: String::new(),
        },
        attrs: e2e_struct_attrs(Some("PartialData"), None),
        data: SchemaData::Struct(e2e_fields("type_field", "T")),
    };

    let expansion = expand_derive_partial(&input).unwrap();
    let expanded = expansion.render();

    let expected = format!(
        "#[derive(Default , Debug)] #[some_attr] struct PartialData < T > {} \
         impl < T > partially :: Partial for Data < T > {{ type Item = PartialData < T > ; \
         fn apply_some ( & mut self , partial : Self :: Item ) -> bool {{ \
         let mut applied = false ; {} applied }} }}",
        expected_fields("type_field", "Option < T >"),
        expected_applicators("type_field"),
    );

    assert_eq!(expanded, expected);
}

#[test]
fn generic_constrained_e2e() {
    let input = StructSchema {
        ident: "Data".to_string(),
        vis: String::new(),
        generics: GenericsDecl {
            params: vec![GenericParam {
                name: "T".to_string(),
                bounds: String::new(),
            }],
            where_clause: "where T : Sized".to_string(),
        },
        attrs: e2e_struct_attrs(Some("PartialData"), Some("custom_partially")),
        data: SchemaData::Struct(e2e_fields("type_field", "T")),
    };

    let expansion = expand_derive_partial(&input).unwrap();
    let expanded = expansion.render();

    let expected = format!(
        "#[derive(Default , Debug)] #[some_attr] struct PartialData < T > where T : Sized {} \
         impl < T > custom_partially :: Partial for Data < T > where T : Sized \
         {{ type Item = PartialData < T > ; \
         fn apply_some ( & mut self , partial : Self :: Item ) -> bool {{ \
         let mut applied = false ; {} applied }} }}",
        expected_fields("type_field", "Option < T >"),
        expected_applicators("type_field"),
    );

    assert_eq!(expanded, expected);
}

#[test]
fn example_scenario_shape() {
    let input = StructSchema {
        ident: "Data".to_string(),
        vis: String::new(),
        generics: no_generics(),
        attrs: Vec::new(),
        data: SchemaData::Struct(vec![plain_field("value", "String")]),
    };

    let expansion = expand_derive_partial(&input).unwrap();

    assert_eq!(expansion.mirrored.ident, "PartialData");
    assert_eq!(expansion.mirrored.fields.len(), 1);
    assert_eq!(expansion.mirrored.fields[0].name, "value");
    assert_eq!(expansion.mirrored.fields[0].ty, "Option < String >");
    assert_eq!(expansion.merge.fields.len(), 1);
    assert_eq!(expansion.merge.fields[0].base, "value");
    assert_eq!(expansion.merge.fields[0].partial, "value");
    assert_eq!(
        expansion.mirrored.render(),
        "struct PartialData { value : Option < String > }"
    );
}

#[test]
fn omitted_field_never_appears() {
    let input = StructSchema {
        ident: "Data".to_string(),
        vis: String::new(),
        generics: no_generics(),
        attrs: Vec::new(),
        data: SchemaData::Struct(vec![
            plain_field("kept", "u32"),
            field_with_attrs(
                "hidden",
                "u32",
                vec![list("partially", vec![ident("omit")])],
            ),
        ]),
    };

    let expansion = expand_derive_partial(&input).unwrap();

    assert_eq!(expansion.mirrored.fields.len(), 1);
    assert_eq!(expansion.mirrored.fields[0].name, "kept");
    assert_eq!(expansion.merge.fields.len(), 1);
    assert_eq!(expansion.merge.fields[0].base, "kept");
}

#[test]
fn omit_with_rename_fails() {
    let input = StructSchema {
        ident: "Data".to_string(),
        vis: String::new(),
        generics: no_generics(),
        attrs: Vec::new(),
        data: SchemaData::Struct(vec![field_with_attrs(
            "hidden",
            "u32",
            vec![list(
                "partially",
                vec![
                    ident("omit"),
                    punct(','),
                    ident("rename"),
                    punct('='),
                    lit_str("renamed"),
                ],
            )],
        )]),
    };

    let diags = expand_derive_partial(&input).unwrap_err();

    assert_eq!(diags.len(), 1);
    match &diags[0] {
        Diagnostic::ConflictingOptions(msg) => {
            assert_eq!(msg, "cannot use omit with any other options")
        },
        _ => panic!("expected a conflicting-options diagnostic"),
    }
}

#[test]
fn transparent_with_as_type_fails() {
    let input = StructSchema {
        ident: "Data".to_string(),
        vis: String::new(),
        generics: no_generics(),
        attrs: Vec::new(),
        data: SchemaData::Struct(vec![field_with_attrs(
            "value",
            "u32",
            vec![
                list("partially", vec![ident("transparent")]),
                list(
                    "partially",
                    vec![ident("as_type"), punct('='), ident("u64")],
                ),
            ],
        )]),
    };

    let diags = expand_derive_partial(&input).unwrap_err();

    assert_eq!(diags.len(), 1);
    match &diags[0] {
        Diagnostic::ConflictingOptions(msg) => {
            assert_eq!(msg, "cannot use both transparent and as_type")
        },
        _ => panic!("expected a conflicting-options diagnostic"),
    }
}

#[test]
fn enums_are_rejected() {
    let input = StructSchema {
        ident: "Choice".to_string(),
        vis: String::new(),
        generics: no_generics(),
        attrs: Vec::new(),
        data: SchemaData::Enum,
    };

    let diags = expand_derive_partial(&input).unwrap_err();

    assert_eq!(diags.len(), 1);
    assert!(matches!(diags[0], Diagnostic::UnsupportedShape));
}

#[test]
fn unnamed_fields_are_rejected() {
    let input = StructSchema {
        ident: "Tuple".to_string(),
        vis: String::new(),
        generics: no_generics(),
        attrs: Vec::new(),
        data: SchemaData::Struct(vec![FieldSchema {
            ident: None,
            vis: String::new(),
            ty: "u32".to_string(),
            attrs: Vec::new(),
        }]),
    };

    let diags = expand_derive_partial(&input).unwrap_err();

    assert_eq!(diags.len(), 1);
    assert!(matches!(diags[0], Diagnostic::MissingIdentifier));
}

#[test]
fn unknown_option_is_unsupported() {
    let input = StructSchema {
        ident: "Data".to_string(),
        vis: String::new(),
        generics: no_generics(),
        attrs: vec![list("partially", vec![ident("mystery")])],
        data: SchemaData::Struct(vec![plain_field("value", "String")]),
    };

    let diags = expand_derive_partial(&input).unwrap_err();

    assert_eq!(diags.len(), 1);
    match &diags[0] {
        Diagnostic::UnsupportedArgument(name) => assert_eq!(name, "mystery"),
        _ => panic!("expected an unsupported-argument diagnostic"),
    }
}

#[test]
fn attribute_forwarding_order() {
    let input = StructSchema {
        ident: "Data".to_string(),
        vis: String::new(),
        generics: no_generics(),
        attrs: vec![
            bare("first_attr"),
            list("derive", vec![ident("Clone")]),
            list(
                "partially",
                vec![
                    ident("derive"),
                    Token::Group(Delim::Paren, vec![ident("Debug")]),
                    punct(','),
                    ident("attribute"),
                    Token::Group(
                        Delim::Paren,
                        vec![
                            ident("serde"),
                            Token::Group(Delim::Paren, vec![ident("default")]),
                        ],
                    ),
                ],
            ),
            bare("second_attr"),
        ],
        data: SchemaData::Struct(vec![plain_field("value", "String")]),
    };

    let expansion = expand_derive_partial(&input).unwrap();
    let anns: Vec<String> = expansion.mirrored.anns.iter().map(|a| a.render()).collect();

    assert_eq!(
        anns,
        vec![
            "#[derive(Debug)]".to_string(),
            "#[first_attr]".to_string(),
            "#[second_attr]".to_string(),
            "#[serde(default)]".to_string(),
        ]
    );
}

#[test]
fn skip_attributes_still_derives_and_adds() {
    let input = StructSchema {
        ident: "Data".to_string(),
        vis: String::new(),
        generics: no_generics(),
        attrs: vec![
            bare("dropped_attr"),
            list(
                "partially",
                vec![
                    ident("skip_attributes"),
                    punct(','),
                    ident("derive"),
                    Token::Group(Delim::Paren, vec![ident("Default")]),
                    punct(','),
                    ident("attribute"),
                    Token::Group(
                        Delim::Paren,
                        vec![
                            ident("serde"),
                            Token::Group(Delim::Paren, vec![ident("default")]),
                        ],
                    ),
                ],
            ),
        ],
        data: SchemaData::Struct(vec![plain_field("value", "String")]),
    };

    let expansion = expand_derive_partial(&input).unwrap();
    let anns: Vec<String> = expansion.mirrored.anns.iter().map(|a| a.render()).collect();

    assert_eq!(
        anns,
        vec!["#[derive(Default)]".to_string(), "#[serde(default)]".to_string()]
    );
}

#[test]
fn visibility_is_copied() {
    let input = StructSchema {
        ident: "Data".to_string(),
        vis: "pub".to_string(),
        generics: no_generics(),
        attrs: Vec::new(),
        data: SchemaData::Struct(vec![FieldSchema {
            ident: Some("value".to_string()),
            vis: "pub".to_string(),
            ty: "u8".to_string(),
            attrs: Vec::new(),
        }]),
    };

    let expansion = expand_derive_partial(&input).unwrap();

    assert_eq!(expansion.mirrored.vis, "pub");
    assert_eq!(
        expansion.mirrored.render(),
        "pub struct PartialData { pub value : Option < u8 > }"
    );
}

#[test]
fn pathed_attribute_is_accepted() {
    let input = StructSchema {
        ident: "Data".to_string(),
        vis: String::new(),
        generics: no_generics(),
        attrs: vec![list(
            "partially",
            vec![
                ident("attribute"),
                Token::Group(
                    Delim::Paren,
                    vec![ident("rustfmt"), jpunct(':'), punct(':'), ident("skip")],
                ),
            ],
        )],
        data: SchemaData::Struct(vec![plain_field("value", "String")]),
    };

    let expansion = expand_derive_partial(&input).unwrap();
    let anns: Vec<String> = expansion.mirrored.anns.iter().map(|a| a.render()).collect();

    assert_eq!(anns, vec!["#[rustfmt :: skip]".to_string()]);
}

#[test]
fn bracket_list_attribute_forwarded_verbatim() {
    let input = StructSchema {
        ident: "Data".to_string(),
        vis: String::new(),
        generics: no_generics(),
        attrs: vec![Annotation {
            path: "bracketed".to_string(),
            args: AnnArgs::List(Delim::Bracket, vec![ident("inner")]),
        }],
        data: SchemaData::Struct(vec![plain_field("value", "String")]),
    };

    let expansion = expand_derive_partial(&input).unwrap();
    let anns: Vec<String> = expansion.mirrored.anns.iter().map(|a| a.render()).collect();

    assert_eq!(anns, vec!["#[bracketed[inner]]".to_string()]);
}

#[test]
fn crate_literal_must_be_a_path() {
    let input = StructSchema {
        ident: "Data".to_string(),
        vis: String::new(),
        generics: no_generics(),
        attrs: vec![list(
            "partially",
            vec![ident("crate"), punct('='), lit_str("not a path!")],
        )],
        data: SchemaData::Struct(vec![plain_field("value", "String")]),
    };

    let diags = expand_derive_partial(&input).unwrap_err();

    assert_eq!(diags.len(), 1);
    match &diags[0] {
        Diagnostic::UnsupportedArgument(name) => assert_eq!(name, "crate"),
        _ => panic!("expected an unsupported-argument diagnostic"),
    }
}

#[test]
fn unquoted_crate_path_is_accepted() {
    let input = StructSchema {
        ident: "Data".to_string(),
        vis: String::new(),
        generics: no_generics(),
        attrs: vec![list(
            "partially",
            vec![
                ident("crate"),
                punct('='),
                ident("my"),
                jpunct(':'),
                punct(':'),
                ident("fork"),
            ],
        )],
        data: SchemaData::Struct(vec![plain_field("value", "String")]),
    };

    let expansion = expand_derive_partial(&input).unwrap();
    let rendered = expansion.merge.render();

    assert!(rendered.starts_with("impl my :: fork :: Partial for Data"));
}
