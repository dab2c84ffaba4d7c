use partially::annotation::{AnnArgs, Annotation};
use partially::attr::OperationSet;
use partially::ctx::Context;
use partially::parse::{parse_arguments, Argument};
use partially::schema::{
    FieldSchema, GenericsDecl, SchemaData, StructSchema,
};
use partially::token::{Delim, LitKind, LitTok, Spacing, Token};

fn ident(s: &str) -> Token {
    Token::Ident(s.to_string())
}

fn punct(c: char) -> Token {
    Token::Punct(c, Spacing::Alone)
}

fn jpunct(c: char) -> Token {
    Token::Punct(c, Spacing::Joint)
}

fn lit_str(s: &str) -> Token {
    Token::Lit(LitTok {
        kind: LitKind::Str(s.to_string()),
        text: format!("\"{}\"", s),
    })
}

fn four_values_payload() -> Vec<Token> {
    vec![
        ident("value_one"),
        punct('='),
        lit_str("one"),
        punct(','),
        ident("value_two"),
        punct(','),
        ident("value_three"),
        punct('='),
        ident("f32"),
        punct(','),
        ident("value_four"),
        punct('='),
        ident("four_real"),
    ]
}

fn assert_four_values(args: &[Argument]) {
    assert_eq!(args.len(), 4);
    match &args[0] {
        Argument::WithLiteral(name, value) => {
            assert_eq!(name, "value_one");
            assert_eq!(value, "one");
        },
        _ => panic!("expected a literal argument"),
    }
    match &args[1] {
        Argument::Standalone(name) => assert_eq!(name, "value_two"),
        _ => panic!("expected a standalone argument"),
    }
    match &args[2] {
        Argument::WithType(name, ty) => {
            assert_eq!(name, "value_three");
            assert_eq!(ty, "f32");
        },
        _ => panic!("expected a type argument"),
    }
    match &args[3] {
        Argument::WithType(name, ty) => {
            assert_eq!(name, "value_four");
            assert_eq!(ty, "four_real");
        },
        _ => panic!("expected a type argument"),
    }
}

#[test]
fn parse_struct_attributes() {
    let payload = four_values_payload();

    let args = parse_arguments(&payload).expect("failed to parse");

    assert_four_values(&args);
}

#[test]
fn parse_field_attributes() {
    let payload = four_values_payload();

    let args = parse_arguments(&payload).expect("failed to parse");

    assert_four_values(&args);
}

#[test]
fn parse_as_type_option_attribute() {
    let payload = vec![
        ident("value_one"),
        punct('='),
        ident("Option"),
        punct('<'),
        ident("f32"),
        punct('>'),
    ];

    let args = parse_arguments(&payload).expect("failed to parse");

    assert_eq!(args.len(), 1);
    match &args[0] {
        Argument::WithType(name, ty) => {
            assert_eq!(name, "value_one");
            assert_eq!(ty, "Option < f32 >");
        },
        _ => panic!("expected a type argument"),
    }
}

fn partially_list(payload: Vec<Token>) -> Annotation {
    Annotation {
        path: "partially".to_string(),
        args: AnnArgs::List(Delim::Paren, payload),
    }
}

fn item_with_attrs(attrs: Vec<Annotation>) -> StructSchema {
    StructSchema {
        ident: "MyItem".to_string(),
        vis: String::new(),
        generics: GenericsDecl {
            params: Vec::new(),
            where_clause: String::new(),
        },
        attrs,
        data: SchemaData::Struct(vec![FieldSchema {
            ident: Some("field".to_string()),
            vis: String::new(),
            ty: "i32".to_string(),
            attrs: Vec::new(),
        }]),
    }
}

#[test]
fn parse_struct_operation_set() {
    let item = item_with_attrs(vec![partially_list(vec![
        ident("rename"),
        punct('='),
        lit_str("PartialItem"),
    ])]);

    let ctx = Context::new(&item);
    let item_set = OperationSet::new(&ctx, &item.attrs).expect("failed to parse OperationSet");

    assert_eq!(item_set.rename(), Some("PartialItem".to_string()));
    assert!(item_set.as_type().is_none());
    assert!(!item_set.transparent());
}

#[test]
fn parse_field_operation_set() {
    let field = FieldSchema {
        ident: Some("field".to_string()),
        vis: String::new(),
        ty: "i32".to_string(),
        attrs: vec![partially_list(vec![
            ident("rename"),
            punct('='),
            lit_str("number"),
            punct(','),
            ident("as_type"),
            punct('='),
            ident("f32"),
        ])],
    };

    let ctx = Context::new(&field);
    let field_set = OperationSet::new(&ctx, &field.attrs).expect("failed to parse OperationSet");

    assert_eq!(field_set.rename(), Some("number".to_string()));
    assert!(field_set.as_type().is_some());
    assert_eq!(field_set.as_type(), Some("f32".to_string()));
    assert!(!field_set.transparent());
}

#[test]
fn transparent_then_as_type_rejected() {
    let field = FieldSchema {
        ident: Some("field".to_string()),
        vis: String::new(),
        ty: "i32".to_string(),
        attrs: vec![partially_list(vec![
            ident("transparent"),
            punct(','),
            ident("as_type"),
            punct('='),
            ident("f32"),
        ])],
    };

    let ctx = Context::new(&field);
    let errs = OperationSet::new(&ctx, &field.attrs).unwrap_err();

    assert_eq!(errs.len(), 1);
    match &errs[0] {
        partially::diag::Diagnostic::UnsupportedArgument(name) => assert_eq!(name, "as_type"),
        _ => panic!("expected an unsupported-argument diagnostic"),
    }
}

#[test]
fn as_type_then_transparent_rejected() {
    let field = FieldSchema {
        ident: Some("field".to_string()),
        vis: String::new(),
        ty: "i32".to_string(),
        attrs: vec![partially_list(vec![
            ident("as_type"),
            punct('='),
            ident("f32"),
            punct(','),
            ident("transparent"),
        ])],
    };

    let ctx = Context::new(&field);
    let errs = OperationSet::new(&ctx, &field.attrs).unwrap_err();

    assert_eq!(errs.len(), 1);
    match &errs[0] {
        partially::diag::Diagnostic::UnsupportedArgument(name) => assert_eq!(name, "transparent"),
        _ => panic!("expected an unsupported-argument diagnostic"),
    }
}

#[test]
fn transparent_rejected_at_struct_scope() {
    let item = item_with_attrs(vec![partially_list(vec![ident("transparent")])]);

    let ctx = Context::new(&item);
    let errs = OperationSet::new(&ctx, &item.attrs).unwrap_err();

    assert_eq!(errs.len(), 1);
    match &errs[0] {
        partially::diag::Diagnostic::UnsupportedArgument(name) => assert_eq!(name, "transparent"),
        _ => panic!("expected an unsupported-argument diagnostic"),
    }
}

#[test]
fn empty_payload_is_ignored() {
    let item = item_with_attrs(vec![partially_list(Vec::new())]);

    let ctx = Context::new(&item);
    let item_set = OperationSet::new(&ctx, &item.attrs).expect("failed to parse OperationSet");

    assert_eq!(item_set.rename(), None);
    assert!(item_set.as_type().is_none());
    assert!(!item_set.transparent());
}

#[test]
fn numeric_value_is_a_syntax_error() {
    let payload = vec![
        ident("rename"),
        punct('='),
        Token::Lit(LitTok {
            kind: LitKind::Other,
            text: "1.5".to_string(),
        }),
    ];

    let err = parse_arguments(&payload).unwrap_err();

    match err {
        partially::diag::Diagnostic::SyntaxError(text) => assert_eq!(text, "1.5"),
        _ => panic!("expected a syntax error"),
    }
}

#[test]
fn all_violations_surface_together() {
    let field = FieldSchema {
        ident: Some("field".to_string()),
        vis: String::new(),
        ty: "i32".to_string(),
        attrs: vec![partially_list(vec![
            ident("bogus"),
            punct(','),
            ident("rename"),
            punct('='),
            lit_str("fine"),
            punct(','),
            ident("mystery"),
        ])],
    };

    let ctx = Context::new(&field);
    let errs = OperationSet::new(&ctx, &field.attrs).unwrap_err();

    assert_eq!(errs.len(), 2);
    match &errs[0] {
        partially::diag::Diagnostic::UnsupportedArgument(name) => assert_eq!(name, "bogus"),
        _ => panic!("expected an unsupported-argument diagnostic"),
    }
    match &errs[1] {
        partially::diag::Diagnostic::UnsupportedArgument(name) => assert_eq!(name, "mystery"),
        _ => panic!("expected an unsupported-argument diagnostic"),
    }
}

#[test]
fn as_type_spans_commas_in_generics() {
    let field = FieldSchema {
        ident: Some("field".to_string()),
        vis: String::new(),
        ty: "i32".to_string(),
        attrs: vec![partially_list(vec![
            ident("as_type"),
            punct('='),
            ident("HashMap"),
            punct('<'),
            ident("String"),
            punct(','),
            ident("String"),
            punct('>'),
            punct(','),
            ident("rename"),
            punct('='),
            lit_str("map"),
        ])],
    };

    let ctx = Context::new(&field);
    let field_set = OperationSet::new(&ctx, &field.attrs).expect("failed to parse OperationSet");

    assert_eq!(field_set.as_type(), Some("HashMap < String , String >".to_string()));
    assert_eq!(field_set.rename(), Some("map".to_string()));
}

#[test]
fn pathed_as_type_keeps_its_colons() {
    let field = FieldSchema {
        ident: Some("field".to_string()),
        vis: String::new(),
        ty: "i32".to_string(),
        attrs: vec![partially_list(vec![
            ident("as_type"),
            punct('='),
            ident("my"),
            jpunct(':'),
            punct(':'),
            ident("Type"),
        ])],
    };

    let ctx = Context::new(&field);
    let field_set = OperationSet::new(&ctx, &field.attrs).expect("failed to parse OperationSet");

    assert_eq!(field_set.as_type(), Some("my :: Type".to_string()));
}
