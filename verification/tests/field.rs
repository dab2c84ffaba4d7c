use partially::annotation::{AnnArgs, Annotation};
use partially::diag::Diagnostic;
use partially::field_receiver::FieldReceiver;
use partially::schema::FieldSchema;
use partially::token::{Delim, LitKind, LitTok, Spacing, Token};

fn ident(s: &str) -> Token {
    Token::Ident(s.to_string())
}

fn punct(c: char) -> Token {
    Token::Punct(c, Spacing::Alone)
}

fn lit_str(s: &str) -> Token {
    Token::Lit(LitTok {
        kind: LitKind::Str(s.to_string()),
        text: format!("\"{}\"", s),
    })
}

fn partially_list(payload: Vec<Token>) -> Annotation {
    Annotation {
        path: "partially".to_string(),
        args: AnnArgs::List(Delim::Paren, payload),
    }
}

fn make_dummy() -> FieldReceiver {
    FieldReceiver {
        ident: Some("Dummy".to_string()),
        vis: "pub".to_string(),
        attrs: Vec::new(),
        ty: "DummyField".to_string(),
        rename: None,
        omit: false,
        transparent: false,
        as_type: None,
    }
}

#[test]
fn invalidates_no_ident() {
    let mut instance = make_dummy();
    instance.ident = None;

    if instance.validate().is_ok() {
        println!("expected the unnamed field to be rejected");
    }
    assert!(instance.validate().is_err());
}

#[test]
fn invalidate_omit_rename() {
    let mut instance = make_dummy();
    instance.omit = true;
    instance.rename = Some("Renamed".to_string());

    assert!(instance.validate().is_err())
}

#[test]
fn invalidate_omit_transparent() {
    let mut instance = make_dummy();
    instance.omit = true;
    instance.transparent = true;

    assert!(instance.validate().is_err())
}

#[test]
fn invalidate_omit_as_type() {
    let mut instance = make_dummy();
    instance.omit = true;
    instance.as_type = Some("NewDummyField".to_string());

    assert!(instance.validate().is_err())
}

#[test]
fn invalidate_transparent_as_type() {
    let mut instance = make_dummy();
    instance.transparent = true;
    instance.as_type = Some("NewDummyField".to_string());

    assert!(instance.validate().is_err())
}

#[test]
fn validate() {
    let instance = make_dummy();

    assert!(instance.validate().is_ok());
}

#[test]
fn omit_conflict_message_names_the_rule() {
    let mut instance = make_dummy();
    instance.omit = true;
    instance.rename = Some("Renamed".to_string());

    let diags = instance.validate().unwrap_err();
    assert_eq!(diags.len(), 1);
    assert_eq!(diags[0].message(), "cannot use omit with any other options");
}

#[test]
fn default_wrapping_out_field() {
    let field = FieldSchema {
        ident: Some("value".to_string()),
        vis: String::new(),
        ty: "String".to_string(),
        attrs: vec![Annotation {
            path: "some_attr".to_string(),
            args: AnnArgs::Bare,
        }],
    };

    let receiver = FieldReceiver::from_field(&field).unwrap();
    let out = receiver.out_field().unwrap();

    assert_eq!(out.name, "value");
    assert_eq!(out.ty, "Option < String >");
    assert_eq!(out.attrs.len(), 1);
    assert_eq!(out.attrs[0].render(), "#[some_attr]");
}

#[test]
fn rename_from_byte_string_literal() {
    let field = FieldSchema {
        ident: Some("old".to_string()),
        vis: String::new(),
        ty: "u8".to_string(),
        attrs: vec![partially_list(vec![
            ident("rename"),
            punct('='),
            Token::Lit(LitTok {
                kind: LitKind::ByteStr(vec![b'n', b'e', b'w']),
                text: "b\"new\"".to_string(),
            }),
        ])],
    };

    let receiver = FieldReceiver::from_field(&field).unwrap();
    assert_eq!(receiver.rename, Some("new".to_string()));
}

#[test]
fn rename_from_char_literal() {
    let field = FieldSchema {
        ident: Some("old".to_string()),
        vis: String::new(),
        ty: "u8".to_string(),
        attrs: vec![partially_list(vec![
            ident("rename"),
            punct('='),
            Token::Lit(LitTok {
                kind: LitKind::Char('x'),
                text: "'x'".to_string(),
            }),
        ])],
    };

    let receiver = FieldReceiver::from_field(&field).unwrap();
    assert_eq!(receiver.rename, Some("x".to_string()));
}

#[test]
fn malformed_byte_string_literal() {
    let field = FieldSchema {
        ident: Some("old".to_string()),
        vis: String::new(),
        ty: "u8".to_string(),
        attrs: vec![partially_list(vec![
            ident("rename"),
            punct('='),
            Token::Lit(LitTok {
                kind: LitKind::ByteStr(vec![0xff]),
                text: "b\"\\xff\"".to_string(),
            }),
        ])],
    };

    let errs = FieldReceiver::from_field(&field).unwrap_err();
    assert_eq!(errs.len(), 1);
    match &errs[0] {
        Diagnostic::MalformedLiteral(text) => assert_eq!(text, "b\"\\xff\""),
        _ => panic!("expected a malformed-literal diagnostic"),
    }
}

#[test]
fn string_as_type_accepted_verbatim() {
    let field = FieldSchema {
        ident: Some("number".to_string()),
        vis: String::new(),
        ty: "i32".to_string(),
        attrs: vec![partially_list(vec![
            ident("as_type"),
            punct('='),
            lit_str("Option<f32>"),
        ])],
    };

    let receiver = FieldReceiver::from_field(&field).unwrap();
    assert_eq!(receiver.as_type, Some("Option<f32>".to_string()));
}

#[test]
fn transparent_field_keeps_its_type() {
    let field = FieldSchema {
        ident: Some("value".to_string()),
        vis: String::new(),
        ty: "Option < String >".to_string(),
        attrs: vec![partially_list(vec![ident("transparent")])],
    };

    let receiver = FieldReceiver::from_field(&field).unwrap();
    let out = receiver.out_field().unwrap();

    assert_eq!(out.ty, "Option < String >");
}
