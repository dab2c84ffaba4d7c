use partially::meta_attribute::MetaAttribute;
use partially::token::{Delim, LitKind, LitTok, Spacing, Token};

fn ident(s: &str) -> Token {
    Token::Ident(s.to_string())
}

fn punct(c: char) -> Token {
    Token::Punct(c, Spacing::Alone)
}

fn jpunct(c: char) -> Token {
    Token::Punct(c, Spacing::Joint)
}

fn lit_str(s: &str) -> Token {
    Token::Lit(LitTok {
        kind: LitKind::Str(s.to_string()),
        text: format!("\"{}\"", s),
    })
}

#[test]
fn single_attribute_path() {
    let payload = vec![ident("attr_name")];
    let input = MetaAttribute::from_meta(&payload).unwrap();

    let actual = input.render();
    let expected = "#[attr_name]";

    assert_eq!(actual, expected);
}

#[test]
fn single_attribute_list() {
    let payload = vec![ident("attr_name"), Token::Group(Delim::Paren, vec![ident("attr_path")])];
    let input = MetaAttribute::from_meta(&payload).unwrap();

    let actual = input.render();
    let expected = "#[attr_name(attr_path)]";

    assert_eq!(actual, expected);
}

#[test]
fn single_attribute_name_value() {
    let payload = vec![
        ident("attr_name"),
        Token::Group(
            Delim::Paren,
            vec![ident("value_name"), punct('='), lit_str("value_value")],
        ),
    ];
    let input = MetaAttribute::from_meta(&payload).unwrap();

    let actual = input.render();
    let expected = "#[attr_name(value_name = \"value_value\")]";

    assert_eq!(actual, expected);
}

#[test]
fn multi_attribute_fail() {
    let payload = vec![
        ident("attr_name1"),
        Token::Group(Delim::Paren, vec![ident("attr_path1")]),
        punct(','),
        ident("attr_name2"),
        Token::Group(Delim::Paren, vec![ident("attr_path2")]),
    ];

    assert!(MetaAttribute::from_meta(&payload).is_err());
}

#[test]
fn single_attribute_pathed() {
    let payload = vec![ident("rustfmt"), jpunct(':'), punct(':'), ident("skip")];
    let input = MetaAttribute::from_meta(&payload).unwrap();

    assert_eq!(input.render(), "#[rustfmt :: skip]");
}
