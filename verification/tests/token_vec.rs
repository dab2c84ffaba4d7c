use partially::token_vec::{Separator, TokenVec};

fn abc() -> Vec<String> {
    vec!["a".to_string(), "b".to_string(), "c".to_string()]
}

#[test]
fn separates_space() {
    let instance = TokenVec::new_with_vec_and_sep(abc(), Separator::Space);

    let actual = instance.render();

    assert_eq!(actual, "a b c");
}

#[test]
fn separates_comma() {
    let instance = TokenVec::new_with_vec_and_sep(abc(), Separator::Comma);

    let actual = instance.render();

    assert_eq!(actual, "a , b , c");
}

#[test]
fn separates_colon_colon() {
    let instance = TokenVec::new_with_vec_and_sep(abc(), Separator::ColonColon);

    let actual = instance.render();

    assert_eq!(actual, "a :: b :: c");
}

#[test]
fn separates_newline() {
    let instance = TokenVec::new_with_vec_and_sep(abc(), Separator::Newline);

    let actual = instance.render();

    assert_eq!(actual, "a b c");
}

#[test]
fn separates_comma_newline() {
    let instance = TokenVec::new_with_vec_and_sep(abc(), Separator::CommaNewline);

    let actual = instance.render();

    assert_eq!(actual, "a , b , c");
}

#[test]
fn default_separator_is_space() {
    let instance = TokenVec::new_with_vec(abc());

    assert_eq!(instance.render(), "a b c");
}
