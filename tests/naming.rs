use ts_decl::casing::{apply_inflection, Inflection};
use ts_decl::naming::format_docs;
use ts_decl::{raw_name_to_ts_field, to_ts_ident};

#[test]
fn plain_names_stay_bare() {
    assert_eq!(raw_name_to_ts_field("foo".to_string()), "foo");
    assert_eq!(raw_name_to_ts_field("$ok_1".to_string()), "$ok_1");
    assert_eq!(raw_name_to_ts_field("".to_string()), "");
    assert_eq!(raw_name_to_ts_field("größe".to_string()), "größe");
}

#[test]
fn special_names_are_quoted() {
    assert_eq!(raw_name_to_ts_field("foo-bar".to_string()), "\"foo-bar\"");
    assert_eq!(raw_name_to_ts_field("a b".to_string()), "\"a b\"");
    assert_eq!(raw_name_to_ts_field("1abc".to_string()), "\"1abc\"");
}

#[test]
fn raw_identifiers_lose_their_marker() {
    assert_eq!(to_ts_ident("r#type"), "type");
    assert_eq!(to_ts_ident("plain"), "plain");
    assert_eq!(to_ts_ident("r"), "r");
}

#[test]
fn docs_become_a_comment_block() {
    let lines = vec!["Hello".to_string(), "".to_string(), "  world  ".to_string(), "   ".to_string()];
    assert_eq!(format_docs(&lines), "/**\n *Hello\n *\n *  world\n *\n */\n");
    assert_eq!(format_docs(&vec![]), "");
}

#[test]
fn inflections_rename() {
    assert_eq!(apply_inflection(Inflection::Camel, "user_id"), "userId");
    assert_eq!(apply_inflection(Inflection::Camel, "MyVariant"), "myVariant");
    assert_eq!(apply_inflection(Inflection::Pascal, "user_id"), "UserId");
    assert_eq!(apply_inflection(Inflection::Snake, "MyVariant"), "my_variant");
    assert_eq!(apply_inflection(Inflection::Snake, "user_id"), "user_id");
    assert_eq!(apply_inflection(Inflection::Kebab, "MyVariant"), "my-variant");
    assert_eq!(apply_inflection(Inflection::Kebab, "user_id"), "user-id");
    assert_eq!(apply_inflection(Inflection::ScreamingSnake, "MyVariant"), "MY_VARIANT");
    assert_eq!(apply_inflection(Inflection::Lower, "MyVariant"), "myvariant");
    assert_eq!(apply_inflection(Inflection::Upper, "MyVariant"), "MYVARIANT");
    assert_eq!(apply_inflection(Inflection::Camel, ""), "");
}

#[test]
fn docs_trim_unicode_whitespace() {
    let lines = vec!["abc\u{3000}\t".to_string(), "\u{a0}".to_string(), "x\u{200b}".to_string()];
    assert_eq!(format_docs(&lines), "/**\n *abc\n *\n *x\u{200b}\n */\n");
}
