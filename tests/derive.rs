use kinded::casing::DisplayCase;
use kinded::generate::{derive_kinded, expand};
use kinded::kinds::Payload;
use kinded::model::{
    AttrMeta, Attribute, Data, Delimiter, DeriveInput, FieldsType, KindedError, TokenTree, Variant,
};
use kinded::parse::{display_case_named, find_kinded_attr, parse_derive_input, parse_kinded_args};
use kinded::text::{chars_of, string_of};
use kinded::Kinded;

fn variant(name: &str, fields_type: FieldsType) -> Variant {
    Variant { ident: name.to_string(), fields_type }
}

fn ident(s: &str) -> TokenTree {
    TokenTree::Ident(s.to_string())
}

fn kinded_attr(toks: Vec<TokenTree>) -> Attribute {
    Attribute {
        path: vec!["kinded".to_string()],
        meta: AttrMeta::List(Delimiter::Parenthesis, toks),
    }
}

fn other_attr() -> Attribute {
    Attribute { path: vec!["allow".to_string()], meta: AttrMeta::List(Delimiter::Parenthesis, vec![ident("dead_code")]) }
}

fn drink_with(attrs: Vec<Attribute>) -> DeriveInput {
    DeriveInput {
        attrs,
        vis: "pub".to_string(),
        ident: "Drink".to_string(),
        generics: vec![],
        data: Data::Enum(vec![
            variant("Mate", FieldsType::Unit),
            variant("Coffee", FieldsType::Unnamed),
            variant("Tea", FieldsType::Named),
        ]),
    }
}

fn display_of(case: &str, name: &str) -> String {
    let input = DeriveInput {
        attrs: vec![kinded_attr(vec![ident("display"), TokenTree::Punct('='), TokenTree::Str(case.to_string())])],
        vis: String::new(),
        ident: "Drink".to_string(),
        generics: vec![],
        data: Data::Enum(vec![variant(name, FieldsType::Unit)]),
    };
    let drink = derive_kinded(input).unwrap();
    let k = drink.kind_value(name).unwrap();
    drink.display_string(k).unwrap()
}

#[test]
fn drink_scenario() {
    let drink = derive_kinded(drink_with(vec![])).unwrap();
    assert_eq!(drink.kind_name, "DrinkKind");
    assert_eq!(drink.vis, "pub");
    assert_eq!(drink.kind_variants, vec!["Mate", "Coffee", "Tea"]);
    let coffee = drink.value("Coffee", Payload::Unnamed(vec!["\"x\"".to_string()])).unwrap();
    assert_eq!(coffee.kind(), drink.kind_value("Coffee").unwrap());
    let all: Vec<String> = drink.all().into_iter().map(|k| drink.debug_string(k)).collect();
    assert_eq!(all, vec!["Mate", "Coffee", "Tea"]);
    assert!(drink.display.is_none());
}

#[test]
fn all_is_restartable() {
    let drink = derive_kinded(drink_with(vec![])).unwrap();
    let first = drink.all();
    let second = drink.all();
    assert_eq!(first, second);
    assert_eq!(first.len(), 3);
    assert_eq!(first[2].index, 2);
}

#[test]
fn kind_ignores_fields() {
    let drink = derive_kinded(drink_with(vec![])).unwrap();
    let a = drink.value("Tea", Payload::Named(vec![("variety".to_string(), "\"green\"".to_string())])).unwrap();
    let b = drink.value("Tea", Payload::Named(vec![("caffeine".to_string(), "true".to_string())])).unwrap();
    assert_eq!(a.kind(), b.kind());
}

#[test]
fn value_refuses_wrong_shape_or_name() {
    let drink = derive_kinded(drink_with(vec![])).unwrap();
    assert!(drink.value("Mate", Payload::Unnamed(vec![])).is_none());
    assert!(drink.value("Juice", Payload::Unit).is_none());
    assert!(drink.kind_value("Juice").is_none());
}

#[test]
fn snake_case_display() {
    assert_eq!(display_of("snake_case", "VeryHotBlackTea"), "very_hot_black_tea");
}

#[test]
fn every_display_convention() {
    assert_eq!(display_of("camelCase", "VeryHotBlackTea"), "veryHotBlackTea");
    assert_eq!(display_of("PascalCase", "VeryHotBlackTea"), "VeryHotBlackTea");
    assert_eq!(display_of("SCREAMING_SNAKE_CASE", "VeryHotBlackTea"), "VERY_HOT_BLACK_TEA");
    assert_eq!(display_of("kebab-case", "VeryHotBlackTea"), "very-hot-black-tea");
    assert_eq!(display_of("SCREAMING-KEBAB-CASE", "VeryHotBlackTea"), "VERY-HOT-BLACK-TEA");
    assert_eq!(display_of("Title Case", "VeryHotBlackTea"), "Very Hot Black Tea");
    assert_eq!(display_of("lowercase", "VeryHotBlackTea"), "veryhotblacktea");
    assert_eq!(display_of("UPPERCASE", "VeryHotBlackTea"), "VERYHOTBLACKTEA");
}

#[test]
fn display_word_boundaries() {
    assert_eq!(display_of("snake_case", "HTTPServer"), "httpserver");
    assert_eq!(display_of("snake_case", "Black_Tea"), "black_tea");
    assert_eq!(display_of("Title Case", "Tea2Go"), "Tea2 Go");
    assert_eq!(display_of("camelCase", "X"), "x");
}

#[test]
fn display_names_are_exact() {
    assert_eq!(display_case_named(&"kebab-case".to_string()), Some(DisplayCase::Kebab));
    assert_eq!(display_case_named(&"Kebab-Case".to_string()), None);
}

#[test]
fn custom_name_and_derive_and_display_together() {
    let attrs = vec![kinded_attr(vec![
        ident("kind"),
        TokenTree::Punct('='),
        ident("Sort"),
        TokenTree::Punct(','),
        ident("derive"),
        TokenTree::Group(Delimiter::Parenthesis, vec![ident("Hash"), TokenTree::Punct(','), ident("PartialOrd"), TokenTree::Punct(',')]),
        TokenTree::Punct(','),
        ident("display"),
        TokenTree::Punct('='),
        TokenTree::Str("kebab-case".to_string()),
        TokenTree::Punct(','),
    ])];
    let drink = derive_kinded(drink_with(attrs)).unwrap();
    assert_eq!(drink.kind_name, "Sort");
    assert_eq!(drink.derives, vec!["Debug", "Clone", "Copy", "PartialEq", "Eq", "Hash", "PartialOrd"]);
    assert_eq!(drink.display, Some(vec!["mate".to_string(), "coffee".to_string(), "tea".to_string()]));
}

#[test]
fn two_blocks_refused_at_second() {
    let attrs = vec![
        kinded_attr(vec![ident("kind"), TokenTree::Punct('='), ident("A")]),
        other_attr(),
        kinded_attr(vec![ident("kind"), TokenTree::Punct('='), ident("B")]),
        kinded_attr(vec![ident("kind"), TokenTree::Punct('='), ident("C")]),
    ];
    assert_eq!(find_kinded_attr(&attrs), Err(KindedError::MultipleAttributes { attr: 2 }));
    assert_eq!(derive_kinded(drink_with(attrs)).unwrap_err(), KindedError::MultipleAttributes { attr: 2 });
}

#[test]
fn block_found_among_others() {
    let attrs = vec![other_attr(), kinded_attr(vec![ident("kind"), TokenTree::Punct('='), ident("A")])];
    assert_eq!(find_kinded_attr(&attrs), Ok(Some(1)));
    assert_eq!(find_kinded_attr(&vec![other_attr()]), Ok(None));
}

#[test]
fn unknown_key_refused() {
    let toks = vec![ident("bogus"), TokenTree::Punct('='), TokenTree::Literal("1".to_string())];
    assert_eq!(
        parse_kinded_args(&toks).unwrap_err(),
        KindedError::UnknownAttribute { key: "bogus".to_string(), at: 0 }
    );
}

#[test]
fn duplicated_key_refused() {
    let toks = vec![
        ident("kind"), TokenTree::Punct('='), ident("A"), TokenTree::Punct(','),
        ident("kind"), TokenTree::Punct('='), ident("B"),
    ];
    assert_eq!(
        parse_kinded_args(&toks).unwrap_err(),
        KindedError::DuplicatedAttribute { key: "kind".to_string(), at: 4 }
    );
}

#[test]
fn invalid_display_refused() {
    let toks = vec![ident("display"), TokenTree::Punct('='), TokenTree::Str("Sentence case".to_string())];
    assert_eq!(
        parse_kinded_args(&toks).unwrap_err(),
        KindedError::InvalidDisplay { literal: "Sentence case".to_string(), at: 2 }
    );
}

#[test]
fn malformed_blocks_refused() {
    assert_eq!(parse_kinded_args(&vec![]).unwrap_err(), KindedError::Syntax { at: 0 });
    assert_eq!(parse_kinded_args(&vec![ident("kind"), ident("A")]).unwrap_err(), KindedError::Syntax { at: 1 });
    assert_eq!(parse_kinded_args(&vec![ident("kind"), TokenTree::Punct('=')]).unwrap_err(), KindedError::Syntax { at: 2 });
    assert_eq!(
        parse_kinded_args(&vec![ident("kind"), TokenTree::Punct('='), ident("A"), ident("B")]).unwrap_err(),
        KindedError::Syntax { at: 3 }
    );
    assert_eq!(
        parse_kinded_args(&vec![ident("derive"), TokenTree::Group(Delimiter::Parenthesis, vec![ident("Hash"), ident("Eq")])]).unwrap_err(),
        KindedError::Syntax { at: 1 }
    );
    let path_only = vec![Attribute { path: vec!["kinded".to_string()], meta: AttrMeta::Path }];
    assert_eq!(derive_kinded(drink_with(path_only)).unwrap_err(), KindedError::Syntax { at: 0 });
}

#[test]
fn struct_refused() {
    let input = DeriveInput {
        attrs: vec![],
        vis: String::new(),
        ident: "Point".to_string(),
        generics: vec![],
        data: Data::Struct,
    };
    assert_eq!(parse_derive_input(input).unwrap_err(), KindedError::NotAnEnum);
}

#[test]
fn expand_keeps_variants() {
    let meta = parse_derive_input(drink_with(vec![])).unwrap();
    let drink = expand(meta);
    assert_eq!(drink.variants.len(), 3);
    assert_eq!(drink.variants[1].fields_type, FieldsType::Unnamed);
    assert_eq!(drink.ident, "Drink");
}

#[test]
fn text_round_trip() {
    let chars = chars_of("Tea☕");
    assert_eq!(chars, vec!['T', 'e', 'a', '☕']);
    assert_eq!(string_of(&chars), "Tea☕");
}
