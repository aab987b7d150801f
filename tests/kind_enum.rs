use kinded::compute_kind;
use kinded::generate::{derive_kinded, KindedArtifact};
use kinded::kinds::{KindValue, Payload};
use kinded::model::{AttrMeta, Attribute, Data, Delimiter, DeriveInput, FieldsType, TokenTree, Variant};
use kinded::Kinded;
use std::collections::HashMap;

fn variant(name: &str, fields_type: FieldsType) -> Variant {
    Variant { ident: name.to_string(), fields_type }
}

fn ident(s: &str) -> TokenTree {
    TokenTree::Ident(s.to_string())
}

fn kinded_attr(toks: Vec<TokenTree>) -> Attribute {
    Attribute {
        path: vec!["kinded".to_string()],
        meta: AttrMeta::List(Delimiter::Parenthesis, toks),
    }
}

fn definition(name: &str, generics: &[&str], attrs: Vec<Attribute>, variants: Vec<Variant>) -> DeriveInput {
    DeriveInput {
        attrs,
        vis: String::new(),
        ident: name.to_string(),
        generics: generics.iter().map(|g| g.to_string()).collect(),
        data: Data::Enum(variants),
    }
}

// enum Role { Guest, User(i32), Admin { id: i32 } }
fn role() -> KindedArtifact {
    let input = definition(
        "Role",
        &[],
        vec![],
        vec![
            variant("Guest", FieldsType::Unit),
            variant("User", FieldsType::Unnamed),
            variant("Admin", FieldsType::Named),
        ],
    );
    derive_kinded(input).unwrap()
}

fn receive_copy<T: Copy>() {}

#[test]
fn should_convert_unit_variant() {
    let role = role();
    let guest = role.value("Guest", Payload::Unit).unwrap();
    assert_eq!(guest.kind(), role.kind_value("Guest").unwrap());
}

#[test]
fn should_convert_unnamed_variant() {
    let role = role();
    let user = role.value("User", Payload::Unnamed(vec!["13".to_string()])).unwrap();
    assert_eq!(user.kind(), role.kind_value("User").unwrap());
}

#[test]
fn should_convert_named_variant() {
    let role = role();
    let admin = role
        .value("Admin", Payload::Named(vec![("id".to_string(), "404".to_string())]))
        .unwrap();
    assert_eq!(admin.kind(), role.kind_value("Admin").unwrap());
}

#[test]
fn should_implement_kinded() {
    let role = role();
    let admin = role
        .value("Admin", Payload::Named(vec![("id".to_string(), "32".to_string())]))
        .unwrap();
    assert_eq!(compute_kind(admin), role.kind_value("Admin").unwrap());
}

#[test]
fn should_implement_debug() {
    let role = role();
    let guest = role.kind_value("Guest").unwrap();
    assert_eq!(role.debug_string(guest), "Guest")
}

#[test]
fn should_implement_clone() {
    let role = role();
    let _ = role.kind_value("Admin").unwrap().clone();
}

#[test]
fn should_implement_copy() {
    receive_copy::<KindValue>();
    let role = role();
    assert!(role.derives.iter().any(|d| d == "Copy"));
}

#[test]
fn should_implement_eq() {
    let role = role();
    let guest = role.kind_value("Guest").unwrap();
    let user = role.kind_value("User").unwrap();
    assert!(guest.eq(&guest));
    assert!(!guest.eq(&user));
}

#[test]
fn should_implement_from() {
    let role = role();
    let user = role.value("User", Payload::Unnamed(vec!["123".to_string()])).unwrap();
    assert_eq!(KindValue::from(user), role.kind_value("User").unwrap());
}

#[test]
fn should_implement_from_ref() {
    let role = role();
    let guest = role.value("Guest", Payload::Unit).unwrap();
    assert_eq!(KindValue::from(&guest), role.kind_value("Guest").unwrap());
}

#[test]
fn should_allow_to_give_custom_name_kind_type() {
    // #[kinded(kind = SimpleDrink)] enum Drink { Tea(&'static str), Coffee(&'static str) }
    let input = definition(
        "Drink",
        &[],
        vec![kinded_attr(vec![ident("kind"), TokenTree::Punct('='), ident("SimpleDrink")])],
        vec![variant("Tea", FieldsType::Unnamed), variant("Coffee", FieldsType::Unnamed)],
    );
    let drink = derive_kinded(input).unwrap();
    assert_eq!(drink.kind_name, "SimpleDrink");
    let green_tea = drink.value("Tea", Payload::Unnamed(vec!["\"Green\"".to_string()])).unwrap();
    assert_eq!(green_tea.kind(), drink.kind_value("Tea").unwrap());
}

#[test]
fn should_allow_to_derive_custom_traits() {
    // #[kinded(derive(Hash, Eq))] enum Drink { Tea(&'static str), Coffee(&'static str) }
    let input = definition(
        "Drink",
        &[],
        vec![kinded_attr(vec![
            ident("derive"),
            TokenTree::Group(Delimiter::Parenthesis, vec![ident("Hash"), TokenTree::Punct(','), ident("Eq")]),
        ])],
        vec![variant("Tea", FieldsType::Unnamed), variant("Coffee", FieldsType::Unnamed)],
    );
    let drink = derive_kinded(input).unwrap();
    assert_eq!(drink.kind_name, "DrinkKind");
    assert_eq!(drink.derives, vec!["Debug", "Clone", "Copy", "PartialEq", "Eq", "Hash"]);
    let mut drinks = HashMap::new();
    drinks.insert(drink.kind_value("Tea").unwrap(), 5);
    assert_eq!(drinks.len(), 1);
}

#[test]
fn should_work_with_generics() {
    // enum Maybe<T> { Just(T), Nothing }
    let input = definition(
        "Maybe",
        &["T"],
        vec![],
        vec![variant("Just", FieldsType::Unnamed), variant("Nothing", FieldsType::Unit)],
    );
    let maybe = derive_kinded(input).unwrap();
    assert_eq!(maybe.kind_name, "MaybeKind");
    assert_eq!(maybe.generics, vec!["T"]);
    let just = maybe.value("Just", Payload::Unnamed(vec!["13".to_string()])).unwrap();
    assert_eq!(just.kind(), maybe.kind_value("Just").unwrap());
}

#[test]
fn should_work_with_lifetimes() {
    // enum Identifier<'a, I> { Name(&'a str), Id(I) }
    let input = definition(
        "Identifier",
        &["'a", "I"],
        vec![],
        vec![variant("Name", FieldsType::Unnamed), variant("Id", FieldsType::Unnamed)],
    );
    let identifier = derive_kinded(input).unwrap();
    assert_eq!(identifier.kind_name, "IdentifierKind");
    let name = identifier.value("Name", Payload::Unnamed(vec!["\"Xen\"".to_string()])).unwrap();
    assert_eq!(name.kind(), identifier.kind_value("Name").unwrap());
}
