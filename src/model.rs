//! The input to a derivation and the configuration read from it.
use vstd::prelude::*;
use crate::casing::DisplayCase;

verus! {

/// The delimiter of a token group.
#[derive(Debug, Clone, Copy, PartialEq, Eq, Structural)]
pub enum Delimiter {
    Parenthesis,
    Bracket,
    Brace,
    Invisible,
}

/// One token of an attribute's arguments.
#[derive(Debug)]
pub enum TokenTree {
    Ident(String),
    Punct(char),
    /// A string literal, by its value.
    Str(String),
    /// Any other literal, by its source text.
    Literal(String),
    Group(Delimiter, Vec<TokenTree>),
}

/// The form of an attribute after its path.
#[derive(Debug)]
pub enum AttrMeta {
    /// `#[path]`
    Path,
    /// `#[path(...)]` and the other delimiters, with the tokens inside.
    List(Delimiter, Vec<TokenTree>),
    /// `#[path = ...]`, with the tokens after `=`.
    NameValue(Vec<TokenTree>),
}

/// An attribute attached to the type definition.
#[derive(Debug)]
pub struct Attribute {
    pub path: Vec<String>,
    pub meta: AttrMeta,
}

/// The shape of a variant's fields.
#[derive(Debug, Clone, Copy, PartialEq, Eq, Structural)]
pub enum FieldsType {
    Named,
    Unnamed,
    Unit,
}

/// A variant of the sum type: its identifier and the shape of its fields.
#[derive(Debug)]
pub struct Variant {
    pub ident: String,
    pub fields_type: FieldsType,
}

/// The body of the type definition.
#[derive(Debug)]
pub enum Data {
    Enum(Vec<Variant>),
    Struct,
    Union,
}

/// A type definition as the compiler presents it to the derivation.
/// Visibility and generic parameters are carried as source text and never
/// inspected.
#[derive(Debug)]
pub struct DeriveInput {
    pub attrs: Vec<Attribute>,
    pub vis: String,
    pub ident: String,
    pub generics: Vec<String>,
    pub data: Data,
}

/// The configuration given by a `#[kinded(...)]` block.
#[derive(Debug)]
pub struct KindedAttributes {
    pub kind: Option<String>,
    pub derive: Option<Vec<String>>,
    pub display: Option<DisplayCase>,
}

/// A validated sum type together with its configuration.
#[derive(Debug)]
pub struct Meta {
    pub vis: String,
    pub ident: String,
    pub generics: Vec<String>,
    pub variants: Vec<Variant>,
    pub kinded_attrs: KindedAttributes,
}

/// Why a derivation was refused. Positions count the tokens inside the
/// `#[kinded(...)]` block, or the attributes of the definition.
#[derive(Debug, PartialEq, Eq)]
pub enum KindedError {
    /// The definition is a struct or a union.
    NotAnEnum,
    /// A second `#[kinded(...)]` block, at this attribute.
    MultipleAttributes { attr: usize },
    /// The block does not follow the grammar, at this token.
    Syntax { at: usize },
    /// A key outside `kind`, `display` and `derive`.
    UnknownAttribute { key: String, at: usize },
    /// A key given twice.
    DuplicatedAttribute { key: String, at: usize },
    /// A `display` literal that names no convention.
    InvalidDisplay { literal: String, at: usize },
}

/// The mathematical content of a configuration.
pub struct AttrsView {
    pub kind: Option<Seq<char>>,
    pub derive: Option<Seq<Seq<char>>>,
    pub display: Option<DisplayCase>,
}

/// The mathematical content of an error.
pub enum ErrorView {
    NotAnEnum,
    MultipleAttributes { attr: nat },
    Syntax { at: nat },
    UnknownAttribute { key: Seq<char>, at: nat },
    DuplicatedAttribute { key: Seq<char>, at: nat },
    InvalidDisplay { literal: Seq<char>, at: nat },
}

pub open spec fn names_view(v: Seq<String>) -> Seq<Seq<char>> {
    v.map_values(|s: String| s@)
}

impl View for KindedAttributes {
    type V = AttrsView;

    open spec fn view(&self) -> AttrsView {
        AttrsView {
            kind: match self.kind {
                Some(k) => Some(k@),
                None => None,
            },
            derive: match self.derive {
                Some(d) => Some(names_view(d@)),
                None => None,
            },
            display: self.display,
        }
    }
}

impl View for KindedError {
    type V = ErrorView;

    open spec fn view(&self) -> ErrorView {
        match self {
            KindedError::NotAnEnum => ErrorView::NotAnEnum,
            KindedError::MultipleAttributes { attr } => ErrorView::MultipleAttributes {
                attr: *attr as nat,
            },
            KindedError::Syntax { at } => ErrorView::Syntax { at: *at as nat },
            KindedError::UnknownAttribute { key, at } => ErrorView::UnknownAttribute {
                key: key@,
                at: *at as nat,
            },
            KindedError::DuplicatedAttribute { key, at } => ErrorView::DuplicatedAttribute {
                key: key@,
                at: *at as nat,
            },
            KindedError::InvalidDisplay { literal, at } => ErrorView::InvalidDisplay {
                literal: literal@,
                at: *at as nat,
            },
        }
    }
}

pub open spec fn no_attrs() -> AttrsView {
    AttrsView { kind: None, derive: None, display: None }
}

impl KindedAttributes {
    /// The configuration of a definition without a `#[kinded(...)]` block.
    pub fn new() -> (r: KindedAttributes)
        ensures
            r@ == no_attrs(),
    {
        KindedAttributes { kind: None, derive: None, display: None }
    }
}

} // verus!
