//! Reading a definition: locating the `#[kinded(...)]` block, parsing its
//! entries, and checking that the definition is a sum type.
//!
//! A block holds one or more comma-separated entries, each key at most once:
//! `kind = Ident`, `display = "convention"`, `derive(Ident, ...)`.
use vstd::prelude::*;
use crate::casing::DisplayCase;
use crate::model::{
    AttrMeta, Attribute, AttrsView, Data, Delimiter, DeriveInput, ErrorView, KindedAttributes,
    KindedError, Meta, TokenTree,
};
use crate::text::text_is;

verus! {

pub open spec fn is_punct(t: TokenTree, c: char) -> bool {
    match t {
        TokenTree::Punct(p) => p == c,
        _ => false,
    }
}

pub open spec fn key_at(toks: Seq<TokenTree>, pos: int) -> Seq<char> {
    match toks[pos] {
        TokenTree::Ident(k) => k@,
        _ => Seq::empty(),
    }
}

/// The identifiers of a `derive(...)` list from `pos` on, after `acc`:
/// identifiers separated by commas, with an optional trailing comma.
pub open spec fn derive_names(toks: Seq<TokenTree>, pos: int, acc: Seq<Seq<char>>) -> Option<
    Seq<Seq<char>>,
>
    decreases toks.len() - pos,
{
    if pos < 0 || pos >= toks.len() {
        Some(acc)
    } else {
        match toks[pos] {
            TokenTree::Ident(name) => {
                let acc2 = acc.push(name@);
                if pos + 1 >= toks.len() {
                    Some(acc2)
                } else if is_punct(toks[pos + 1], ',') {
                    derive_names(toks, pos + 2, acc2)
                } else {
                    None
                }
            },
            _ => None,
        }
    }
}

/// How many tokens the entry with this key takes.
pub open spec fn entry_len(key: Seq<char>) -> int {
    if key == "derive"@ {
        2
    } else {
        3
    }
}

/// The configuration after the entry at `pos` is applied to `acc`.
pub open spec fn parse_entry(toks: Seq<TokenTree>, pos: int, acc: AttrsView) -> Result<
    AttrsView,
    ErrorView,
> {
    let key = key_at(toks, pos);
    if !(toks[pos] is Ident) {
        Err(ErrorView::Syntax { at: pos as nat })
    } else if key == "kind"@ || key == "display"@ {
        if pos + 1 >= toks.len() || !is_punct(toks[pos + 1], '=') {
            Err(ErrorView::Syntax { at: (pos + 1) as nat })
        } else if pos + 2 >= toks.len() {
            Err(ErrorView::Syntax { at: (pos + 2) as nat })
        } else if key == "kind"@ {
            match toks[pos + 2] {
                TokenTree::Ident(name) => if acc.kind is Some {
                    Err(ErrorView::DuplicatedAttribute { key, at: pos as nat })
                } else {
                    Ok(AttrsView { kind: Some(name@), derive: acc.derive, display: acc.display })
                },
                _ => Err(ErrorView::Syntax { at: (pos + 2) as nat }),
            }
        } else {
            match toks[pos + 2] {
                TokenTree::Str(lit) => match crate::casing::case_named(lit@) {
                    None => Err(ErrorView::InvalidDisplay { literal: lit@, at: (pos + 2) as nat }),
                    Some(c) => if acc.display is Some {
                        Err(ErrorView::DuplicatedAttribute { key, at: pos as nat })
                    } else {
                        Ok(AttrsView { kind: acc.kind, derive: acc.derive, display: Some(c) })
                    },
                },
                _ => Err(ErrorView::Syntax { at: (pos + 2) as nat }),
            }
        }
    } else if key == "derive"@ {
        if pos + 1 >= toks.len() {
            Err(ErrorView::Syntax { at: (pos + 1) as nat })
        } else {
            match toks[pos + 1] {
                TokenTree::Group(Delimiter::Parenthesis, inner) => match derive_names(
                    inner@,
                    0,
                    Seq::empty(),
                ) {
                    None => Err(ErrorView::Syntax { at: (pos + 1) as nat }),
                    Some(names) => if acc.derive is Some {
                        Err(ErrorView::DuplicatedAttribute { key, at: pos as nat })
                    } else {
                        Ok(AttrsView { kind: acc.kind, derive: Some(names), display: acc.display })
                    },
                },
                _ => Err(ErrorView::Syntax { at: (pos + 1) as nat }),
            }
        }
    } else {
        Err(ErrorView::UnknownAttribute { key, at: pos as nat })
    }
}

/// The configuration after the entries from `pos` on are applied to `acc`.
pub open spec fn parse_entries(toks: Seq<TokenTree>, pos: int, acc: AttrsView) -> Result<
    AttrsView,
    ErrorView,
>
    decreases toks.len() - pos,
{
    if pos < 0 || pos >= toks.len() {
        Ok(acc)
    } else {
        match parse_entry(toks, pos, acc) {
            Err(e) => Err(e),
            Ok(a) => {
                let next = pos + entry_len(key_at(toks, pos));
                if next >= toks.len() {
                    Ok(a)
                } else if is_punct(toks[next], ',') {
                    parse_entries(toks, next + 1, a)
                } else {
                    Err(ErrorView::Syntax { at: next as nat })
                }
            },
        }
    }
}

/// The configuration that the tokens inside `#[kinded(...)]` give.
pub open spec fn parse_args(toks: Seq<TokenTree>) -> Result<AttrsView, ErrorView> {
    if toks.len() == 0 {
        Err(ErrorView::Syntax { at: 0 })
    } else {
        parse_entries(toks, 0, crate::model::no_attrs())
    }
}

/// The configuration that a `#[kinded...]` attribute gives.
pub open spec fn attr_config(a: Attribute) -> Result<AttrsView, ErrorView> {
    match a.meta {
        AttrMeta::List(Delimiter::Parenthesis, toks) => parse_args(toks@),
        _ => Err(ErrorView::Syntax { at: 0 }),
    }
}

fn parse_derive_names(toks: &Vec<TokenTree>) -> (r: Option<Vec<String>>)
    ensures
        match r {
            Some(v) => derive_names(toks@, 0, Seq::empty()) == Some(crate::model::names_view(v@)),
            None => derive_names(toks@, 0, Seq::empty()) is None,
        },
{
    let mut acc: Vec<String> = Vec::new();
    let mut pos: usize = 0;
    assert(crate::model::names_view(acc@) =~= Seq::empty());
    while pos < toks.len()
        invariant
            derive_names(toks@, 0, Seq::empty()) == derive_names(toks@, pos as int, crate::model::names_view(acc@)),
        decreases toks@.len() - pos,
    {
        match &toks[pos] {
            TokenTree::Ident(name) => {
                let ghost before = acc@;
                acc.push(name.clone());
                assert(crate::model::names_view(acc@) =~= crate::model::names_view(before).push(name@));
                if pos + 1 >= toks.len() {
                    return Some(acc);
                }
                match &toks[pos + 1] {
                    TokenTree::Punct(p) => {
                        if *p != ',' {
                            return None;
                        }
                    },
                    _ => {
                        return None;
                    },
                }
                pos = pos + 2;
            },
            _ => {
                return None;
            },
        }
    }
    Some(acc)
}

/// Applies the entry at `pos` to `acc`; on success gives the position after it.
fn parse_entry_exec(toks: &Vec<TokenTree>, pos: usize, acc: &mut KindedAttributes) -> (r: Result<
    usize,
    KindedError,
>)
    requires
        pos < toks@.len(),
    ensures
        match r {
            Ok(next) => {
                &&& parse_entry(toks@, pos as int, old(acc)@) == Ok::<AttrsView, ErrorView>(final(acc)@)
                &&& next == pos + entry_len(key_at(toks@, pos as int))
            },
            Err(e) => parse_entry(toks@, pos as int, old(acc)@) == Err::<AttrsView, ErrorView>(e@),
        },
{
    let n = toks.len();
    let key = match &toks[pos] {
        TokenTree::Ident(k) => k,
        _ => {
            return Err(KindedError::Syntax { at: pos });
        },
    };
    let is_kind = text_is(key, "kind");
    let is_display = text_is(key, "display");
    let is_derive = text_is(key, "derive");
    proof {
        reveal_strlit("kind");
        reveal_strlit("display");
        reveal_strlit("derive");
    }
    if is_kind || is_display {
        assert(key@ != "derive"@) by {
            if is_kind {
                assert(key@.len() != "derive"@.len());
            } else {
                assert(key@.len() != "derive"@.len());
            }
        }
        let eq_ok = pos + 1 < toks.len() && match &toks[pos + 1] {
            TokenTree::Punct(p) => *p == '=',
            _ => false,
        };
        if !eq_ok {
            return Err(KindedError::Syntax { at: pos + 1 });
        }
        if pos + 2 >= toks.len() {
            return Err(KindedError::Syntax { at: pos + 2 });
        }
        if is_kind {
            match &toks[pos + 2] {
                TokenTree::Ident(name) => {
                    if acc.kind.is_some() {
                        return Err(KindedError::DuplicatedAttribute { key: key.clone(), at: pos });
                    }
                    acc.kind = Some(name.clone());
                    Ok(pos + 3)
                },
                _ => Err(KindedError::Syntax { at: pos + 2 }),
            }
        } else {
            match &toks[pos + 2] {
                TokenTree::Str(lit) => match display_case_named(lit) {
                    None => Err(KindedError::InvalidDisplay { literal: lit.clone(), at: pos + 2 }),
                    Some(c) => {
                        if acc.display.is_some() {
                            return Err(
                                KindedError::DuplicatedAttribute { key: key.clone(), at: pos },
                            );
                        }
                        acc.display = Some(c);
                        Ok(pos + 3)
                    },
                },
                _ => Err(KindedError::Syntax { at: pos + 2 }),
            }
        }
    } else if is_derive {
        if pos + 1 >= toks.len() {
            return Err(KindedError::Syntax { at: pos + 1 });
        }
        match &toks[pos + 1] {
            TokenTree::Group(Delimiter::Parenthesis, inner) => match parse_derive_names(inner) {
                None => Err(KindedError::Syntax { at: pos + 1 }),
                Some(names) => {
                    if acc.derive.is_some() {
                        return Err(KindedError::DuplicatedAttribute { key: key.clone(), at: pos });
                    }
                    acc.derive = Some(names);
                    Ok(pos + 2)
                },
            },
            _ => Err(KindedError::Syntax { at: pos + 1 }),
        }
    } else {
        Err(KindedError::UnknownAttribute { key: key.clone(), at: pos })
    }
}

/// The convention that a `display` literal names, if it names one.
pub fn display_case_named(lit: &String) -> (r: Option<DisplayCase>)
    ensures
        r == crate::casing::case_named(lit@),
{
    proof {
        reveal_strlit("snake_case");
        reveal_strlit("camelCase");
        reveal_strlit("PascalCase");
        reveal_strlit("SCREAMING_SNAKE_CASE");
        reveal_strlit("kebab-case");
        reveal_strlit("SCREAMING-KEBAB-CASE");
        reveal_strlit("Title Case");
        reveal_strlit("lowercase");
        reveal_strlit("UPPERCASE");
    }
    if text_is(lit, "snake_case") {
        Some(DisplayCase::Snake)
    } else if text_is(lit, "camelCase") {
        Some(DisplayCase::Camel)
    } else if text_is(lit, "PascalCase") {
        Some(DisplayCase::Pascal)
    } else if text_is(lit, "SCREAMING_SNAKE_CASE") {
        Some(DisplayCase::ScreamingSnake)
    } else if text_is(lit, "kebab-case") {
        Some(DisplayCase::Kebab)
    } else if text_is(lit, "SCREAMING-KEBAB-CASE") {
        Some(DisplayCase::ScreamingKebab)
    } else if text_is(lit, "Title Case") {
        Some(DisplayCase::Title)
    } else if text_is(lit, "lowercase") {
        Some(DisplayCase::Lower)
    } else if text_is(lit, "UPPERCASE") {
        Some(DisplayCase::Upper)
    } else {
        None
    }
}

/// Parses the tokens inside `#[kinded(...)]` into a configuration.
pub fn parse_kinded_args(toks: &Vec<TokenTree>) -> (r: Result<KindedAttributes, KindedError>)
    ensures
        match r {
            Ok(a) => parse_args(toks@) == Ok::<AttrsView, ErrorView>(a@),
            Err(e) => parse_args(toks@) == Err::<AttrsView, ErrorView>(e@),
        },
{
    if toks.len() == 0 {
        return Err(KindedError::Syntax { at: 0 });
    }
    let mut acc = KindedAttributes::new();
    let mut pos: usize = 0;
    while pos < toks.len()
        invariant
            toks@.len() > 0,
            parse_args(toks@) == parse_entries(toks@, pos as int, acc@),
        decreases toks@.len() - pos,
    {
        let next = parse_entry_exec(toks, pos, &mut acc)?;
        if next >= toks.len() {
            return Ok(acc);
        }
        match &toks[next] {
            TokenTree::Punct(p) => {
                if *p != ',' {
                    return Err(KindedError::Syntax { at: next });
                }
            },
            _ => {
                return Err(KindedError::Syntax { at: next });
            },
        }
        pos = next + 1;
    }
    Ok(acc)
}

/// Whether an attribute is a `#[kinded...]` block: its path is the single
/// identifier `kinded`.
pub open spec fn is_kinded(a: Attribute) -> bool {
    a.path@.len() == 1 && a.path@[0]@ == "kinded"@
}

/// Attribute `s` is a `#[kinded...]` block with exactly one before it.
pub open spec fn second_kinded(attrs: Seq<Attribute>, s: int) -> bool {
    &&& 0 <= s < attrs.len()
    &&& is_kinded(attrs[s])
    &&& exists|f: int|
        0 <= f < s && is_kinded(#[trigger] attrs[f]) && forall|j: int|
            0 <= j < s && j != f ==> !is_kinded(#[trigger] attrs[j])
}

/// Attribute `i` is the only `#[kinded...]` block.
pub open spec fn sole_kinded(attrs: Seq<Attribute>, i: int) -> bool {
    &&& 0 <= i < attrs.len()
    &&& is_kinded(attrs[i])
    &&& forall|j: int| 0 <= j < attrs.len() && j != i ==> !is_kinded(#[trigger] attrs[j])
}

/// The configuration that a definition's attributes give.
pub open spec fn config_of(attrs: Seq<Attribute>) -> Result<AttrsView, ErrorView> {
    if exists|s: int| second_kinded(attrs, s) {
        Err(ErrorView::MultipleAttributes { attr: (choose|s: int| second_kinded(attrs, s)) as nat })
    } else if exists|i: int| sole_kinded(attrs, i) {
        attr_config(attrs[choose|i: int| sole_kinded(attrs, i)])
    } else {
        Ok(crate::model::no_attrs())
    }
}

pub proof fn lemma_second_kinded_ordered(attrs: Seq<Attribute>, s1: int, s2: int)
    requires
        second_kinded(attrs, s1),
        second_kinded(attrs, s2),
        s1 <= s2,
    ensures
        s1 == s2,
{
    if s1 < s2 {
        let f = choose|f: int|
            0 <= f < s2 && is_kinded(#[trigger] attrs[f]) && forall|j: int|
                0 <= j < s2 && j != f ==> !is_kinded(#[trigger] attrs[j]);
        let f1 = choose|f: int|
            0 <= f < s1 && is_kinded(#[trigger] attrs[f]) && forall|j: int|
                0 <= j < s1 && j != f ==> !is_kinded(#[trigger] attrs[j]);
        assert(is_kinded(attrs[f1]) && is_kinded(attrs[s1]));
        assert(false);
    }
}

pub proof fn lemma_second_kinded_unique(attrs: Seq<Attribute>, s1: int, s2: int)
    requires
        second_kinded(attrs, s1),
        second_kinded(attrs, s2),
    ensures
        s1 == s2,
{
    if s1 <= s2 {
        lemma_second_kinded_ordered(attrs, s1, s2);
    } else {
        lemma_second_kinded_ordered(attrs, s2, s1);
    }
}

fn attr_is_kinded(a: &Attribute) -> (r: bool)
    ensures
        r == is_kinded(*a),
{
    a.path.len() == 1 && text_is(&a.path[0], "kinded")
}

/// Finds the `#[kinded(...)]` block among the attributes; a second one is an
/// error located at it.
pub fn find_kinded_attr(attrs: &Vec<Attribute>) -> (r: Result<Option<usize>, KindedError>)
    ensures
        match r {
            Ok(None) => forall|j: int| 0 <= j < attrs@.len() ==> !is_kinded(#[trigger] attrs@[j]),
            Ok(Some(i)) => sole_kinded(attrs@, i as int),
            Err(e) => e matches KindedError::MultipleAttributes { attr } && second_kinded(
                attrs@,
                attr as int,
            ),
        },
{
    let mut found: Option<usize> = None;
    let mut i: usize = 0;
    while i < attrs.len()
        invariant
            i <= attrs@.len(),
            match found {
                None => forall|j: int| 0 <= j < i ==> !is_kinded(#[trigger] attrs@[j]),
                Some(f) => {
                    &&& f < i
                    &&& is_kinded(attrs@[f as int])
                    &&& forall|j: int| 0 <= j < i && j != f ==> !is_kinded(#[trigger] attrs@[j])
                },
            },
        decreases attrs@.len() - i,
    {
        if attr_is_kinded(&attrs[i]) {
            match found {
                Some(f) => {
                    assert(is_kinded(attrs@[f as int]));
                    return Err(KindedError::MultipleAttributes { attr: i });
                },
                None => {
                    found = Some(i);
                },
            }
        }
        i += 1;
    }
    Ok(found)
}

/// Reads a definition: its configuration, then its variants. Fails on a
/// malformed configuration, and on a definition that is not a sum type.
pub fn parse_derive_input(input: DeriveInput) -> (r: Result<Meta, KindedError>)
    ensures
        match r {
            Ok(m) => {
                &&& config_of(input.attrs@) == Ok::<AttrsView, ErrorView>(m.kinded_attrs@)
                &&& input.data matches Data::Enum(vs) && m.variants == vs
                &&& m.vis == input.vis
                &&& m.ident == input.ident
                &&& m.generics == input.generics
            },
            Err(e) => match config_of(input.attrs@) {
                Err(ce) => e@ == ce,
                Ok(_) => !(input.data is Enum) && e == KindedError::NotAnEnum,
            },
        },
{
    let kinded_attrs = match find_kinded_attr(&input.attrs) {
        Err(e) => {
            proof {
                let s = choose|s: int| second_kinded(input.attrs@, s);
                lemma_second_kinded_unique(input.attrs@, s, e->attr as int);
            }
            return Err(e);
        },
        Ok(None) => {
            assert(!exists|s: int| second_kinded(input.attrs@, s));
            assert(!exists|i: int| sole_kinded(input.attrs@, i));
            KindedAttributes::new()
        },
        Ok(Some(i)) => {
            assert(!exists|s: int| second_kinded(input.attrs@, s));
            assert(sole_kinded(input.attrs@, i as int));
            assert((choose|j: int| sole_kinded(input.attrs@, j)) == i as int);
            match &input.attrs[i].meta {
                AttrMeta::List(Delimiter::Parenthesis, toks) => parse_kinded_args(toks)?,
                _ => {
                    return Err(KindedError::Syntax { at: 0 });
                },
            }
        },
    };
    match input.data {
        Data::Enum(variants) => Ok(
            Meta {
                vis: input.vis,
                ident: input.ident,
                generics: input.generics,
                variants,
                kinded_attrs,
            },
        ),
        _ => Err(KindedError::NotAnEnum),
    }
}

} // verus!
