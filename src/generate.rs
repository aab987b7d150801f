//! Building the companion type from a read definition.
use vstd::prelude::*;
use vstd::string::*;
use crate::casing::render_chars;
use crate::model::{DeriveInput, KindedError, Meta, Variant};
use crate::parse::parse_derive_input;
use crate::text::{chars_of, string_of};

verus! {

/// What a derivation produces: the companion enumeration, and what it takes
/// to write `kind()` on the original type and the trait implementations.
///
/// The companion type is declared with `vis`, the name `kind_name`, the unit
/// variants `kind_variants`, the capabilities `derives`, and no generic
/// parameters. The projection on the original type (declared with `ident`
/// and `generics`) has one match arm per entry of `variants`, whose pattern
/// follows the variant's field shape. `display`, when present, holds the
/// rendering of each companion variant.
#[derive(Debug)]
pub struct KindedArtifact {
    pub vis: String,
    pub ident: String,
    pub generics: Vec<String>,
    pub kind_name: String,
    pub variants: Vec<Variant>,
    pub kind_variants: Vec<String>,
    pub derives: Vec<String>,
    pub display: Option<Vec<String>>,
}

/// The name of the companion type: the one given, else the original's with
/// `Kind` appended.
pub open spec fn companion_name(ident: Seq<char>, kind: Option<Seq<char>>) -> Seq<char> {
    match kind {
        Some(k) => k,
        None => ident + "Kind"@,
    }
}

/// The capabilities every companion type has.
pub open spec fn default_derives() -> Seq<Seq<char>> {
    seq!["Debug"@, "Clone"@, "Copy"@, "PartialEq"@, "Eq"@]
}

/// `acc` followed by those of `extra[i..]` not already named before them.
pub open spec fn merge_derives(acc: Seq<Seq<char>>, extra: Seq<Seq<char>>, i: int) -> Seq<
    Seq<char>,
>
    decreases extra.len() - i,
{
    if i < 0 || i >= extra.len() {
        acc
    } else if acc.contains(extra[i]) {
        merge_derives(acc, extra, i + 1)
    } else {
        merge_derives(acc.push(extra[i]), extra, i + 1)
    }
}

/// The capabilities of the companion type: the default ones, then the extra
/// ones requested, each named once.
pub open spec fn all_derives(extra: Option<Seq<Seq<char>>>) -> Seq<Seq<char>> {
    match extra {
        Some(e) => merge_derives(default_derives(), e, 0),
        None => default_derives(),
    }
}

/// The artifact is the one that `meta` calls for.
pub open spec fn artifact_of(a: KindedArtifact, meta: Meta) -> bool {
    let n = meta.variants@.len();
    &&& a.vis == meta.vis
    &&& a.ident == meta.ident
    &&& a.generics == meta.generics
    &&& a.variants == meta.variants
    &&& a.kind_name@ == companion_name(meta.ident@, meta.kinded_attrs@.kind)
    &&& a.kind_variants@.len() == n
    &&& forall|i: int| 0 <= i < n ==> (#[trigger] a.kind_variants@[i])@ == meta.variants@[i].ident@
    &&& crate::model::names_view(a.derives@) == all_derives(meta.kinded_attrs@.derive)
    &&& match meta.kinded_attrs.display {
        None => a.display is None,
        Some(c) => a.display matches Some(d) && d@.len() == n && forall|i: int|
            0 <= i < n ==> (#[trigger] d@[i])@ == crate::casing::render(c, meta.variants@[i].ident@),
    }
}

fn contains_name(v: &Vec<String>, s: &String) -> (r: bool)
    ensures
        r == crate::model::names_view(v@).contains(s@),
{
    let mut i: usize = 0;
    while i < v.len()
        invariant
            i <= v@.len(),
            forall|j: int| 0 <= j < i ==> v@[j]@ != s@,
        decreases v@.len() - i,
    {
        if v[i] == *s {
            assert(crate::model::names_view(v@)[i as int] == s@);
            return true;
        }
        i += 1;
    }
    assert(!crate::model::names_view(v@).contains(s@)) by {
        if crate::model::names_view(v@).contains(s@) {
            let k = choose|k: int| 0 <= k < crate::model::names_view(v@).len() && crate::model::names_view(v@)[k] == s@;
            assert(v@[k]@ == s@);
        }
    }
    false
}

fn derives_for(extra: &Option<Vec<String>>) -> (r: Vec<String>)
    ensures
        crate::model::names_view(r@) == all_derives(
            match extra {
                Some(e) => Some(crate::model::names_view(e@)),
                None => None,
            },
        ),
{
    let mut out: Vec<String> = Vec::new();
    out.push(String::from_str("Debug"));
    out.push(String::from_str("Clone"));
    out.push(String::from_str("Copy"));
    out.push(String::from_str("PartialEq"));
    out.push(String::from_str("Eq"));
    assert(crate::model::names_view(out@) =~= default_derives());
    match extra {
        None => out,
        Some(e) => {
            let mut i: usize = 0;
            while i < e.len()
                invariant
                    i <= e@.len(),
                    merge_derives(default_derives(), crate::model::names_view(e@), 0) == merge_derives(
                        crate::model::names_view(out@),
                        crate::model::names_view(e@),
                        i as int,
                    ),
                decreases e@.len() - i,
            {
                if !contains_name(&out, &e[i]) {
                    let ghost before = out@;
                    out.push(e[i].clone());
                    assert(crate::model::names_view(out@) =~= crate::model::names_view(before).push(e@[i as int]@));
                }
                i += 1;
            }
            out
        },
    }
}

/// Builds the companion type that a read definition calls for.
pub fn expand(meta: Meta) -> (r: KindedArtifact)
    ensures
        artifact_of(r, meta),
{
    let kind_name = match &meta.kinded_attrs.kind {
        Some(k) => k.clone(),
        None => meta.ident.clone().concat("Kind"),
    };
    let n = meta.variants.len();
    let mut kind_variants: Vec<String> = Vec::new();
    let mut i: usize = 0;
    while i < n
        invariant
            n == meta.variants@.len(),
            i <= n,
            kind_variants@.len() == i,
            forall|j: int| 0 <= j < i ==> (#[trigger] kind_variants@[j])@ == meta.variants@[j].ident@,
        decreases n - i,
    {
        kind_variants.push(meta.variants[i].ident.clone());
        i += 1;
    }
    let display = match meta.kinded_attrs.display {
        None => None,
        Some(c) => {
            let mut d: Vec<String> = Vec::new();
            let mut i: usize = 0;
            while i < n
                invariant
                    n == meta.variants@.len(),
                    i <= n,
                    d@.len() == i,
                    forall|j: int|
                        0 <= j < i ==> (#[trigger] d@[j])@ == crate::casing::render(c, meta.variants@[j].ident@),
                decreases n - i,
            {
                let chars = chars_of(meta.variants[i].ident.as_str());
                let rendered = render_chars(c, &chars);
                d.push(string_of(&rendered));
                i += 1;
            }
            Some(d)
        },
    };
    let derives = derives_for(&meta.kinded_attrs.derive);
    KindedArtifact {
        vis: meta.vis,
        ident: meta.ident,
        generics: meta.generics,
        kind_name,
        variants: meta.variants,
        kind_variants,
        derives,
        display,
    }
}

/// Derives the companion type of a definition: reads it, then builds the
/// artifact, or reports the first error.
pub fn derive_kinded(input: DeriveInput) -> (r: Result<KindedArtifact, KindedError>)
    ensures
        match crate::parse::config_of(input.attrs@) {
            Err(ce) => r matches Err(e) && e@ == ce,
            Ok(c) => match input.data {
                crate::model::Data::Enum(vs) => r matches Ok(a) && {
                    &&& a.vis == input.vis
                    &&& a.ident == input.ident
                    &&& a.generics == input.generics
                    &&& a.variants == vs
                    &&& a.kind_name@ == companion_name(input.ident@, c.kind)
                    &&& a.kind_variants@.len() == vs@.len()
                    &&& forall|i: int|
                        0 <= i < vs@.len() ==> (#[trigger] a.kind_variants@[i])@ == vs@[i].ident@
                    &&& crate::model::names_view(a.derives@) == all_derives(c.derive)
                    &&& match c.display {
                        None => a.display is None,
                        Some(dc) => a.display matches Some(d) && d@.len() == vs@.len() && forall|
                            i: int,
                        |
                            0 <= i < vs@.len() ==> (#[trigger] d@[i])@ == crate::casing::render(
                                dc,
                                vs@[i].ident@,
                            ),
                    }
                },
                _ => r == Err::<KindedArtifact, KindedError>(KindedError::NotAnEnum),
            },
        },
{
    match parse_derive_input(input) {
        Ok(meta) => Ok(expand(meta)),
        Err(e) => Err(e),
    }
}

} // verus!
