//! Properties that relate several operations of the library.
use vstd::prelude::*;
use crate::Kinded;
use crate::casing::{DisplayCase, ascii_lower, is_ascii_upper, piece, render, render_prefix, starts_word, word_seen};
use crate::generate::KindedArtifact;
use crate::kinds::{KindValue, SumValue};
use crate::model::{AttrMeta, Attribute, Delimiter, DeriveInput, ErrorView, TokenTree};

verus! {

/// Two values of the same variant have the same kind, whatever their fields.
pub proof fn kind_ignores_payload(v1: SumValue, v2: SumValue)
    requires
        v1.variant == v2.variant,
    ensures
        v1.kind_spec() == v2.kind_spec(),
{
}

/// The kind of a value is the companion variant named like the value's
/// variant.
pub proof fn kind_names_the_variant(a: KindedArtifact, v: SumValue)
    requires
        a.well_formed(),
        v.variant < a.variants@.len(),
    ensures
        v.kind_spec().index < a.kind_variants@.len(),
        a.kind_variants@[v.kind_spec().index as int]@ == a.variants@[v.variant as int].ident@,
{
}

/// Any two results of `all` are the same sequence, and each holds every
/// companion variant exactly once, in declaration order.
pub proof fn all_is_fixed(a: KindedArtifact, r1: Seq<KindValue>, r2: Seq<KindValue>)
    requires
        r1.len() == a.kind_variants@.len(),
        forall|i: int| 0 <= i < r1.len() ==> (#[trigger] r1[i]).index == i,
        r2.len() == a.kind_variants@.len(),
        forall|i: int| 0 <= i < r2.len() ==> (#[trigger] r2[i]).index == i,
    ensures
        r1 == r2,
        forall|k: int| 0 <= k < a.kind_variants@.len() ==> r1[k] == (KindValue { index: k as usize }),
        forall|i: int, j: int| 0 <= i < r1.len() && 0 <= j < r1.len() && i != j ==> r1[i] != r1[j],
{
    assert forall|k: int| 0 <= k < a.kind_variants@.len() implies r1[k] == (KindValue { index: k as usize }) by {
        assert(r1[k].index == k);
    }
    assert(r1 =~= r2);
}

/// Conversion from a value and from a reference to it both give its kind.
pub proof fn conversions_agree_with_kind(v: SumValue)
    ensures
        <KindValue as vstd::std_specs::convert::FromSpec<SumValue>>::from_spec(v)
            == v.kind_spec(),
        <KindValue as vstd::std_specs::convert::FromSpec<&SumValue>>::from_spec(&v)
            == v.kind_spec(),
{
}

/// Without a `#[kinded(...)]` block the companion type is the original's
/// name with `Kind` appended.
pub proof fn default_kind_name(input: DeriveInput)
    requires
        forall|j: int|
            0 <= j < input.attrs@.len() ==> !crate::parse::is_kinded(#[trigger] input.attrs@[j]),
    ensures
        crate::parse::config_of(input.attrs@) matches Ok(c) && crate::generate::companion_name(
            input.ident@,
            c.kind,
        ) == input.ident@ + "Kind"@,
{
    assert(!exists|s: int| crate::parse::second_kinded(input.attrs@, s));
    assert(!exists|i: int| crate::parse::sole_kinded(input.attrs@, i));
}

/// With `#[kinded(kind = Name)]` the companion type is `Name`.
pub proof fn given_kind_name(attrs: Seq<Attribute>, i: int, ident: Seq<char>, name: Seq<char>)
    requires
        crate::parse::sole_kinded(attrs, i),
        attrs[i].meta matches AttrMeta::List(Delimiter::Parenthesis, toks) && {
            &&& toks@.len() == 3
            &&& toks@[0] matches TokenTree::Ident(k) && k@ == "kind"@
            &&& toks@[1] == TokenTree::Punct('=')
            &&& toks@[2] matches TokenTree::Ident(n) && n@ == name
        },
    ensures
        crate::parse::config_of(attrs) matches Ok(c) && crate::generate::companion_name(ident, c.kind)
            == name,
{
    assert(!exists|s: int| crate::parse::second_kinded(attrs, s));
    reveal_strlit("kind");
    reveal_strlit("display");
    reveal_strlit("derive");
    assert("kind"@ != "display"@) by {
        assert("kind"@.len() != "display"@.len());
    }
    assert("kind"@ != "derive"@) by {
        assert("kind"@.len() != "derive"@.len());
    }
    assert((choose|j: int| crate::parse::sole_kinded(attrs, j)) == i);
}

/// A second `#[kinded(...)]` block is refused, with the error at it.
pub proof fn second_block_refused(attrs: Seq<Attribute>, f: int, s: int)
    requires
        0 <= f < s < attrs.len(),
        crate::parse::is_kinded(attrs[f]),
        crate::parse::is_kinded(attrs[s]),
        forall|j: int| 0 <= j < s && j != f ==> !crate::parse::is_kinded(#[trigger] attrs[j]),
    ensures
        crate::parse::config_of(attrs) == Err::<crate::model::AttrsView, ErrorView>(
            ErrorView::MultipleAttributes { attr: s as nat },
        ),
{
    assert(crate::parse::second_kinded(attrs, s));
    let t = choose|t: int| crate::parse::second_kinded(attrs, t);
    crate::parse::lemma_second_kinded_unique(attrs, s, t);
}

/// A block that opens with a key other than `kind`, `display` and `derive`
/// is refused, with an error that names the key.
pub proof fn unknown_key_refused(attrs: Seq<Attribute>, i: int, key: Seq<char>)
    requires
        crate::parse::sole_kinded(attrs, i),
        attrs[i].meta matches AttrMeta::List(Delimiter::Parenthesis, toks) && (toks@.len() > 0
            && (toks@[0] matches TokenTree::Ident(k) && k@ == key)),
        key != "kind"@,
        key != "display"@,
        key != "derive"@,
    ensures
        crate::parse::config_of(attrs) == Err::<crate::model::AttrsView, ErrorView>(
            ErrorView::UnknownAttribute { key, at: 0 },
        ),
{
    assert(!exists|s: int| crate::parse::second_kinded(attrs, s));
    assert((choose|j: int| crate::parse::sole_kinded(attrs, j)) == i);
}

/// Generic and lifetime parameters play no part in whether a derivation
/// succeeds or in the configuration it reads: two definitions that differ
/// only in them are read alike. (The companion type itself never carries
/// them: its fields in the artifact are the name, variants, capabilities and
/// renderings, which `derive_kinded` fixes from the configuration and the
/// variants alone.)
pub proof fn generics_play_no_part(a: DeriveInput, b: DeriveInput)
    requires
        a.attrs == b.attrs,
        a.ident == b.ident,
        a.data == b.data,
    ensures
        crate::parse::config_of(a.attrs@) == crate::parse::config_of(b.attrs@),
        crate::generate::companion_name(a.ident@, None) == crate::generate::companion_name(
            b.ident@,
            None,
        ),
        a.data is Enum <==> b.data is Enum,
{
}

/// A camel-case word: an ASCII uppercase letter, then characters that are
/// neither uppercase letters nor underscores.
pub open spec fn camel_word(w: Seq<char>) -> bool {
    &&& w.len() > 0
    &&& is_ascii_upper(w[0])
    &&& forall|i: int| 1 <= i < w.len() ==> !is_ascii_upper(#[trigger] w[i]) && w[i] != '_'
}

/// The words written one after the other.
pub open spec fn concat_words(ws: Seq<Seq<char>>) -> Seq<char>
    decreases ws.len(),
{
    if ws.len() == 0 {
        Seq::empty()
    } else {
        concat_words(ws.drop_last()) + ws.last()
    }
}

pub open spec fn lower_word(w: Seq<char>) -> Seq<char> {
    w.map_values(|c: char| ascii_lower(c))
}

/// The words lowercased and joined by underscores.
pub open spec fn snake_join(ws: Seq<Seq<char>>) -> Seq<char>
    decreases ws.len(),
{
    if ws.len() == 0 {
        Seq::empty()
    } else if ws.len() == 1 {
        lower_word(ws[0])
    } else {
        snake_join(ws.drop_last()) + seq!['_'] + lower_word(ws.last())
    }
}

/// Camel-case words where every word but the last has two characters or
/// more, so that no two words run into one uppercase run.
pub open spec fn camel_words(ws: Seq<Seq<char>>) -> bool {
    &&& forall|i: int| 0 <= i < ws.len() ==> camel_word(#[trigger] ws[i])
    &&& forall|i: int| 0 <= i < ws.len() - 1 ==> (#[trigger] ws[i]).len() >= 2
}

proof fn lemma_concat_no_underscore(ws: Seq<Seq<char>>)
    requires
        forall|i: int| 0 <= i < ws.len() ==> camel_word(#[trigger] ws[i]),
    ensures
        forall|k: int| 0 <= k < concat_words(ws).len() ==> (#[trigger] concat_words(ws)[k]) != '_',
    decreases ws.len(),
{
    if ws.len() > 0 {
        let p = ws.drop_last();
        assert forall|i: int| 0 <= i < p.len() implies camel_word(#[trigger] p[i]) by {
            assert(p[i] == ws[i]);
        }
        lemma_concat_no_underscore(p);
        let w = ws.last();
        assert(camel_word(ws[ws.len() - 1]));
        assert forall|k: int| 0 <= k < concat_words(ws).len() implies (#[trigger] concat_words(
            ws,
        )[k]) != '_' by {
            if k >= concat_words(p).len() {
                let m = k - concat_words(p).len();
                assert(concat_words(ws)[k] == w[m]);
                if m >= 1 {
                    assert(!is_ascii_upper(w[m]) && w[m] != '_');
                }
            } else {
                assert(concat_words(ws)[k] == concat_words(p)[k]);
            }
        }
    }
}

proof fn lemma_word_seen_prefix(s: Seq<char>, t: Seq<char>, n: int)
    requires
        0 <= n <= s.len(),
        n <= t.len(),
        s.subrange(0, n) == t.subrange(0, n),
    ensures
        word_seen(s, n) == word_seen(t, n),
        forall|c: DisplayCase| render_prefix(c, s, n) == render_prefix(c, t, n),
    decreases n,
{
    if n > 0 {
        assert(s.subrange(0, n - 1) =~= t.subrange(0, n - 1)) by {
            assert forall|k: int| 0 <= k < n - 1 implies s[k] == t[k] by {
                assert(s[k] == s.subrange(0, n)[k]);
                assert(t[k] == t.subrange(0, n)[k]);
            }
        }
        lemma_word_seen_prefix(s, t, n - 1);
        assert(s[n - 1] == s.subrange(0, n)[n - 1]);
        assert(t[n - 1] == t.subrange(0, n)[n - 1]);
        if n > 1 {
            assert(s[n - 2] == s.subrange(0, n)[n - 2]);
            assert(t[n - 2] == t.subrange(0, n)[n - 2]);
        }
        assert(starts_word(s, n - 1) == starts_word(t, n - 1));
        assert forall|c: DisplayCase| render_prefix(c, s, n) == render_prefix(c, t, n) by {
            assert(render_prefix(c, s, n - 1) == render_prefix(c, t, n - 1));
            assert(piece(c, s, n - 1) == piece(c, t, n - 1));
            assert(render_prefix(c, s, n) == render_prefix(c, s, n - 1) + piece(c, s, n - 1));
            assert(render_prefix(c, t, n) == render_prefix(c, t, n - 1) + piece(c, t, n - 1));
        }
    }
}

proof fn lemma_word_seen_after_start(s: Seq<char>, n: int)
    requires
        1 <= n <= s.len(),
        s[0] != '_',
    ensures
        word_seen(s, n),
    decreases n,
{
    if n > 1 {
        lemma_word_seen_after_start(s, n - 1);
    } else {
        assert(starts_word(s, 0));
        assert(word_seen(s, 1));
    }
}

proof fn lemma_render_word(p: Seq<char>, w: Seq<char>, m: int)
    requires
        camel_word(w),
        1 <= m <= w.len(),
        forall|k: int| 0 <= k < p.len() ==> (#[trigger] p[k]) != '_',
        p.len() > 0 ==> !is_ascii_upper(p[p.len() - 1]),
    ensures
        render_prefix(DisplayCase::Snake, p + w, p.len() + m) == render_prefix(
            DisplayCase::Snake,
            p + w,
            p.len() as int,
        ) + (if p.len() > 0 {
            seq!['_']
        } else {
            Seq::empty()
        }) + lower_word(w.subrange(0, m)),
    decreases m,
{
    let s = p + w;
    let n = p.len() as int;
    if m == 1 {
        assert(s[n] == w[0]);
        if n > 0 {
            assert(s[n - 1] == p[n - 1]);
            assert(s[0] == p[0]);
            lemma_word_seen_after_start(s, n);
        } else {
            assert(!word_seen(s, 0));
        }
        assert(starts_word(s, n));
        assert(lower_word(w.subrange(0, 1)) =~= seq![ascii_lower(w[0])]);
        assert(render_prefix(DisplayCase::Snake, s, n + 1) =~= render_prefix(
            DisplayCase::Snake,
            s,
            n,
        ) + (if n > 0 {
            seq!['_']
        } else {
            Seq::empty()
        }) + lower_word(w.subrange(0, 1)));
    } else {
        lemma_render_word(p, w, m - 1);
        let i = n + m - 1;
        assert(s[i] == w[m - 1]);
        assert(!is_ascii_upper(w[m - 1]) && w[m - 1] != '_');
        if m - 2 >= 1 {
            assert(s[i - 1] == w[m - 2]);
            assert(w[m - 2] != '_');
        } else {
            assert(s[i - 1] == w[0]);
        }
        assert(!starts_word(s, i));
        assert(piece(DisplayCase::Snake, s, i) == seq![ascii_lower(w[m - 1])]);
        assert(lower_word(w.subrange(0, m)) =~= lower_word(w.subrange(0, m - 1)).push(
            ascii_lower(w[m - 1]),
        ));
        assert(render_prefix(DisplayCase::Snake, s, n + m) =~= render_prefix(
            DisplayCase::Snake,
            s,
            n,
        ) + (if n > 0 {
            seq!['_']
        } else {
            Seq::empty()
        }) + lower_word(w.subrange(0, m)));
    }
}

/// With `display = "snake_case"`, an identifier made of camel-case words
/// renders as the words lowercased and joined by underscores.
pub proof fn snake_case_of_camel_words(ws: Seq<Seq<char>>)
    requires
        camel_words(ws),
    ensures
        render(DisplayCase::Snake, concat_words(ws)) == snake_join(ws),
    decreases ws.len(),
{
    if ws.len() > 0 {
        let p = ws.drop_last();
        let w = ws.last();
        assert(camel_word(ws[ws.len() - 1]));
        assert(camel_words(p)) by {
            assert forall|i: int| 0 <= i < p.len() implies camel_word(#[trigger] p[i]) by {
                assert(p[i] == ws[i]);
            }
            assert forall|i: int| 0 <= i < p.len() - 1 implies (#[trigger] p[i]).len() >= 2 by {
                assert(p[i] == ws[i]);
            }
        }
        snake_case_of_camel_words(p);
        let cp = concat_words(p);
        let s = concat_words(ws);
        assert(s == cp + w);
        lemma_concat_no_underscore(p);
        if cp.len() > 0 {
            assert(p.len() > 0);
            let lw = p.last();
            assert(lw == ws[p.len() - 1]);
            assert(camel_word(lw) && lw.len() >= 2);
            assert(cp == concat_words(p.drop_last()) + lw);
            assert(cp[cp.len() - 1] == lw[lw.len() - 1]);
        }
        lemma_render_word(cp, w, w.len() as int);
        assert(s.subrange(0, cp.len() as int) =~= cp.subrange(0, cp.len() as int));
        lemma_word_seen_prefix(s, cp, cp.len() as int);
        assert(w.subrange(0, w.len() as int) =~= w);
        if p.len() == 0 {
            assert(cp.len() == 0);
            assert(render_prefix(DisplayCase::Snake, s, 0) == Seq::<char>::empty());
            assert(s =~= w);
            assert(render(DisplayCase::Snake, s) =~= snake_join(ws));
        } else {
            assert(cp.len() > 0) by {
                assert(camel_word(ws[p.len() - 1]));
                assert(p.last() == ws[p.len() - 1]);
                assert(cp == concat_words(p.drop_last()) + p.last());
            }
            assert(render(DisplayCase::Snake, s) =~= snake_join(ws));
        }
    }
}

} // verus!
