//! Rendering of variant identifiers under the supported casing conventions.
//!
//! An identifier is split into words at underscores and wherever an ASCII
//! uppercase letter follows a character that is not one; runs of uppercase
//! letters and of digits stay inside the word they belong to.
use vstd::prelude::*;

verus! {

/// The casing conventions that `display = "..."` can select.
#[derive(Debug, Clone, Copy, PartialEq, Eq, Structural)]
pub enum DisplayCase {
    Snake,
    Camel,
    Pascal,
    ScreamingSnake,
    Kebab,
    ScreamingKebab,
    Title,
    Lower,
    Upper,
}

pub open spec fn is_ascii_upper(c: char) -> bool {
    'A' <= c && c <= 'Z'
}

pub open spec fn is_ascii_lower(c: char) -> bool {
    'a' <= c && c <= 'z'
}

pub open spec fn ascii_lower(c: char) -> char {
    if is_ascii_upper(c) {
        ((c as u32) + 32) as char
    } else {
        c
    }
}

pub open spec fn ascii_upper(c: char) -> char {
    if is_ascii_lower(c) {
        ((c as u32) - 32) as char
    } else {
        c
    }
}

/// Whether a new word starts at position `i` of `s`.
pub open spec fn starts_word(s: Seq<char>, i: int) -> bool {
    &&& s[i] != '_'
    &&& (i == 0 || s[i - 1] == '_' || (is_ascii_upper(s[i]) && !is_ascii_upper(s[i - 1])))
}

/// Whether some word starts before position `n` of `s`.
pub open spec fn word_seen(s: Seq<char>, n: int) -> bool
    decreases n,
{
    if n <= 0 {
        false
    } else {
        word_seen(s, n - 1) || starts_word(s, n - 1)
    }
}

/// The separator a convention puts between two words, if any.
pub open spec fn separator(case: DisplayCase) -> Option<char> {
    match case {
        DisplayCase::Snake | DisplayCase::ScreamingSnake => Some('_'),
        DisplayCase::Kebab | DisplayCase::ScreamingKebab => Some('-'),
        DisplayCase::Title => Some(' '),
        _ => None,
    }
}

/// How the character at position `i` is cased; `first` tells whether it
/// starts a word, `later` whether a word was seen before it.
pub open spec fn case_char(case: DisplayCase, c: char, first: bool, later: bool) -> char {
    match case {
        DisplayCase::Snake | DisplayCase::Kebab | DisplayCase::Lower => ascii_lower(c),
        DisplayCase::ScreamingSnake | DisplayCase::ScreamingKebab | DisplayCase::Upper => ascii_upper(c),
        DisplayCase::Pascal | DisplayCase::Title => if first { ascii_upper(c) } else { ascii_lower(c) },
        DisplayCase::Camel => if first && later { ascii_upper(c) } else { ascii_lower(c) },
    }
}

/// What the character at position `i` of `s` contributes to the rendering.
pub open spec fn piece(case: DisplayCase, s: Seq<char>, i: int) -> Seq<char> {
    if s[i] == '_' {
        Seq::empty()
    } else {
        let first = starts_word(s, i);
        let later = word_seen(s, i);
        let c = case_char(case, s[i], first, later);
        match separator(case) {
            Some(sep) => if first && later { seq![sep, c] } else { seq![c] },
            None => seq![c],
        }
    }
}

/// The rendering of the first `n` characters of `s`.
pub open spec fn render_prefix(case: DisplayCase, s: Seq<char>, n: int) -> Seq<char>
    decreases n,
{
    if n <= 0 {
        Seq::empty()
    } else {
        render_prefix(case, s, n - 1) + piece(case, s, n - 1)
    }
}

/// The rendering of identifier `s` under `case`.
pub open spec fn render(case: DisplayCase, s: Seq<char>) -> Seq<char> {
    render_prefix(case, s, s.len() as int)
}

/// The convention that a `display` literal names, if it names one.
pub open spec fn case_named(lit: Seq<char>) -> Option<DisplayCase> {
    if lit == "snake_case"@ {
        Some(DisplayCase::Snake)
    } else if lit == "camelCase"@ {
        Some(DisplayCase::Camel)
    } else if lit == "PascalCase"@ {
        Some(DisplayCase::Pascal)
    } else if lit == "SCREAMING_SNAKE_CASE"@ {
        Some(DisplayCase::ScreamingSnake)
    } else if lit == "kebab-case"@ {
        Some(DisplayCase::Kebab)
    } else if lit == "SCREAMING-KEBAB-CASE"@ {
        Some(DisplayCase::ScreamingKebab)
    } else if lit == "Title Case"@ {
        Some(DisplayCase::Title)
    } else if lit == "lowercase"@ {
        Some(DisplayCase::Lower)
    } else if lit == "UPPERCASE"@ {
        Some(DisplayCase::Upper)
    } else {
        None
    }
}

fn lower_char(c: char) -> (r: char)
    ensures
        r == ascii_lower(c),
{
    if 'A' <= c && c <= 'Z' {
        ((c as u8) + 32) as char
    } else {
        c
    }
}

fn upper_char(c: char) -> (r: char)
    ensures
        r == ascii_upper(c),
{
    if 'a' <= c && c <= 'z' {
        ((c as u8) - 32) as char
    } else {
        c
    }
}

fn separator_of(case: DisplayCase) -> (r: Option<char>)
    ensures
        r == separator(case),
{
    match case {
        DisplayCase::Snake | DisplayCase::ScreamingSnake => Some('_'),
        DisplayCase::Kebab | DisplayCase::ScreamingKebab => Some('-'),
        DisplayCase::Title => Some(' '),
        _ => None,
    }
}

fn case_char_of(case: DisplayCase, c: char, first: bool, later: bool) -> (r: char)
    ensures
        r == case_char(case, c, first, later),
{
    match case {
        DisplayCase::Snake | DisplayCase::Kebab | DisplayCase::Lower => lower_char(c),
        DisplayCase::ScreamingSnake | DisplayCase::ScreamingKebab | DisplayCase::Upper => upper_char(c),
        DisplayCase::Pascal | DisplayCase::Title => if first {
            upper_char(c)
        } else {
            lower_char(c)
        },
        DisplayCase::Camel => if first && later {
            upper_char(c)
        } else {
            lower_char(c)
        },
    }
}

/// Renders the identifier `s` under the convention `case`.
pub fn render_chars(case: DisplayCase, s: &Vec<char>) -> (r: Vec<char>)
    ensures
        r@ == render(case, s@),
{
    let mut out: Vec<char> = Vec::new();
    let mut seen = false;
    let sep = separator_of(case);
    let mut i: usize = 0;
    while i < s.len()
        invariant
            i <= s@.len(),
            out@ == render_prefix(case, s@, i as int),
            seen == word_seen(s@, i as int),
            sep == separator(case),
        decreases s@.len() - i,
    {
        let c = s[i];
        if c != '_' {
            let first = i == 0 || s[i - 1] == '_' || (('A' <= c && c <= 'Z') && !('A' <= s[i
                - 1] && s[i - 1] <= 'Z'));
            assert(first == starts_word(s@, i as int));
            if first && seen {
                match sep {
                    Some(d) => out.push(d),
                    None => {},
                }
            }
            out.push(case_char_of(case, c, first, seen));
            seen = seen || first;
        }
        assert(out@ =~= render_prefix(case, s@, i + 1));
        i += 1;
    }
    out
}

} // verus!
