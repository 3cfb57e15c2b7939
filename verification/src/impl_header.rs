//! Reading the implementing type out of the header of an `impl` block:
//! `impl [<generics>] [Trait for] Type { ... }`.

use crate::text::{
    char_is_ident, char_is_whitespace, chars_of, find, find_from, has_at, is_ident_char,
    is_whitespace, matches_at, skip_whitespace, skip_ws, slice_chars, string_of,
};
use vstd::prelude::*;

verus! {

/// What a type's name or path is made of: identifier characters, and colons
/// where `colons` is set.
pub open spec fn is_name_char(c: char, colons: bool) -> bool {
    is_ident_char(c) || (colons && c == ':')
}

/// The first position at or after `from` that holds no name character, or the
/// length of `s`.
pub open spec fn name_end(s: Seq<char>, from: int, colons: bool) -> int
    decreases s.len() - from,
{
    if from >= s.len() {
        s.len() as int
    } else if !is_name_char(s[from], colons) {
        from
    } else {
        name_end(s, from + 1, colons)
    }
}

/// The end of a name lies between its start and the end of the text.
pub proof fn lemma_name_end_bounds(s: Seq<char>, from: int, colons: bool)
    requires
        0 <= from <= s.len(),
    ensures
        from <= name_end(s, from, colons) <= s.len(),
    decreases s.len() - from,
{
    if from < s.len() && is_name_char(s[from], colons) {
        lemma_name_end_bounds(s, from + 1, colons);
    }
}

/// The position just after the `>` that closes `depth` open angle brackets,
/// scanning from `i`; the length of `s` where they are never closed. The `>`
/// of an arrow `->` closes nothing.
pub open spec fn close_angle(s: Seq<char>, i: int, depth: nat) -> int
    decreases s.len() - i,
{
    if i < 0 || i >= s.len() {
        s.len() as int
    } else if s[i] == '<' {
        close_angle(s, i + 1, depth + 1)
    } else if s[i] == '>' && !(i > 0 && s[i - 1] == '-') {
        if depth <= 1 {
            i + 1
        } else {
            close_angle(s, i + 1, (depth - 1) as nat)
        }
    } else {
        close_angle(s, i + 1, depth)
    }
}

/// The position where the type itself begins, once the tokens that may stand
/// before it are passed: whitespace, `&`, a lifetime, and `mut`.
pub open spec fn skip_refs(s: Seq<char>, i: int) -> int
    decreases s.len() - i,
{
    if i < 0 || i >= s.len() {
        s.len() as int
    } else if is_whitespace(s[i]) || s[i] == '&' {
        skip_refs(s, i + 1)
    } else if s[i] == '\'' {
        proof {
            lemma_name_end_bounds(s, i + 1, false);
        }
        skip_refs(s, name_end(s, i + 1, false))
    } else if has_at(s, i, "mut"@) && i + "mut"@.len() < s.len() && is_whitespace(
        s[i + "mut"@.len()],
    ) {
        skip_refs(s, i + "mut"@.len() + 1)
    } else {
        i
    }
}

/// The type that the header of an `impl` block names, without its generic
/// parameters and without a leading reference or `mut`: for
/// `impl<T> Display for &mut Counter<T> {` it is `Counter`. `None` where the
/// text is no such header.
pub open spec fn impl_target(s: Seq<char>) -> Option<Seq<char>> {
    let a = skip_whitespace(s, 0);
    let keyword = "impl"@;
    if !has_at(s, a, keyword) {
        None
    } else {
        let b = a + keyword.len();
        if b < s.len() && is_ident_char(s[b]) {
            None
        } else {
            let c = skip_whitespace(s, b);
            let d = if c < s.len() && s[c] == '<' {
                close_angle(s, c + 1, 1)
            } else {
                c
            };
            let stop = find_from(s, d, seq!['{']);
            let head = s.subrange(d, stop);
            let f = find_from(head, 0, " for "@);
            let start = if f < head.len() {
                f + " for "@.len()
            } else {
                0
            };
            let t = skip_refs(head, start);
            let e = name_end(head, t, true);
            if e > t {
                Some(head.subrange(t, e))
            } else {
                None
            }
        }
    }
}

fn find_name_end(s: &Vec<char>, from: usize, colons: bool) -> (e: usize)
    requires
        from <= s.len(),
    ensures
        e == name_end(s@, from as int, colons),
        from <= e <= s.len(),
{
    let mut i: usize = from;
    while i < s.len()
        invariant
            from <= i <= s.len(),
            name_end(s@, from as int, colons) == name_end(s@, i as int, colons),
        decreases s.len() - i,
    {
        let c = s[i];
        if !(char_is_ident(c) || (colons && c == ':')) {
            return i;
        }
        i = i + 1;
    }
    i
}

fn find_close_angle(s: &Vec<char>, from: usize) -> (e: usize)
    requires
        1 <= from <= s.len(),
    ensures
        e == close_angle(s@, from as int, 1),
        from <= e <= s.len(),
{
    let mut i: usize = from;
    let mut depth: usize = 1;
    while i < s.len()
        invariant
            1 <= from <= i <= s.len(),
            1 <= depth <= i,
            close_angle(s@, from as int, 1) == close_angle(s@, i as int, depth as nat),
        decreases s.len() - i,
    {
        let c = s[i];
        if c == '<' {
            depth = depth + 1;
        } else if c == '>' && s[i - 1] != '-' {
            if depth <= 1 {
                return i + 1;
            }
            depth = depth - 1;
        }
        i = i + 1;
    }
    i
}

fn find_type_start(s: &Vec<char>, from: usize, word: &Vec<char>) -> (t: usize)
    requires
        from <= s.len(),
        word@ == "mut"@,
    ensures
        t == skip_refs(s@, from as int),
        from <= t <= s.len(),
{
    let mut i: usize = from;
    while i < s.len()
        invariant
            from <= i <= s.len(),
            word@ == "mut"@,
            skip_refs(s@, from as int) == skip_refs(s@, i as int),
        decreases s.len() - i,
    {
        let c = s[i];
        if char_is_whitespace(c) || c == '&' {
            i = i + 1;
        } else if c == '\'' {
            i = find_name_end(s, i + 1, false);
        } else if matches_at(s, i, word) && word.len() < s.len() - i && char_is_whitespace(
            s[i + word.len()],
        ) {
            i = i + word.len() + 1;
        } else {
            return i;
        }
    }
    i
}

/// Reads the implementing type out of the header of an `impl` block.
pub fn impl_target_of(s: &Vec<char>) -> (r: Option<String>)
    ensures
        match r {
            Some(t) => impl_target(s@) == Some(t@),
            None => impl_target(s@) is None,
        },
{
    let keyword = chars_of("impl");
    let a = skip_ws(s, 0);
    if !matches_at(s, a, &keyword) {
        return None;
    }
    let b = a + keyword.len();
    if b < s.len() && char_is_ident(s[b]) {
        return None;
    }
    let c = skip_ws(s, b);
    let d = if c < s.len() && s[c] == '<' {
        find_close_angle(s, c + 1)
    } else {
        c
    };
    let brace: Vec<char> = vec!['{'];
    assert(brace@ =~= seq!['{']);
    let stop = find(s, d, &brace);
    let head = slice_chars(s, d, stop);
    let sep = chars_of(" for ");
    let f = find(&head, 0, &sep);
    let start = if f < head.len() {
        proof {
            crate::text::lemma_find_from_bounds(head@, 0, sep@);
        }
        f + sep.len()
    } else {
        0
    };
    let word = chars_of("mut");
    let t = find_type_start(&head, start, &word);
    let e = find_name_end(&head, t, true);
    if e > t {
        Some(string_of(&head, t, e))
    } else {
        None
    }
}

} // verus!
