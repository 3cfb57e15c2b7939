//! Choosing the entry function among the symbols that a search returned, and
//! keeping the callable symbols of the workspace snapshot.

use crate::order::str_eq;
use crate::symbols::{in_workspace, is_in_workspace, symbol_views, SymbolRef, SymbolView};
use crate::text::chars_of;
use vstd::prelude::*;

verus! {

/// A symbol that can serve as the entry whatever its name: a function or a
/// method declared inside the workspace.
pub open spec fn is_fallback_entry(s: SymbolView, root: Seq<char>) -> bool {
    SymbolRef::callable(s) && in_workspace(root, s.uri)
}

/// A symbol that is the entry asked for: it can serve as an entry and has
/// exactly the entry's name.
pub open spec fn is_exact_entry(s: SymbolView, entry: Seq<char>, root: Seq<char>) -> bool {
    is_fallback_entry(s, root) && s.name == entry
}

/// The first symbol at or after `from` with exactly the entry's name.
pub open spec fn first_exact(
    symbols: Seq<SymbolView>,
    entry: Seq<char>,
    root: Seq<char>,
    from: int,
) -> Option<int>
    decreases symbols.len() - from,
{
    if from < 0 || from >= symbols.len() {
        None
    } else if is_exact_entry(symbols[from], entry, root) {
        Some(from)
    } else {
        first_exact(symbols, entry, root, from + 1)
    }
}

/// The first symbol at or after `from` that can serve as an entry.
pub open spec fn first_fallback(symbols: Seq<SymbolView>, root: Seq<char>, from: int) -> Option<int>
    decreases symbols.len() - from,
{
    if from < 0 || from >= symbols.len() {
        None
    } else if is_fallback_entry(symbols[from], root) {
        Some(from)
    } else {
        first_fallback(symbols, root, from + 1)
    }
}

/// The entry among the symbols of one search: the first callable symbol of
/// the workspace that has the entry's name; where none has it, the first
/// callable symbol of the workspace; `None` where the workspace has none.
pub open spec fn entry_choice(symbols: Seq<SymbolView>, entry: Seq<char>, root: Seq<char>) -> Option<
    int,
> {
    match first_exact(symbols, entry, root, 0) {
        Some(i) => Some(i),
        None => first_fallback(symbols, root, 0),
    }
}

/// What `first_exact` finds is the first exact match, and it finds one where
/// there is one.
pub proof fn lemma_first_exact(
    symbols: Seq<SymbolView>,
    entry: Seq<char>,
    root: Seq<char>,
    from: int,
)
    requires
        0 <= from,
    ensures
        match first_exact(symbols, entry, root, from) {
            Some(i) => from <= i < symbols.len() && is_exact_entry(symbols[i], entry, root)
                && forall|j: int| from <= j < i ==> !is_exact_entry(#[trigger] symbols[j], entry, root),
            None => forall|j: int|
                from <= j < symbols.len() ==> !is_exact_entry(#[trigger] symbols[j], entry, root),
        },
    decreases symbols.len() - from,
{
    if from < symbols.len() && !is_exact_entry(symbols[from], entry, root) {
        lemma_first_exact(symbols, entry, root, from + 1);
    }
}

/// What `first_fallback` finds is the first symbol that can serve, and it
/// finds one where there is one.
pub proof fn lemma_first_fallback(symbols: Seq<SymbolView>, root: Seq<char>, from: int)
    requires
        0 <= from,
    ensures
        match first_fallback(symbols, root, from) {
            Some(i) => from <= i < symbols.len() && is_fallback_entry(symbols[i], root)
                && forall|j: int| from <= j < i ==> !is_fallback_entry(#[trigger] symbols[j], root),
            None => forall|j: int|
                from <= j < symbols.len() ==> !is_fallback_entry(#[trigger] symbols[j], root),
        },
    decreases symbols.len() - from,
{
    if from < symbols.len() && !is_fallback_entry(symbols[from], root) {
        lemma_first_fallback(symbols, root, from + 1);
    }
}

/// A search yields no entry exactly when it returned no callable symbol of
/// the workspace; an empty result is one such case.
pub proof fn lemma_no_entry(symbols: Seq<SymbolView>, entry: Seq<char>, root: Seq<char>)
    ensures
        entry_choice(symbols, entry, root) is None <==> forall|j: int|
            0 <= j < symbols.len() ==> !is_fallback_entry(#[trigger] symbols[j], root),
        symbols.len() == 0 ==> entry_choice(symbols, entry, root) is None,
{
    lemma_first_exact(symbols, entry, root, 0);
    lemma_first_fallback(symbols, root, 0);
}

/// Chooses the entry among the symbols of one search.
pub fn select_entry(symbols: &Vec<SymbolRef>, entry_name: &str, root: &str) -> (r: Option<usize>)
    ensures
        match r {
            Some(i) => i < symbols@.len() && entry_choice(symbol_views(symbols@), entry_name@, root@)
                == Some(i as int),
            None => entry_choice(symbol_views(symbols@), entry_name@, root@) is None,
        },
{
    let ghost views = symbol_views(symbols@);
    let root_chars = chars_of(root);
    let mut fallback: Option<usize> = None;
    let mut i: usize = 0;
    while i < symbols.len()
        invariant
            i <= symbols.len(),
            views == symbol_views(symbols@),
            root_chars@ == root@,
            first_exact(views, entry_name@, root@, 0) == first_exact(
                views,
                entry_name@,
                root@,
                i as int,
            ),
            match fallback {
                Some(f) => f < i && first_fallback(views, root@, 0) == Some(f as int),
                None => first_fallback(views, root@, 0) == first_fallback(views, root@, i as int),
            },
        decreases symbols.len() - i,
    {
        let s = &symbols[i];
        assert(views[i as int] == s@);
        if s.is_callable() {
            let uri = chars_of(s.uri.as_str());
            if is_in_workspace(&root_chars, &uri) {
                if str_eq(s.name.as_str(), entry_name) {
                    return Some(i);
                }
                if fallback.is_none() {
                    fallback = Some(i);
                }
            }
        }
        i = i + 1;
    }
    fallback
}

/// The callable symbols among the first `upto` of `symbols`, in their order.
pub open spec fn keep_callable(symbols: Seq<SymbolView>, upto: int) -> Seq<SymbolView>
    decreases upto,
{
    if upto <= 0 {
        Seq::empty()
    } else if SymbolRef::callable(symbols[upto - 1]) {
        keep_callable(symbols, upto - 1).push(symbols[upto - 1])
    } else {
        keep_callable(symbols, upto - 1)
    }
}

/// The functions and methods among `symbols`, in their order.
pub fn callable_symbols(symbols: &Vec<SymbolRef>) -> (r: Vec<SymbolRef>)
    ensures
        symbol_views(r@) == keep_callable(symbol_views(symbols@), symbols@.len() as int),
{
    let ghost views = symbol_views(symbols@);
    let mut r: Vec<SymbolRef> = Vec::new();
    let mut i: usize = 0;
    assert(symbol_views(r@) =~= keep_callable(views, 0));
    while i < symbols.len()
        invariant
            i <= symbols.len(),
            views == symbol_views(symbols@),
            symbol_views(r@) == keep_callable(views, i as int),
        decreases symbols.len() - i,
    {
        let s = &symbols[i];
        assert(views[i as int] == s@);
        if s.is_callable() {
            let ghost before = symbol_views(r@);
            r.push(s.clone());
            assert(symbol_views(r@) =~= before.push(s@));
        }
        i = i + 1;
    }
    r
}

} // verus!
