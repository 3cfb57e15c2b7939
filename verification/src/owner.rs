//! Finding the `impl` block that encloses a declaration by reading the source
//! text backwards from the declaration's line.

use crate::framing::{find_line_end, lemma_line_end_bounds, line_end, line_stop};
use crate::impl_header::{impl_target, impl_target_of};
use crate::text::{chars_of, slice_chars};
use vstd::prelude::*;

verus! {

/// The offsets at which the lines of `text` start, beginning with the line
/// that starts at `from`. A text that ends with a line feed has a last, empty
/// line after it.
pub open spec fn line_starts_from(text: Seq<char>, from: int) -> Seq<int>
    decreases text.len() - from,
{
    if from < 0 || from > text.len() {
        Seq::empty()
    } else if line_end(text, from) >= text.len() {
        seq![from]
    } else {
        proof {
            lemma_line_end_bounds(text, from);
        }
        seq![from] + line_starts_from(text, line_end(text, from) + 1)
    }
}

/// The offsets at which the lines of `text` start.
pub open spec fn line_starts(text: Seq<char>) -> Seq<int> {
    line_starts_from(text, 0)
}

/// Whether a brace-delimited body that opens at or after `i` is still open at
/// `to`: a `{` has been seen and not every `{` has been closed. `depth` counts
/// the braces open so far, `opened` says whether one was seen.
pub open spec fn body_open(text: Seq<char>, i: int, to: int, depth: nat, opened: bool) -> bool
    decreases to - i,
{
    if i < 0 || i >= to || i >= text.len() {
        opened && depth > 0
    } else if text[i] == '{' {
        body_open(text, i + 1, to, depth + 1, true)
    } else if text[i] == '}' {
        if depth <= 1 {
            false
        } else {
            body_open(text, i + 1, to, (depth - 1) as nat, opened)
        }
    } else {
        body_open(text, i + 1, to, depth, opened)
    }
}

/// The owner found on line `l` or the nearest line before it: the type of the
/// first `impl` header, going backwards, whose body is still open where line
/// `target` starts.
pub open spec fn owner_before(text: Seq<char>, starts: Seq<int>, target: int, l: int) -> Option<
    Seq<char>,
>
    decreases l + 1,
{
    if l < 0 || l >= starts.len() || target < 0 || target >= starts.len() {
        None
    } else {
        let from = starts[l];
        let here = impl_target(text.subrange(from, line_stop(text, from)));
        if here is Some && body_open(text, from, starts[target], 0, false) {
            here
        } else {
            owner_before(text, starts, target, l - 1)
        }
    }
}

/// The type whose `impl` block encloses line `target_line` of `text` (lines
/// count from zero), or `None` where no `impl` block before that line is
/// still open there, or the text has no such line.
pub open spec fn infer_owner(text: Seq<char>, target_line: nat) -> Option<Seq<char>> {
    let starts = line_starts(text);
    if target_line >= starts.len() {
        None
    } else {
        owner_before(text, starts, target_line as int, target_line - 1)
    }
}

/// The offsets held by a vector of positions.
pub open spec fn offsets(v: Seq<usize>) -> Seq<int> {
    Seq::new(v.len(), |i: int| v[i] as int)
}

fn find_line_starts(s: &Vec<char>) -> (starts: Vec<usize>)
    ensures
        offsets(starts@) == line_starts(s@),
        forall|k: int| 0 <= k < starts@.len() ==> #[trigger] starts@[k] <= s@.len(),
{
    let mut starts: Vec<usize> = Vec::new();
    let mut from: usize = 0;
    assert(offsets(starts@) + line_starts_from(s@, 0) =~= line_starts(s@));
    loop
        invariant
            from <= s.len(),
            offsets(starts@) + line_starts_from(s@, from as int) == line_starts(s@),
            forall|k: int| 0 <= k < starts@.len() ==> #[trigger] starts@[k] <= s@.len(),
        decreases s.len() - from,
    {
        let e = find_line_end(s, from);
        let ghost before = offsets(starts@);
        starts.push(from);
        assert(offsets(starts@) =~= before + seq![from as int]);
        if e >= s.len() {
            assert(before + seq![from as int] =~= before + line_starts_from(s@, from as int));
            return starts;
        }
        assert(before + line_starts_from(s@, from as int) =~= (before + seq![from as int])
            + line_starts_from(s@, e + 1));
        from = e + 1;
    }
}

fn is_body_open(s: &Vec<char>, from: usize, to: usize) -> (b: bool)
    requires
        from <= s.len(),
    ensures
        b == body_open(s@, from as int, to as int, 0, false),
{
    let mut i: usize = from;
    let mut depth: usize = 0;
    let mut opened = false;
    while i < to && i < s.len()
        invariant
            from <= i <= s.len(),
            depth <= i - from,
            body_open(s@, from as int, to as int, 0, false) == body_open(
                s@,
                i as int,
                to as int,
                depth as nat,
                opened,
            ),
        decreases s.len() - i,
    {
        let c = s[i];
        if c == '{' {
            depth = depth + 1;
            opened = true;
        } else if c == '}' {
            if depth <= 1 {
                return false;
            }
            depth = depth - 1;
        }
        i = i + 1;
    }
    opened && depth > 0
}

/// Infers the type that owns the declaration on line `target_line` of a
/// source file from the `impl` block around it.
pub fn infer_owner_of(file_text: &str, target_line: u32) -> (r: Option<String>)
    ensures
        match r {
            Some(t) => infer_owner(file_text@, target_line as nat) == Some(t@),
            None => infer_owner(file_text@, target_line as nat) is None,
        },
{
    let s = chars_of(file_text);
    let starts = find_line_starts(&s);
    let target = target_line as usize;
    if target >= starts.len() {
        return None;
    }
    let ghost marks = line_starts(s@);
    assert(marks.len() == starts@.len());
    let to = starts[target];
    assert(to as int == marks[target as int]) by {
        assert(offsets(starts@)[target as int] == starts@[target as int] as int);
    }
    let mut l: usize = target;
    while l > 0
        invariant
            l <= target < starts@.len(),
            s@ == file_text@,
            marks == line_starts(s@),
            offsets(starts@) == marks,
            to as int == marks[target as int],
            forall|k: int| 0 <= k < starts@.len() ==> #[trigger] starts@[k] <= s@.len(),
            infer_owner(s@, target_line as nat) == owner_before(s@, marks, target as int, l - 1),
        decreases l,
    {
        l = l - 1;
        let from = starts[l];
        assert(from as int == marks[l as int]) by {
            assert(offsets(starts@)[l as int] == starts@[l as int] as int);
        }
        let e = find_line_end(&s, from);
        let stop = if e < s.len() && from < e && s[e - 1] == '\r' {
            e - 1
        } else {
            e
        };
        let line = slice_chars(&s, from, stop);
        match impl_target_of(&line) {
            Some(owner) => {
                if is_body_open(&s, from, to) {
                    return Some(owner);
                }
            },
            None => {},
        }
    }
    None
}

} // verus!
