//! The module that a source file stands for, read off its path below the
//! workspace's `src` directory.

use crate::text::{chars_of, has_at, matches_at, push_char, slice_chars, string_of};
use vstd::prelude::*;

verus! {

/// The root without a closing path separator.
pub open spec fn root_dir(root: Seq<char>) -> Seq<char> {
    if root.len() > 0 && root.last() == '/' {
        root.drop_last()
    } else {
        root
    }
}

/// Where the last path segment of `s[..hi]` starts: just after the last path
/// separator before `hi`, or at the beginning.
pub open spec fn segment_start(s: Seq<char>, hi: int) -> int
    decreases hi,
{
    if hi <= 0 {
        0
    } else if s[hi - 1] == '/' {
        hi
    } else {
        segment_start(s, hi - 1)
    }
}

/// The workspace's own name: the last segment of its root.
pub open spec fn workspace_name(root: Seq<char>) -> Seq<char> {
    let r = root_dir(root);
    r.subrange(segment_start(r, r.len() as int), r.len() as int)
}

/// A relative path as a module path: every path separator becomes `::`.
pub open spec fn path_to_module(p: Seq<char>) -> Seq<char>
    decreases p.len(),
{
    if p.len() == 0 {
        Seq::empty()
    } else if p.last() == '/' {
        path_to_module(p.drop_last()) + "::"@
    } else {
        path_to_module(p.drop_last()).push(p.last())
    }
}

/// The path of `uri` below the workspace's `src` directory, without the `.rs`
/// at its end and without a closing `/mod`; `None` where `uri` is no Rust
/// source file below that directory.
pub open spec fn module_stem(root: Seq<char>, uri: Seq<char>) -> Option<Seq<char>> {
    let base = root_dir(root) + "/src/"@;
    let ext = ".rs"@;
    let index = "/mod"@;
    if has_at(uri, 0, base) && base.len() + ext.len() < uri.len() && has_at(
        uri,
        uri.len() - ext.len(),
        ext,
    ) {
        let rel = uri.subrange(base.len() as int, uri.len() - ext.len());
        if rel.len() > index.len() && has_at(rel, rel.len() - index.len(), index) {
            Some(rel.subrange(0, rel.len() - index.len()))
        } else {
            Some(rel)
        }
    } else {
        None
    }
}

/// The module that the file `uri` stands for. The entry files directly below
/// `src` (`main.rs`, `lib.rs`, `mod.rs`) stand for the workspace itself and
/// take its name; any other file takes its path, with `::` between the
/// segments. `None` where the file is no Rust source below `src`, or the
/// workspace has no name to give.
pub open spec fn module_group(root: Seq<char>, uri: Seq<char>) -> Option<Seq<char>> {
    match module_stem(root, uri) {
        None => None,
        Some(stem) => if stem == "main"@ || stem == "lib"@ || stem == "mod"@ {
            if workspace_name(root).len() > 0 {
                Some(workspace_name(root))
            } else {
                None
            }
        } else {
            Some(path_to_module(stem))
        },
    }
}

fn find_segment_start(s: &Vec<char>, hi: usize) -> (a: usize)
    requires
        hi <= s.len(),
    ensures
        a == segment_start(s@, hi as int),
        a <= hi,
{
    let mut a: usize = hi;
    while a > 0
        invariant
            a <= hi <= s.len(),
            segment_start(s@, hi as int) == segment_start(s@, a as int),
        decreases a,
    {
        if s[a - 1] == '/' {
            return a;
        }
        a = a - 1;
    }
    a
}

/// The workspace's own name, read off its root.
pub fn workspace_name_of(root: &str) -> (name: String)
    ensures
        name@ == workspace_name(root@),
{
    let r = chars_of(root);
    let n = if r.len() > 0 && r[r.len() - 1] == '/' {
        r.len() - 1
    } else {
        r.len()
    };
    let dir = slice_chars(&r, 0, n);
    assert(dir@ =~= root_dir(r@));
    let a = find_segment_start(&dir, n);
    string_of(&dir, a, n)
}

fn module_of_path(p: &Vec<char>) -> (m: String)
    ensures
        m@ == path_to_module(p@),
{
    let mut m = String::new();
    let mut i: usize = 0;
    assert(p@.take(0) =~= Seq::<char>::empty());
    while i < p.len()
        invariant
            i <= p.len(),
            m@ == path_to_module(p@.take(i as int)),
        decreases p.len() - i,
    {
        let c = p[i];
        proof {
            let next = p@.take(i + 1);
            assert(next.drop_last() =~= p@.take(i as int));
            assert(next.last() == c);
        }
        if c == '/' {
            m.append("::");
        } else {
            push_char(&mut m, c);
        }
        i = i + 1;
    }
    assert(p@.take(i as int) =~= p@);
    m
}

fn is_text(s: &Vec<char>, lit: &str) -> (b: bool)
    ensures
        b == (s@ == lit@),
{
    let l = chars_of(lit);
    if s.len() != l.len() {
        return false;
    }
    let b = matches_at(s, 0, &l);
    proof {
        assert(s@.subrange(0, s@.len() as int) =~= s@);
    }
    b
}

/// Infers the module of a source file from its place in the workspace.
pub fn module_group_of(root: &Vec<char>, uri: &Vec<char>) -> (r: Option<String>)
    ensures
        match r {
            Some(m) => module_group(root@, uri@) == Some(m@),
            None => module_group(root@, uri@) is None,
        },
{
    let dir_len = if root.len() > 0 && root[root.len() - 1] == '/' {
        root.len() - 1
    } else {
        root.len()
    };
    let mut base = slice_chars(root, 0, dir_len);
    assert(base@ =~= root_dir(root@));
    let src = chars_of("/src/");
    let mut k: usize = 0;
    while k < src.len()
        invariant
            k <= src.len(),
            src@ == "/src/"@,
            base@ == root_dir(root@) + src@.take(k as int),
        decreases src.len() - k,
    {
        base.push(src[k]);
        k = k + 1;
        assert(root_dir(root@) + src@.take(k as int) =~= (root_dir(root@) + src@.take(k - 1)).push(
            src@[k - 1],
        ));
    }
    assert(src@.take(k as int) =~= src@);
    let ext = chars_of(".rs");
    let index = chars_of("/mod");
    if !matches_at(uri, 0, &base) {
        return None;
    }
    if ext.len() >= uri.len() - base.len() {
        return None;
    }
    if !matches_at(uri, uri.len() - ext.len(), &ext) {
        return None;
    }
    let rel = slice_chars(uri, base.len(), uri.len() - ext.len());
    let stem = if rel.len() > index.len() && matches_at(&rel, rel.len() - index.len(), &index) {
        slice_chars(&rel, 0, rel.len() - index.len())
    } else {
        rel
    };
    assert(module_stem(root@, uri@) == Some(stem@));
    if is_text(&stem, "main") || is_text(&stem, "lib") || is_text(&stem, "mod") {
        let a = find_segment_start(&base, dir_len);
        proof {
            let r = root_dir(root@);
            assert(base@.subrange(0, dir_len as int) =~= r);
            lemma_segment_start_prefix(base@, r, dir_len as int);
            assert(base@.subrange(a as int, dir_len as int) =~= workspace_name(root@));
        }
        if a < dir_len {
            Some(string_of(&base, a, dir_len))
        } else {
            None
        }
    } else {
        Some(module_of_path(&stem))
    }
}

/// The start of the last segment depends only on what stands before `hi`.
proof fn lemma_segment_start_prefix(s: Seq<char>, r: Seq<char>, hi: int)
    requires
        0 <= hi <= r.len(),
        r.len() <= s.len(),
        s.subrange(0, r.len() as int) == r,
    ensures
        segment_start(s, hi) == segment_start(r, hi),
    decreases hi,
{
    if hi > 0 {
        assert(s.subrange(0, r.len() as int)[hi - 1] == s[hi - 1]);
        if s[hi - 1] != '/' {
            lemma_segment_start_prefix(s, r, hi - 1);
        }
    }
}

} // verus!
