//! Attributing a call-hierarchy node to its logical owner: a type, a module,
//! or the global scope. Four sources are asked in turn and the first answer
//! is taken.

use crate::impl_header::{impl_target, impl_target_of};
use crate::modules::{module_group, module_group_of};
use crate::order::str_eq;
use crate::owner::{infer_owner, infer_owner_of};
use crate::symbols::{
    option_text, symbol_views, CallHierarchyNode, HierarchyNodeView, SymbolRef, SymbolView,
};
use crate::text::chars_of;
use vstd::prelude::*;

verus! {

/// The label and the cluster of a node.
#[derive(Debug)]
pub struct FunctionAttribution {
    pub qualified_label: String,
    pub group: String,
}

/// An attribution, as mathematics.
pub struct AttributionView {
    pub qualified_label: Seq<char>,
    pub group: Seq<char>,
}

impl View for FunctionAttribution {
    type V = AttributionView;

    open spec fn view(&self) -> AttributionView {
        AttributionView { qualified_label: self.qualified_label@, group: self.group@ }
    }
}

/// The text of a source file, for the nodes declared in it.
#[derive(Debug)]
pub struct SourceFile {
    pub uri: String,
    pub text: String,
}

/// A source file, as mathematics.
pub struct SourceView {
    pub uri: Seq<char>,
    pub text: Seq<char>,
}

impl View for SourceFile {
    type V = SourceView;

    open spec fn view(&self) -> SourceView {
        SourceView { uri: self.uri@, text: self.text@ }
    }
}

/// The views of a list of source files.
pub open spec fn source_views(v: Seq<SourceFile>) -> Seq<SourceView> {
    Seq::new(v.len(), |i: int| v[i]@)
}

/// The text of the first file among `sources[from..]` that has this URI.
pub open spec fn source_text(sources: Seq<SourceView>, uri: Seq<char>, from: int) -> Option<
    Seq<char>,
>
    decreases sources.len() - from,
{
    if from < 0 || from >= sources.len() {
        None
    } else if sources[from].uri == uri {
        Some(sources[from].text)
    } else {
        source_text(sources, uri, from + 1)
    }
}

/// Whether a symbol of the snapshot may be the declaration of a node: it has
/// the node's name and stands in the node's file.
pub open spec fn is_candidate(s: SymbolView, n: HierarchyNodeView) -> bool {
    s.name == n.name && s.uri == n.uri
}

/// How many lines lie between two line numbers.
pub open spec fn line_distance(a: u32, b: u32) -> int {
    if a >= b {
        a - b
    } else {
        b - a
    }
}

/// Whether symbol `a` is a strictly better match for a declaration on `line`
/// than symbol `b`: it is nearer, or as near and on the earlier line.
pub open spec fn closer(a: SymbolView, b: SymbolView, line: u32) -> bool {
    line_distance(a.line, line) < line_distance(b.line, line) || (line_distance(a.line, line)
        == line_distance(b.line, line) && a.line < b.line)
}

/// The best match for the node among the first `upto` symbols of the
/// snapshot: the candidate that no other candidate is closer than, and the
/// first of several that are equally close on the same line.
pub open spec fn closest(snapshot: Seq<SymbolView>, n: HierarchyNodeView, upto: int) -> Option<int>
    decreases upto,
{
    if upto <= 0 {
        None
    } else {
        let before = closest(snapshot, n, upto - 1);
        let i = upto - 1;
        if is_candidate(snapshot[i], n) && (before is None || closer(
            snapshot[i],
            snapshot[before->0],
            n.line,
        )) {
            Some(i)
        } else {
            before
        }
    }
}

/// What `closest` finds: a candidate where there is one; no candidate is
/// closer than it; and no earlier candidate is as close.
pub proof fn lemma_closest_is_best(snapshot: Seq<SymbolView>, n: HierarchyNodeView, upto: int)
    requires
        0 <= upto <= snapshot.len(),
    ensures
        match closest(snapshot, n, upto) {
            Some(b) => {
                &&& 0 <= b < upto
                &&& is_candidate(snapshot[b], n)
                &&& forall|j: int|
                    0 <= j < upto && is_candidate(#[trigger] snapshot[j], n) ==> !closer(
                        snapshot[j],
                        snapshot[b],
                        n.line,
                    )
                &&& forall|j: int|
                    0 <= j < b && is_candidate(#[trigger] snapshot[j], n) ==> closer(
                        snapshot[b],
                        snapshot[j],
                        n.line,
                    )
            },
            None => forall|j: int| 0 <= j < upto ==> !is_candidate(#[trigger] snapshot[j], n),
        },
    decreases upto,
{
    if upto > 0 {
        lemma_closest_is_best(snapshot, n, upto - 1);
    }
}

/// First source: the enclosing scope that the snapshot symbol nearest to the
/// node names, where it names one.
pub open spec fn snapshot_owner(snapshot: Seq<SymbolView>, n: HierarchyNodeView) -> Option<
    Seq<char>,
> {
    match closest(snapshot, n, snapshot.len() as int) {
        Some(i) => match snapshot[i].container {
            Some(c) => if c.len() > 0 {
                Some(c)
            } else {
                None
            },
            None => None,
        },
        None => None,
    }
}

/// Second source: the `impl` header that the node carries as its detail.
pub open spec fn detail_owner(n: HierarchyNodeView) -> Option<Seq<char>> {
    match n.detail {
        Some(d) => impl_target(d),
        None => None,
    }
}

/// Third source: the `impl` block around the node's line in its source file,
/// where the text of that file is at hand.
pub open spec fn source_owner(sources: Seq<SourceView>, n: HierarchyNodeView) -> Option<Seq<char>> {
    match source_text(sources, n.uri, 0) {
        Some(text) => infer_owner(text, n.line as nat),
        None => None,
    }
}

/// The owner of a node: the answer of the first source that has one, the
/// fourth being the module that the node's file stands for.
pub open spec fn owner_group(
    snapshot: Seq<SymbolView>,
    sources: Seq<SourceView>,
    root: Seq<char>,
    n: HierarchyNodeView,
) -> Option<Seq<char>> {
    if snapshot_owner(snapshot, n) is Some {
        snapshot_owner(snapshot, n)
    } else if detail_owner(n) is Some {
        detail_owner(n)
    } else if source_owner(sources, n) is Some {
        source_owner(sources, n)
    } else {
        module_group(root, n.uri)
    }
}

/// The cluster of nodes without an owner.
pub open spec fn global_group() -> Seq<char> {
    "global"@
}

/// The attribution of a node: its owner as the group and `owner::name` as the
/// label; without an owner, the group `global` and the bare name.
pub open spec fn attribution(
    snapshot: Seq<SymbolView>,
    sources: Seq<SourceView>,
    root: Seq<char>,
    n: HierarchyNodeView,
) -> AttributionView {
    match owner_group(snapshot, sources, root, n) {
        Some(g) => AttributionView { qualified_label: g + "::"@ + n.name, group: g },
        None => AttributionView { qualified_label: n.name, group: global_group() },
    }
}

/// Finds the snapshot symbol that matches the node best.
pub fn closest_symbol(snapshot: &Vec<SymbolRef>, node: &CallHierarchyNode) -> (r: Option<usize>)
    ensures
        match r {
            Some(i) => closest(symbol_views(snapshot@), node@, snapshot@.len() as int) == Some(
                i as int,
            ) && i < snapshot@.len(),
            None => closest(symbol_views(snapshot@), node@, snapshot@.len() as int) is None,
        },
{
    let ghost views = symbol_views(snapshot@);
    let mut best: Option<usize> = None;
    let mut i: usize = 0;
    while i < snapshot.len()
        invariant
            i <= snapshot.len(),
            views == symbol_views(snapshot@),
            match best {
                Some(b) => closest(views, node@, i as int) == Some(b as int) && b < i,
                None => closest(views, node@, i as int) is None,
            },
        decreases snapshot.len() - i,
    {
        let s = &snapshot[i];
        assert(views[i as int] == s@);
        let candidate = str_eq(s.name.as_str(), node.name.as_str()) && str_eq(
            s.uri.as_str(),
            node.uri.as_str(),
        );
        if candidate {
            let better = match best {
                None => true,
                Some(b) => {
                    let t = &snapshot[b];
                    assert(views[b as int] == t@);
                    let ds = if s.line >= node.line {
                        s.line - node.line
                    } else {
                        node.line - s.line
                    };
                    let dt = if t.line >= node.line {
                        t.line - node.line
                    } else {
                        node.line - t.line
                    };
                    ds < dt || (ds == dt && s.line < t.line)
                },
            };
            if better {
                best = Some(i);
            }
        }
        i = i + 1;
    }
    best
}

fn find_source<'a>(sources: &'a Vec<SourceFile>, uri: &str) -> (r: Option<&'a SourceFile>)
    ensures
        match r {
            Some(f) => source_text(source_views(sources@), uri@, 0) == Some(f.text@),
            None => source_text(source_views(sources@), uri@, 0) is None,
        },
{
    let ghost views = source_views(sources@);
    let mut i: usize = 0;
    while i < sources.len()
        invariant
            i <= sources.len(),
            views == source_views(sources@),
            source_text(views, uri@, 0) == source_text(views, uri@, i as int),
        decreases sources.len() - i,
    {
        assert(views[i as int] == sources@[i as int]@);
        if str_eq(sources[i].uri.as_str(), uri) {
            return Some(&sources[i]);
        }
        i = i + 1;
    }
    None
}

fn owner_of(
    node: &CallHierarchyNode,
    snapshot: &Vec<SymbolRef>,
    sources: &Vec<SourceFile>,
    root: &str,
) -> (r: Option<String>)
    ensures
        option_text(r) == owner_group(
            symbol_views(snapshot@),
            source_views(sources@),
            root@,
            node@,
        ),
{
    let ghost views = symbol_views(snapshot@);
    match closest_symbol(snapshot, node) {
        Some(i) => {
            assert(views[i as int] == snapshot@[i as int]@);
            match &snapshot[i].container {
                Some(c) => {
                    if c.as_str().unicode_len() > 0 {
                        return Some(c.clone());
                    }
                },
                None => {},
            }
        },
        None => {},
    }
    match &node.detail {
        Some(d) => {
            let chars = chars_of(d.as_str());
            match impl_target_of(&chars) {
                Some(t) => {
                    return Some(t);
                },
                None => {},
            }
        },
        None => {},
    }
    match find_source(sources, node.uri.as_str()) {
        Some(file) => {
            match infer_owner_of(file.text.as_str(), node.line) {
                Some(t) => {
                    return Some(t);
                },
                None => {},
            }
        },
        None => {},
    }
    let r = chars_of(root);
    let u = chars_of(node.uri.as_str());
    module_group_of(&r, &u)
}

/// Attributes a node to its owner: the enclosing scope that the snapshot
/// names, else the type of the `impl` header in the node's detail, else the
/// type of the `impl` block around it in its source, else the module of its
/// file, else the global scope.
pub fn attribute(
    node: &CallHierarchyNode,
    snapshot: &Vec<SymbolRef>,
    sources: &Vec<SourceFile>,
    root: &str,
) -> (r: FunctionAttribution)
    ensures
        r@ == attribution(symbol_views(snapshot@), source_views(sources@), root@, node@),
{
    match owner_of(node, snapshot, sources, root) {
        Some(group) => {
            let mut label = group.clone();
            label.append("::");
            label.append(node.name.as_str());
            FunctionAttribution { qualified_label: label, group }
        },
        None => FunctionAttribution {
            qualified_label: node.name.clone(),
            group: String::from_str("global"),
        },
    }
}

} // verus!
