//! Writing a call graph in the DOT language: one cluster per group, the
//! groups in ascending order, then the edges.

use crate::call_graph::{CallGraph, EdgeView, GraphView, NodeView};
use crate::lsp::texts;
use crate::order::{
    lemma_text_before_total, lemma_text_before_transitive, str_before, str_eq, text_before,
};
use crate::text::{chars_of, decimal, push_char, push_decimal};
use vstd::prelude::*;

verus! {

/// One character as it stands inside a quoted DOT string: a backslash before
/// a backslash and before a quote, and `\n` for a line feed.
pub open spec fn escaped_char(c: char) -> Seq<char> {
    if c == '\\' {
        seq!['\\', '\\']
    } else if c == '"' {
        seq!['\\', '"']
    } else if c == '\n' {
        seq!['\\', 'n']
    } else {
        seq![c]
    }
}

/// A text as it stands inside a quoted DOT string.
pub open spec fn escaped(s: Seq<char>) -> Seq<char>
    decreases s.len(),
{
    if s.len() == 0 {
        Seq::empty()
    } else {
        escaped(s.drop_last()) + escaped_char(s.last())
    }
}

fn push_escaped(out: &mut String, value: &str)
    ensures
        final(out)@ == old(out)@ + escaped(value@),
{
    let chars = chars_of(value);
    let mut i: usize = 0;
    assert(chars@.take(0) =~= Seq::<char>::empty());
    assert(out@ + Seq::<char>::empty() =~= out@);
    while i < chars.len()
        invariant
            i <= chars.len(),
            chars@ == value@,
            out@ == old(out)@ + escaped(chars@.take(i as int)),
        decreases chars.len() - i,
    {
        let c = chars[i];
        let ghost before = out@;
        if c == '\\' {
            push_char(out, '\\');
            push_char(out, '\\');
        } else if c == '"' {
            push_char(out, '\\');
            push_char(out, '"');
        } else if c == '\n' {
            push_char(out, '\\');
            push_char(out, 'n');
        } else {
            push_char(out, c);
        }
        proof {
            let next = chars@.take(i + 1);
            assert(next.drop_last() =~= chars@.take(i as int));
            assert(next.last() == c);
            assert(out@ =~= before + escaped_char(c));
            assert(old(out)@ + escaped(next) =~= (old(out)@ + escaped(chars@.take(i as int)))
                + escaped_char(c));
        }
        i = i + 1;
    }
    assert(chars@.take(i as int) =~= chars@);
}

/// Escapes a text for a quoted DOT string.
pub fn escape_dot(value: &str) -> (r: String)
    ensures
        r@ == escaped(value@),
{
    let mut r = String::new();
    push_escaped(&mut r, value);
    assert(Seq::<char>::empty() + escaped(value@) =~= escaped(value@));
    r
}

/// The first place at or after `from` whose name does not come before `g`.
pub open spec fn insert_rank(list: Seq<Seq<char>>, g: Seq<char>, from: int) -> int
    decreases list.len() - from,
{
    if from < 0 || from >= list.len() {
        list.len() as int
    } else if !text_before(list[from], g) {
        from
    } else {
        insert_rank(list, g, from + 1)
    }
}

/// An ascending list of names with `g` among them: `g` goes in at its place
/// unless it stands there already.
pub open spec fn with_group(list: Seq<Seq<char>>, g: Seq<char>) -> Seq<Seq<char>> {
    let p = insert_rank(list, g, 0);
    if p < list.len() && list[p] == g {
        list
    } else {
        list.insert(p, g)
    }
}

/// The groups of the first `upto` nodes: each once, in ascending order.
pub open spec fn group_names(nodes: Seq<NodeView>, upto: int) -> Seq<Seq<char>>
    decreases upto,
{
    if upto <= 0 {
        Seq::empty()
    } else {
        with_group(group_names(nodes, upto - 1), nodes[upto - 1].group)
    }
}

/// Names in strictly ascending order.
pub open spec fn names_sorted(list: Seq<Seq<char>>) -> bool {
    forall|i: int, j: int| 0 <= i < j < list.len() ==> text_before(#[trigger] list[i], #[trigger] list[j])
}

proof fn lemma_insert_rank(list: Seq<Seq<char>>, g: Seq<char>, from: int)
    requires
        0 <= from <= list.len(),
    ensures
        from <= insert_rank(list, g, from) <= list.len(),
        forall|k: int| from <= k < insert_rank(list, g, from) ==> text_before(#[trigger] list[k], g),
        insert_rank(list, g, from) < list.len() ==> !text_before(
            list[insert_rank(list, g, from)],
            g,
        ),
    decreases list.len() - from,
{
    if from < list.len() && text_before(list[from], g) {
        lemma_insert_rank(list, g, from + 1);
    }
}

/// Putting a name into an ascending list keeps the list ascending, keeps what
/// was in it, and adds nothing but the name.
pub proof fn lemma_with_group(list: Seq<Seq<char>>, g: Seq<char>)
    requires
        names_sorted(list),
    ensures
        names_sorted(with_group(list, g)),
        forall|x: Seq<char>| with_group(list, g).contains(x) <==> (list.contains(x) || x == g),
{
    let p = insert_rank(list, g, 0);
    lemma_insert_rank(list, g, 0);
    let r = with_group(list, g);
    if p < list.len() && list[p] == g {
        assert(list.contains(g));
    } else {
        assert forall|k: int| p <= k < list.len() implies text_before(g, #[trigger] list[k]) by {
            lemma_text_before_total(g, list[p]);
            if k > p {
                assert(text_before(list[p], list[k]));
                lemma_text_before_transitive(g, list[p], list[k]);
            }
        }
        assert forall|i: int, j: int| 0 <= i < j < r.len() implies text_before(
            #[trigger] r[i],
            #[trigger] r[j],
        ) by {
            if j < p {
                assert(text_before(list[i], list[j]));
            } else if j == p {
                assert(r[i] == list[i]);
            } else if i < p {
                assert(r[j] == list[j - 1]);
                assert(text_before(list[i], list[j - 1]));
            } else if i == p {
                assert(r[j] == list[j - 1]);
            } else {
                assert(r[i] == list[i - 1]);
                assert(r[j] == list[j - 1]);
                assert(text_before(list[i - 1], list[j - 1]));
            }
        }
        assert forall|x: Seq<char>| r.contains(x) <==> (list.contains(x) || x == g) by {
            if r.contains(x) {
                let k = choose|k: int| 0 <= k < r.len() && r[k] == x;
                if k < p {
                    assert(list[k] == x);
                } else if k > p {
                    assert(list[k - 1] == x);
                }
            }
            if list.contains(x) {
                let k = choose|k: int| 0 <= k < list.len() && list[k] == x;
                if k < p {
                    assert(r[k] == x);
                } else {
                    assert(r[k + 1] == x);
                }
            }
            if x == g {
                assert(r[p] == x);
            }
        }
    }
}

/// The clusters come in ascending order of their groups, one cluster for
/// every group that a node has and for no other.
pub proof fn lemma_group_names(nodes: Seq<NodeView>, upto: int)
    requires
        0 <= upto <= nodes.len(),
    ensures
        names_sorted(group_names(nodes, upto)),
        forall|x: Seq<char>|
            group_names(nodes, upto).contains(x) <==> exists|i: int|
                0 <= i < upto && (#[trigger] nodes[i]).group == x,
    decreases upto,
{
    if upto > 0 {
        lemma_group_names(nodes, upto - 1);
        let before = group_names(nodes, upto - 1);
        let g = nodes[upto - 1].group;
        lemma_with_group(before, g);
        let after = group_names(nodes, upto);
        assert forall|x: Seq<char>|
            after.contains(x) <==> exists|i: int|
                0 <= i < upto && (#[trigger] nodes[i]).group == x by {
            let earlier = exists|i: int| 0 <= i < upto - 1 && (#[trigger] nodes[i]).group == x;
            assert(before.contains(x) <==> earlier);
            assert(after.contains(x) <==> (before.contains(x) || x == g));
            if after.contains(x) {
                if earlier {
                    let i = choose|i: int| 0 <= i < upto - 1 && (#[trigger] nodes[i]).group == x;
                    assert(0 <= i < upto && nodes[i].group == x);
                } else {
                    assert(0 <= upto - 1 < upto && nodes[upto - 1].group == x);
                }
            }
            if exists|i: int| 0 <= i < upto && (#[trigger] nodes[i]).group == x {
                let i = choose|i: int| 0 <= i < upto && (#[trigger] nodes[i]).group == x;
                if i < upto - 1 {
                    assert(0 <= i < upto - 1 && nodes[i].group == x);
                    assert(earlier);
                }
            }
        }
    } else {
        assert forall|x: Seq<char>| !group_names(nodes, upto).contains(x) by {}
    }
}

/// The line of one node.
pub open spec fn node_line(n: NodeView) -> Seq<char> {
    "    \""@ + escaped(n.id) + "\" [label=\""@ + escaped(n.label) + "\"];\n"@
}

/// The lines of the nodes of `group` among the first `upto` nodes, in the
/// order of the node list.
pub open spec fn node_lines(nodes: Seq<NodeView>, group: Seq<char>, upto: int) -> Seq<char>
    decreases upto,
{
    if upto <= 0 {
        Seq::empty()
    } else if nodes[upto - 1].group == group {
        node_lines(nodes, group, upto - 1) + node_line(nodes[upto - 1])
    } else {
        node_lines(nodes, group, upto - 1)
    }
}

/// The cluster number `index`, for `group`.
pub open spec fn cluster_text(nodes: Seq<NodeView>, group: Seq<char>, index: nat) -> Seq<char> {
    "  subgraph \"cluster_"@ + decimal(index) + "\" {\n"@ + "    label=\""@ + escaped(group)
        + "\";\n"@ + "    color=lightgray;\n"@ + node_lines(nodes, group, nodes.len() as int)
        + "  }\n"@
}

/// The first `upto` clusters.
pub open spec fn clusters_text(nodes: Seq<NodeView>, groups: Seq<Seq<char>>, upto: int) -> Seq<char>
    decreases upto,
{
    if upto <= 0 {
        Seq::empty()
    } else {
        clusters_text(nodes, groups, upto - 1) + cluster_text(
            nodes,
            groups[upto - 1],
            (upto - 1) as nat,
        )
    }
}

/// The line of one edge.
pub open spec fn edge_line(e: EdgeView) -> Seq<char> {
    "  \""@ + escaped(e.from) + "\" -> \""@ + escaped(e.to) + "\";\n"@
}

/// The lines of the first `upto` edges.
pub open spec fn edge_lines(edges: Seq<EdgeView>, upto: int) -> Seq<char>
    decreases upto,
{
    if upto <= 0 {
        Seq::empty()
    } else {
        edge_lines(edges, upto - 1) + edge_line(edges[upto - 1])
    }
}

/// A graph in the DOT language: the header, the clusters in ascending order
/// of their groups, the edges in the order of the edge list, the footer.
pub open spec fn dot_text(g: GraphView) -> Seq<char> {
    let groups = group_names(g.nodes, g.nodes.len() as int);
    "digraph callgraph {\n"@ + "  rankdir=LR;\n"@ + "  compound=true;\n"@ + clusters_text(
        g.nodes,
        groups,
        groups.len() as int,
    ) + edge_lines(g.edges, g.edges.len() as int) + "}\n"@
}

fn add_group(groups: &mut Vec<String>, group: &str)
    ensures
        texts(final(groups)@) == with_group(texts(old(groups)@), group@),
{
    let ghost list = texts(groups@);
    let mut p: usize = 0;
    while p < groups.len() && str_before(groups[p].as_str(), group)
        invariant
            p <= groups.len(),
            groups@ == old(groups)@,
            list == texts(groups@),
            insert_rank(list, group@, 0) == insert_rank(list, group@, p as int),
        decreases groups.len() - p,
    {
        assert(list[p as int] == groups@[p as int]@);
        p = p + 1;
    }
    proof {
        if p < groups.len() {
            assert(list[p as int] == groups@[p as int]@);
        }
    }
    if p < groups.len() && str_eq(groups[p].as_str(), group) {
        return ;
    }
    groups.insert(p, String::from_str(group));
    assert(texts(groups@) =~= list.insert(p as int, group@));
}

fn push_node_lines(out: &mut String, graph: &CallGraph, group: &str)
    ensures
        final(out)@ == old(out)@ + node_lines(graph@.nodes, group@, graph@.nodes.len() as int),
{
    let ghost nodes = graph@.nodes;
    let mut i: usize = 0;
    assert(out@ + Seq::<char>::empty() =~= out@);
    while i < graph.nodes.len()
        invariant
            i <= graph.nodes.len(),
            nodes == graph@.nodes,
            out@ == old(out)@ + node_lines(nodes, group@, i as int),
        decreases graph.nodes.len() - i,
    {
        let node = &graph.nodes[i];
        assert(nodes[i as int] == node@);
        if str_eq(node.group.as_str(), group) {
            let ghost before = out@;
            out.append("    \"");
            push_escaped(out, node.id.as_str());
            out.append("\" [label=\"");
            push_escaped(out, node.label.as_str());
            out.append("\"];\n");
            assert(out@ =~= before + node_line(node@));
            assert(old(out)@ + node_lines(nodes, group@, i + 1) =~= (old(out)@ + node_lines(
                nodes,
                group@,
                i as int,
            )) + node_line(node@));
        }
        i = i + 1;
    }
}

fn push_cluster(out: &mut String, graph: &CallGraph, group: &str, index: usize)
    ensures
        final(out)@ == old(out)@ + cluster_text(graph@.nodes, group@, index as nat),
{
    out.append("  subgraph \"cluster_");
    push_decimal(out, index as u64);
    out.append("\" {\n");
    out.append("    label=\"");
    push_escaped(out, group);
    out.append("\";\n");
    out.append("    color=lightgray;\n");
    push_node_lines(out, graph, group);
    out.append("  }\n");
    assert(out@ =~= old(out)@ + cluster_text(graph@.nodes, group@, index as nat));
}

/// Writes a call graph in the DOT language.
pub fn to_dot(graph: &CallGraph) -> (out: String)
    ensures
        out@ == dot_text(graph@),
{
    let ghost nodes = graph@.nodes;
    let ghost edges = graph@.edges;
    let mut groups: Vec<String> = Vec::new();
    let mut i: usize = 0;
    assert(texts(groups@) =~= group_names(nodes, 0));
    while i < graph.nodes.len()
        invariant
            i <= graph.nodes.len(),
            nodes == graph@.nodes,
            texts(groups@) == group_names(nodes, i as int),
        decreases graph.nodes.len() - i,
    {
        assert(nodes[i as int] == graph.nodes@[i as int]@);
        add_group(&mut groups, graph.nodes[i].group.as_str());
        i = i + 1;
    }
    let ghost names = texts(groups@);
    let mut out = String::from_str("digraph callgraph {\n");
    out.append("  rankdir=LR;\n");
    out.append("  compound=true;\n");
    let ghost head = out@;
    let mut k: usize = 0;
    assert(out@ =~= head + clusters_text(nodes, names, 0));
    while k < groups.len()
        invariant
            k <= groups.len(),
            nodes == graph@.nodes,
            names == texts(groups@),
            out@ == head + clusters_text(nodes, names, k as int),
        decreases groups.len() - k,
    {
        assert(names[k as int] == groups@[k as int]@);
        push_cluster(&mut out, graph, groups[k].as_str(), k);
        assert(head + clusters_text(nodes, names, k + 1) =~= (head + clusters_text(
            nodes,
            names,
            k as int,
        )) + cluster_text(nodes, names[k as int], k as nat));
        k = k + 1;
    }
    let ghost body = out@;
    let mut j: usize = 0;
    assert(out@ =~= body + edge_lines(edges, 0));
    while j < graph.edges.len()
        invariant
            j <= graph.edges.len(),
            edges == graph@.edges,
            out@ == body + edge_lines(edges, j as int),
        decreases graph.edges.len() - j,
    {
        let edge = &graph.edges[j];
        assert(edges[j as int] == edge@);
        let ghost before = out@;
        out.append("  \"");
        push_escaped(&mut out, edge.from.as_str());
        out.append("\" -> \"");
        push_escaped(&mut out, edge.to.as_str());
        out.append("\";\n");
        assert(out@ =~= before + edge_line(edge@));
        assert(body + edge_lines(edges, j + 1) =~= (body + edge_lines(edges, j as int))
            + edge_line(edge@));
        j = j + 1;
    }
    out.append("}\n");
    assert(out@ =~= dot_text(graph@));
    out
}

} // verus!
