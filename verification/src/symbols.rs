//! Located declarations as the server reports them, the workspace boundary,
//! and the identifier under which a declaration enters the graph.

use crate::text::{all_digits, decimal, digits_value, is_digit, lemma_decimal_round_trip, push_decimal};
use vstd::prelude::*;

verus! {

/// What kind of declaration a symbol is, as far as the graph cares.
#[derive(Clone, Copy, Debug, PartialEq, Eq, Structural)]
pub enum SymbolKind {
    Function,
    Method,
    Struct,
    Other,
}

/// The protocol's number for a function.
pub const KIND_FUNCTION: i64 = 12;

/// The protocol's number for a method.
pub const KIND_METHOD: i64 = 6;

/// The protocol's number for a struct.
pub const KIND_STRUCT: i64 = 23;

impl SymbolKind {
    /// The kind that the protocol's number stands for.
    pub open spec fn of_code(code: int) -> SymbolKind {
        if code == KIND_FUNCTION {
            SymbolKind::Function
        } else if code == KIND_METHOD {
            SymbolKind::Method
        } else if code == KIND_STRUCT {
            SymbolKind::Struct
        } else {
            SymbolKind::Other
        }
    }

    /// Reads the protocol's number for a kind.
    pub fn from_code(code: i64) -> (k: SymbolKind)
        ensures
            k == Self::of_code(code as int),
    {
        if code == KIND_FUNCTION {
            SymbolKind::Function
        } else if code == KIND_METHOD {
            SymbolKind::Method
        } else if code == KIND_STRUCT {
            SymbolKind::Struct
        } else {
            SymbolKind::Other
        }
    }
}

/// A located declaration.
#[derive(Debug)]
pub struct SymbolRef {
    /// The file, as a URI.
    pub uri: String,
    /// Line of the start position, from zero.
    pub line: u32,
    /// Column of the start position, from zero.
    pub column: u32,
    pub name: String,
    pub kind: Option<SymbolKind>,
    /// The name of the enclosing scope, where the server gives one.
    pub container: Option<String>,
    /// A description such as the header of the `impl` block.
    pub detail: Option<String>,
}

/// A symbol as the server lists it: where it is declared, its name, the
/// protocol's number for its kind, and the enclosing scope where the server
/// names one.
#[derive(Debug)]
pub struct SymbolRecord {
    pub uri: String,
    pub line: u32,
    pub column: u32,
    pub name: String,
    /// The protocol's number for the kind of the symbol.
    pub kind: i64,
    pub container: Option<String>,
}

/// A callable that the call hierarchy can be asked about: where it is, and
/// the server's own record of it, which is sent back unchanged when its
/// callees are requested.
#[derive(Debug)]
pub struct CallHierarchyNode {
    pub uri: String,
    pub line: u32,
    pub column: u32,
    pub name: String,
    pub detail: Option<String>,
    /// The server's record of the item: its JSON text, character for
    /// character as it came.
    pub payload: String,
}

/// A located declaration, as mathematics.
pub struct SymbolView {
    pub uri: Seq<char>,
    pub line: u32,
    pub column: u32,
    pub name: Seq<char>,
    pub kind: Option<SymbolKind>,
    pub container: Option<Seq<char>>,
    pub detail: Option<Seq<char>>,
}

/// A listed symbol, as mathematics.
pub struct RecordView {
    pub uri: Seq<char>,
    pub line: u32,
    pub column: u32,
    pub name: Seq<char>,
    pub kind: i64,
    pub container: Option<Seq<char>>,
}

/// A call-hierarchy node, as mathematics.
pub struct HierarchyNodeView {
    pub uri: Seq<char>,
    pub line: u32,
    pub column: u32,
    pub name: Seq<char>,
    pub detail: Option<Seq<char>>,
    pub payload: Seq<char>,
}

/// The characters of an optional text.
pub open spec fn option_text(t: Option<String>) -> Option<Seq<char>> {
    match t {
        Some(s) => Some(s@),
        None => None,
    }
}

impl View for SymbolRef {
    type V = SymbolView;

    open spec fn view(&self) -> SymbolView {
        SymbolView {
            uri: self.uri@,
            line: self.line,
            column: self.column,
            name: self.name@,
            kind: self.kind,
            container: option_text(self.container),
            detail: option_text(self.detail),
        }
    }
}

impl View for SymbolRecord {
    type V = RecordView;

    open spec fn view(&self) -> RecordView {
        RecordView {
            uri: self.uri@,
            line: self.line,
            column: self.column,
            name: self.name@,
            kind: self.kind,
            container: option_text(self.container),
        }
    }
}

impl View for CallHierarchyNode {
    type V = HierarchyNodeView;

    open spec fn view(&self) -> HierarchyNodeView {
        HierarchyNodeView {
            uri: self.uri@,
            line: self.line,
            column: self.column,
            name: self.name@,
            detail: option_text(self.detail),
            payload: self.payload@,
        }
    }
}

/// The views of a list of symbols.
pub open spec fn symbol_views(v: Seq<SymbolRef>) -> Seq<SymbolView> {
    Seq::new(v.len(), |i: int| v[i]@)
}

/// The views of a list of listed symbols.
pub open spec fn record_views(v: Seq<SymbolRecord>) -> Seq<RecordView> {
    Seq::new(v.len(), |i: int| v[i]@)
}

/// The views of a list of call-hierarchy nodes.
pub open spec fn node_views(v: Seq<CallHierarchyNode>) -> Seq<HierarchyNodeView> {
    Seq::new(v.len(), |i: int| v[i]@)
}

/// A copy of an optional text.
pub fn clone_option_text(t: &Option<String>) -> (r: Option<String>)
    ensures
        option_text(r) == option_text(*t),
{
    match t {
        Some(s) => Some(s.clone()),
        None => None,
    }
}

impl Clone for SymbolRef {
    fn clone(&self) -> (r: Self)
        ensures
            r@ == self@,
    {
        SymbolRef {
            uri: self.uri.clone(),
            line: self.line,
            column: self.column,
            name: self.name.clone(),
            kind: self.kind,
            container: clone_option_text(&self.container),
            detail: clone_option_text(&self.detail),
        }
    }
}

impl Clone for CallHierarchyNode {
    fn clone(&self) -> (r: Self)
        ensures
            r@ == self@,
    {
        CallHierarchyNode {
            uri: self.uri.clone(),
            line: self.line,
            column: self.column,
            name: self.name.clone(),
            detail: clone_option_text(&self.detail),
            payload: self.payload.clone(),
        }
    }
}

/// The declaration that a listed symbol stands for: the same place, name and
/// enclosing scope, the kind that the record's number stands for, and no
/// description.
pub open spec fn symbol_of_record(r: RecordView) -> SymbolView {
    SymbolView {
        uri: r.uri,
        line: r.line,
        column: r.column,
        name: r.name,
        kind: Some(SymbolKind::of_code(r.kind as int)),
        container: r.container,
        detail: None,
    }
}

/// The declarations that a list of listed symbols stands for, in its order.
pub open spec fn symbols_of_records(records: Seq<RecordView>) -> Seq<SymbolView> {
    Seq::new(records.len(), |i: int| symbol_of_record(records[i]))
}

/// Reads the listed symbols as declarations, each kind by its number.
pub fn symbols_from_records(records: Vec<SymbolRecord>) -> (symbols: Vec<SymbolRef>)
    ensures
        symbol_views(symbols@) == symbols_of_records(record_views(records@)),
{
    let ghost want = symbols_of_records(record_views(records@));
    let mut symbols: Vec<SymbolRef> = Vec::new();
    let mut i: usize = 0;
    while i < records.len()
        invariant
            i <= records.len(),
            want == symbols_of_records(record_views(records@)),
            symbols@.len() == i,
            forall|k: int| 0 <= k < i ==> (#[trigger] symbols@[k])@ == want[k],
        decreases records.len() - i,
    {
        let symbol = SymbolRef::from_record(&records[i]);
        symbols.push(symbol);
        i = i + 1;
    }
    assert(symbol_views(symbols@) =~= want);
    symbols
}

impl SymbolRef {
    /// Reads a listed symbol as a declaration.
    pub fn from_record(record: &SymbolRecord) -> (s: Self)
        ensures
            s@ == symbol_of_record(record@),
    {
        SymbolRef {
            uri: record.uri.clone(),
            line: record.line,
            column: record.column,
            name: record.name.clone(),
            kind: Some(SymbolKind::from_code(record.kind)),
            container: clone_option_text(&record.container),
            detail: None,
        }
    }

    /// Whether the symbol is a function or a method.
    pub open spec fn callable(s: SymbolView) -> bool {
        s.kind == Some(SymbolKind::Function) || s.kind == Some(SymbolKind::Method)
    }

    /// Whether the symbol is a function or a method.
    pub fn is_callable(&self) -> (b: bool)
        ensures
            b == Self::callable(self@),
    {
        match self.kind {
            Some(SymbolKind::Function) => true,
            Some(SymbolKind::Method) => true,
            _ => false,
        }
    }
}

/// Whether the file `uri` lies inside the workspace rooted at `root`: it is
/// the root itself, or its text goes on after the root with a path separator.
pub open spec fn in_workspace(root: Seq<char>, uri: Seq<char>) -> bool {
    &&& root.len() <= uri.len()
    &&& uri.subrange(0, root.len() as int) == root
    &&& (uri.len() == root.len() || (root.len() > 0 && root.last() == '/') || uri[root.len() as int]
        == '/')
}

/// Tests whether a file lies inside the workspace.
pub fn is_in_workspace(root: &Vec<char>, uri: &Vec<char>) -> (b: bool)
    ensures
        b == in_workspace(root@, uri@),
{
    if root.len() > uri.len() {
        return false;
    }
    let mut i: usize = 0;
    while i < root.len()
        invariant
            i <= root.len() <= uri.len(),
            forall|j: int| 0 <= j < i ==> uri@[j] == root@[j],
        decreases root.len() - i,
    {
        if uri[i] != root[i] {
            proof {
                let sub = uri@.subrange(0, root.len() as int);
                assert(sub[i as int] == uri@[i as int]);
            }
            return false;
        }
        i = i + 1;
    }
    assert(uri@.subrange(0, root.len() as int) =~= root@);
    uri.len() == root.len() || (root.len() > 0 && root[root.len() - 1] == '/') || uri[root.len()]
        == '/'
}

/// The identifier of a declaration in the graph: file, line, column and name,
/// separated by colons.
pub open spec fn node_id(uri: Seq<char>, line: u32, column: u32, name: Seq<char>) -> Seq<char> {
    uri + seq![':'] + decimal(line as nat) + seq![':'] + decimal(column as nat) + seq![':'] + name
}

/// Builds the identifier of a declaration.
pub fn make_node_id(uri: &str, line: u32, column: u32, name: &str) -> (id: String)
    ensures
        id@ == node_id(uri@, line, column, name@),
{
    proof {
        reveal_strlit(":");
    }
    assert(":"@ =~= seq![':']);
    let mut id = String::from_str(uri);
    id.append(":");
    push_decimal(&mut id, line as u64);
    id.append(":");
    push_decimal(&mut id, column as u64);
    id.append(":");
    id.append(name);
    id
}

impl CallHierarchyNode {
    /// The identifier under which the node enters the graph.
    pub open spec fn id_of(n: HierarchyNodeView) -> Seq<char> {
        node_id(n.uri, n.line, n.column, n.name)
    }

    /// The identifier under which the node enters the graph.
    pub fn id(&self) -> (id: String)
        ensures
            id@ == Self::id_of(self@),
    {
        make_node_id(self.uri.as_str(), self.line, self.column, self.name.as_str())
    }
}

/// A text that ends in a colon and a numeral is split there in one way only.
proof fn lemma_split_at_numeral(x: Seq<char>, a: Seq<char>, y: Seq<char>, b: Seq<char>)
    requires
        all_digits(a),
        all_digits(b),
        x + seq![':'] + a == y + seq![':'] + b,
    ensures
        x == y,
        a == b,
{
    let s = x + seq![':'] + a;
    let t = y + seq![':'] + b;
    assert(s.len() == x.len() + 1 + a.len());
    assert(t.len() == y.len() + 1 + b.len());
    if a.len() < b.len() {
        let k = s.len() - a.len() - 1;
        assert(s[k] == ':');
        assert(t[k] == b[k - y.len() - 1]);
        assert(is_digit(b[k - y.len() - 1]));
    }
    if b.len() < a.len() {
        let k = t.len() - b.len() - 1;
        assert(t[k] == ':');
        assert(s[k] == a[k - x.len() - 1]);
        assert(is_digit(a[k - x.len() - 1]));
    }
    assert(a =~= b) by {
        assert forall|i: int| 0 <= i < a.len() implies a[i] == b[i] by {
            assert(s[x.len() + 1 + i] == a[i]);
            assert(t[y.len() + 1 + i] == b[i]);
        }
    }
    assert(x =~= y) by {
        assert forall|i: int| 0 <= i < x.len() implies x[i] == y[i] by {
            assert(s[i] == x[i]);
            assert(t[i] == y[i]);
        }
    }
}

/// Two declarations with the same name never share an identifier unless they
/// are the same declaration: same file, same line, same column.
pub proof fn lemma_node_id_tells_places_apart(
    uri1: Seq<char>,
    line1: u32,
    column1: u32,
    uri2: Seq<char>,
    line2: u32,
    column2: u32,
    name: Seq<char>,
)
    requires
        node_id(uri1, line1, column1, name) == node_id(uri2, line2, column2, name),
    ensures
        uri1 == uri2,
        line1 == line2,
        column1 == column2,
{
    let colon = seq![':'];
    let place1 = uri1 + colon + decimal(line1 as nat) + colon + decimal(column1 as nat);
    let place2 = uri2 + colon + decimal(line2 as nat) + colon + decimal(column2 as nat);
    let tail = colon + name;
    let s1 = node_id(uri1, line1, column1, name);
    let s2 = node_id(uri2, line2, column2, name);
    assert(s1 =~= place1 + tail);
    assert(s2 =~= place2 + tail);
    assert(place1 =~= place2) by {
        assert(place1.len() == s1.len() - tail.len());
        assert(place2.len() == s2.len() - tail.len());
        assert forall|i: int| 0 <= i < place1.len() implies place1[i] == place2[i] by {
            assert((place1 + tail)[i] == place1[i]);
            assert((place2 + tail)[i] == place2[i]);
        }
    }
    lemma_decimal_round_trip(line1 as nat);
    lemma_decimal_round_trip(line2 as nat);
    lemma_decimal_round_trip(column1 as nat);
    lemma_decimal_round_trip(column2 as nat);
    lemma_split_at_numeral(
        uri1 + colon + decimal(line1 as nat),
        decimal(column1 as nat),
        uri2 + colon + decimal(line2 as nat),
        decimal(column2 as nat),
    );
    lemma_split_at_numeral(uri1, decimal(line1 as nat), uri2, decimal(line2 as nat));
    assert(digits_value(decimal(line1 as nat)) == digits_value(decimal(line2 as nat)));
    assert(digits_value(decimal(column1 as nat)) == digits_value(decimal(column2 as nat)));
}

} // verus!
