//! What this crate takes on trust about JSON and URLs: reading a document,
//! looking up a member, reading a string or a number, decoding the three
//! kinds of answers that the graph is built from, and telling a URL.
//!
//! A JSON value is held as its text. Every function here is a call into
//! `serde_json` or `lsp_types` whose result depends on the text alone. The
//! contracts give those results names, and the rest of the crate is proved
//! against the names.

use crate::symbols::{
    node_views, option_text, record_views, CallHierarchyNode, HierarchyNodeView, RecordView,
    SymbolRecord,
};
use crate::text::has_at;
use serde_json::value::RawValue;
use std::collections::BTreeMap;
use vstd::prelude::*;

verus! {

/// Whether a text is a JSON document.
pub uninterp spec fn json_valid(doc: Seq<char>) -> bool;

/// The member `key` of the JSON object `doc`, as the text that it has in the
/// document; `None` where `doc` is no JSON document, no object, or has no
/// such member.
pub uninterp spec fn json_member_text(doc: Seq<char>, key: Seq<char>) -> Option<Seq<char>>;

/// The string that a JSON document is; `None` where it is not a string.
pub uninterp spec fn json_string_value(doc: Seq<char>) -> Option<Seq<char>>;

/// The number that a JSON document is, where it is an integer that fits
/// thirty-two bits with sign; `None` for anything else.
pub uninterp spec fn json_i32_value(doc: Seq<char>) -> Option<i32>;

/// The symbols that the result of a symbol search lists; `None` where the
/// document is no list of symbol records.
pub uninterp spec fn symbol_records_in(doc: Seq<char>) -> Option<Seq<RecordView>>;

/// The items that the result of a call-hierarchy preparation holds; `None`
/// where the document is no list of call-hierarchy items.
pub uninterp spec fn hierarchy_items_in(doc: Seq<char>) -> Option<Seq<HierarchyNodeView>>;

/// The callees that the result of an outgoing-calls request holds; `None`
/// where the document is no list of outgoing calls.
pub uninterp spec fn outgoing_calls_in(doc: Seq<char>) -> Option<Seq<HierarchyNodeView>>;

/// Whether a text is a URL.
pub uninterp spec fn url_valid(text: Seq<char>) -> bool;

/// Tests whether a text is a URL: `lsp_types::Url::parse` succeeds exactly on
/// those.
#[verifier::external_body]
pub(crate) fn is_url(text: &str) -> (b: bool)
    ensures
        b == url_valid(text@),
{
    lsp_types::Url::parse(text).is_ok()
}

/// The URL of the file or directory at an absolute path:
/// `lsp_types::Url::from_file_path`, written out by `as_str`. `None` where the
/// path is not absolute. The URL begins with `file://`; what follows depends
/// on the platform's form of paths, so nothing is claimed of it.
#[verifier::external_body]
pub(crate) fn file_url(path: &str) -> (r: Option<String>)
    ensures
        match r {
            Some(url) => has_at(url@, 0, "file://"@),
            None => true,
        },
{
    lsp_types::Url::from_file_path(path).ok().map(|url| url.as_str().to_string())
}

/// Tests whether a text is a JSON document: `serde_json::from_str` into a
/// `serde_json::Value` succeeds exactly on those.
#[verifier::external_body]
pub(crate) fn json_is_valid(doc: &str) -> (b: bool)
    ensures
        b == json_valid(doc@),
{
    serde_json::from_str::<serde_json::Value>(doc).is_ok()
}

/// Looks up a member of a JSON object: `serde_json::from_str` into a map
/// from member names to `RawValue`, which keeps the text of each member as
/// it stands in the document, and the map's `get`.
#[verifier::external_body]
pub(crate) fn json_member(doc: &str, key: &str) -> (r: Option<String>)
    ensures
        option_text(r) == json_member_text(doc@, key@),
{
    let members: BTreeMap<String, Box<RawValue>> = serde_json::from_str(doc).ok()?;
    members.get(key).map(|member| member.get().to_string())
}

/// Reads a JSON string: `serde_json::from_str` into a `String`.
#[verifier::external_body]
pub(crate) fn json_string(doc: &str) -> (r: Option<String>)
    ensures
        option_text(r) == json_string_value(doc@),
{
    serde_json::from_str::<String>(doc).ok()
}

/// Reads a JSON integer: `serde_json::from_str` into an `i32`.
#[verifier::external_body]
pub(crate) fn json_i32(doc: &str) -> (r: Option<i32>)
    ensures
        r == json_i32_value(doc@),
{
    serde_json::from_str::<i32>(doc).ok()
}

/// Decodes the result of a symbol search: `serde_json::from_str` into a list
/// of values, and `serde_json::from_value` of each into an
/// `lsp_types::SymbolInformation`, which is then copied field by field. The
/// position is the start of the symbol's location; the kind is the number
/// that the value's member `kind` holds. `None` where the document is no list
/// or one of its values is no symbol record.
#[verifier::external_body]
pub(crate) fn symbol_records_from_json(doc: &str) -> (r: Option<Vec<SymbolRecord>>)
    ensures
        match r {
            Some(v) => symbol_records_in(doc@) == Some(record_views(v@)),
            None => symbol_records_in(doc@) is None,
        },
{
    let values: Vec<serde_json::Value> = serde_json::from_str(doc).ok()?;
    values.into_iter().map(|v| {
        let s: lsp_types::SymbolInformation = serde_json::from_value(v.clone()).ok()?;
        Some(SymbolRecord {
            kind: v.get("kind")?.as_i64()?,
            uri: s.location.uri.to_string(),
            line: s.location.range.start.line,
            column: s.location.range.start.character,
            name: s.name,
            container: s.container_name,
        })
    }).collect()
}

/// Decodes the result of a call-hierarchy preparation: `serde_json::from_str`
/// into a list of `RawValue`, and `from_str` of the text of each into an
/// `lsp_types::CallHierarchyItem`, which is then copied field by field. The position is the start of the item's selection range; the
/// payload is the text of the item as it stands in the document. `None`
/// where the document is no list or one of its values is no item.
#[verifier::external_body]
pub(crate) fn hierarchy_items_from_json(doc: &str) -> (r: Option<Vec<CallHierarchyNode>>)
    ensures
        match r {
            Some(v) => hierarchy_items_in(doc@) == Some(node_views(v@)),
            None => hierarchy_items_in(doc@) is None,
        },
{
    let items: Vec<Box<RawValue>> = serde_json::from_str(doc).ok()?;
    items.into_iter().map(|raw| {
        let i: lsp_types::CallHierarchyItem = serde_json::from_str(raw.get()).ok()?;
        Some(CallHierarchyNode {
            payload: raw.get().to_string(),
            uri: i.uri.to_string(),
            line: i.selection_range.start.line,
            column: i.selection_range.start.character,
            name: i.name,
            detail: i.detail,
        })
    }).collect()
}

/// Decodes the result of an outgoing-calls request: `serde_json::from_str`
/// into a list of `RawValue`, and `from_str` of the text of each into an
/// `lsp_types::CallHierarchyOutgoingCall`, whose called item is then copied as
/// for a preparation. The payload is the text of the member `to` as it
/// stands in the document, looked up as a member is. `None` where the
/// document is no list or one of its values is no outgoing call.
#[verifier::external_body]
pub(crate) fn outgoing_calls_from_json(doc: &str) -> (r: Option<Vec<CallHierarchyNode>>)
    ensures
        match r {
            Some(v) => outgoing_calls_in(doc@) == Some(node_views(v@)),
            None => outgoing_calls_in(doc@) is None,
        },
{
    let calls: Vec<Box<RawValue>> = serde_json::from_str(doc).ok()?;
    calls.into_iter().map(|raw| {
        let c: lsp_types::CallHierarchyOutgoingCall = serde_json::from_str(raw.get()).ok()?;
        let members: BTreeMap<String, Box<RawValue>> = serde_json::from_str(raw.get()).ok()?;
        Some(CallHierarchyNode {
            payload: members.get("to")?.get().to_string(),
            uri: c.to.uri.to_string(),
            line: c.to.selection_range.start.line,
            column: c.to.selection_range.start.character,
            name: c.to.name,
            detail: c.to.detail,
        })
    }).collect()
}

} // verus!
