//! Call-graph extraction over a language server: the wire protocol, the
//! request bookkeeping and the graph construction, without any I/O.

pub mod attribution;
pub mod builder;
pub mod call_graph;
pub mod cli;
pub mod code_analysis;
pub mod codec;
pub mod dot;
pub mod entry;
pub mod factory;
pub mod framed;
pub mod framing;
pub mod impl_header;
pub mod json;
pub mod lsp;
pub mod message;
pub mod modules;
pub mod order;
pub mod owner;
pub mod quoting;
pub mod symbols;
pub mod text;
pub mod walk;
