//! What a run is asked to do: which workspace, which entry function, and
//! where the graph goes.

use crate::symbols::option_text;
use vstd::prelude::*;

verus! {

/// The settings of a run.
#[derive(Debug)]
pub struct Config {
    pub workspace: String,
    pub entry_function: String,
    pub output_path: String,
}

/// The arguments of a run as they were given; the workspace may be missing.
#[derive(Debug)]
pub struct Cli {
    workspace: Option<String>,
    pub entry_function: String,
    pub output_path: String,
}

/// The settings of a run, as mathematics.
pub struct ConfigView {
    pub workspace: Seq<char>,
    pub entry_function: Seq<char>,
    pub output_path: Seq<char>,
}

/// The arguments of a run, as mathematics.
pub struct CliView {
    pub workspace: Option<Seq<char>>,
    pub entry_function: Seq<char>,
    pub output_path: Seq<char>,
}

impl View for Config {
    type V = ConfigView;

    open spec fn view(&self) -> ConfigView {
        ConfigView {
            workspace: self.workspace@,
            entry_function: self.entry_function@,
            output_path: self.output_path@,
        }
    }
}

impl View for Cli {
    type V = CliView;

    closed spec fn view(&self) -> CliView {
        CliView {
            workspace: option_text(self.workspace),
            entry_function: self.entry_function@,
            output_path: self.output_path@,
        }
    }
}

impl Clone for Config {
    fn clone(&self) -> (r: Self)
        ensures
            r@ == self@,
    {
        Config {
            workspace: self.workspace.clone(),
            entry_function: self.entry_function.clone(),
            output_path: self.output_path.clone(),
        }
    }
}

/// The entry function where none is named.
pub open spec fn default_entry() -> Seq<char> {
    "main"@
}

/// The output path where none is named.
pub open spec fn default_output() -> Seq<char> {
    "callgraph.dot"@
}

/// The workspace where none is named and the current directory is unknown.
pub open spec fn default_workspace() -> Seq<char> {
    "."@
}

/// A text, or another where the first is missing.
pub open spec fn text_or(t: Option<Seq<char>>, other: Seq<char>) -> Seq<char> {
    match t {
        Some(s) => s,
        None => other,
    }
}

impl Cli {
    /// The arguments of a run; the entry function and the output path take
    /// their defaults where they are missing.
    pub fn new(
        workspace: Option<String>,
        entry_function: Option<String>,
        output_path: Option<String>,
    ) -> (c: Self)
        ensures
            c@ == (CliView {
                workspace: option_text(workspace),
                entry_function: text_or(option_text(entry_function), default_entry()),
                output_path: text_or(option_text(output_path), default_output()),
            }),
    {
        Cli {
            workspace,
            entry_function: match entry_function {
                Some(e) => e,
                None => String::from_str("main"),
            },
            output_path: match output_path {
                Some(o) => o,
                None => String::from_str("callgraph.dot"),
            },
        }
    }

    /// The settings that the arguments stand for. A missing workspace is the
    /// current directory, or `.` where that is unknown too.
    pub fn into_config(self, current_dir: Option<String>) -> (c: Config)
        ensures
            c@ == (ConfigView {
                workspace: text_or(
                    self@.workspace,
                    text_or(option_text(current_dir), default_workspace()),
                ),
                entry_function: self@.entry_function,
                output_path: self@.output_path,
            }),
    {
        Config {
            workspace: match self.workspace {
                Some(w) => w,
                None => match current_dir {
                    Some(d) => d,
                    None => String::from_str("."),
                },
            },
            entry_function: self.entry_function,
            output_path: self.output_path,
        }
    }
}

} // verus!
