//! A small interactive command shell: the decisions it makes on each line
//! (continuation, tokenizing, built-ins, binary lookup, path expansion) and
//! the state it keeps between lines.
//!
//! The driving program performs what only the operating system can do
//! (reading the terminal, changing the process's directory, spawning
//! children) and hands the outcome back to this library.

pub mod consts;
pub mod interface;
pub mod parser;
pub mod text;
pub mod config;
pub mod shell;
pub mod cmd_dispatch;

use vstd::prelude::*;

use crate::config::lines_of;
use crate::consts::DEF_CONFIG_FNAME;
use crate::parser::{expand_path, expand_spec, home_view, PathError};
use crate::shell::{select, Shell};

verus! {

/// The arguments given on the command line.
pub struct Args {
    config_file_path: Option<String>,
}

/// The configuration file looked for when none is given: the default file
/// name in the home directory.
pub open spec fn default_config_path() -> Seq<char> {
    seq!['~', '/'] + DEF_CONFIG_FNAME@
}

impl Args {
    /// The configuration file named on the command line, if any.
    pub closed spec fn config_file(&self) -> Option<Seq<char>> {
        match self.config_file_path {
            Some(s) => Some(s@),
            None => None,
        }
    }

    /// Arguments that name the configuration file `args`, or none.
    pub fn new(args: Option<String>) -> (r: Args)
        ensures
            r.config_file() == match args {
                Some(s) => Some(s@),
                None => None::<Seq<char>>,
            },
    {
        Args { config_file_path: args }
    }

    /// The configuration file to read: the one given, else the default
    /// one, with `~` expanded.
    pub fn config_path(&self, home: Option<&str>) -> (r: Result<String, PathError>)
        ensures
            ({
                let given = match self.config_file() {
                    Some(p) => p,
                    None => default_config_path(),
                };
                match r {
                    Ok(s) => expand_spec(given, home_view(home)) == Ok::<Seq<char>, PathError>(s@),
                    Err(e) => expand_spec(given, home_view(home)) == Err::<Seq<char>, PathError>(e),
                }
            }),
    {
        match &self.config_file_path {
            Some(s) => expand_path(s.as_str(), home),
            None => {
                let mut p = String::from_str("~/");
                p.append(DEF_CONFIG_FNAME);
                proof {
                    reveal_strlit("~/");
                    assert(p@ =~= default_config_path());
                }
                expand_path(p.as_str(), home)
            },
        }
    }
}

/// A new session in `/` whose search paths are the lines of the
/// configuration text that name something on the file system.
pub fn init_shell(config_text: &str) -> (r: Shell)
    ensures
        r.wf(),
        r@.cwd == "/"@,
        r@.history.len() == 0,
        r@.output_count == 0,
        exists|keep: Seq<bool>|
            keep.len() == lines_of(config_text@).len() && r@.paths == #[trigger] select(
                lines_of(config_text@),
                keep,
            ),
{
    let mut shell = Shell::default();
    shell.load_paths(config_text);
    shell
}

} // verus!
