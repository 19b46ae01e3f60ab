use vstd::prelude::*;

verus! {

/// Token delineating a pipe between two commands.
pub const OP_PIPE: char = '|';

/// Token delineating file redirection.
pub const OP_REDIR: char = '>';

/// Token delineating command separation.
pub const OP_SEP: char = ';';

/// Token at the end of a line that continues the command on the next line.
pub const OP_CONTINUE: char = '\\';

/// The default shell prompt character.
pub const SHELL_PROMPT: &'static str = "❯";

/// File name of the configuration file, looked up in the home directory.
pub const DEF_CONFIG_FNAME: &'static str = ".ensh_config";

} // verus!
