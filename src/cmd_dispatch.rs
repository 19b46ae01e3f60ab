use vstd::prelude::*;

use crate::parser::{expand_spec, home_view, is_absolute, norm_abs_path};
use crate::shell::Shell;
use crate::text::{str_eq, tokenize, views, words_of};

verus! {

/// What the driving program does for a command line once the shell has
/// decided on it.
pub enum Action {
    /// Nothing: the command failed before anything had to be done.
    Fail,
    /// Make the directory the process's working directory, then record
    /// the outcome with `Shell::change_working_dir`.
    ChangeDir(String),
    /// Run the program with the arguments, its standard streams those of
    /// the shell, and wait for it to end.
    Run { program: String, args: Vec<String> },
}

/// The word that names the built-in command which changes directory.
pub open spec fn cd_word() -> Seq<char> {
    "cd"@
}

/// What `cd` may decide for an argument: nothing, or a move to an
/// absolute path. It fails whenever the argument needs an unknown home
/// directory.
pub open spec fn cd_outcome(path: Seq<char>, home: Option<Seq<char>>, a: Action) -> bool {
    &&& a is Fail || (a matches Action::ChangeDir(p) && is_absolute(p@))
    &&& expand_spec(path, home) is Err ==> a is Fail
}

/// What running a binary may decide for the words of a command line:
/// nothing, or the first word as the program with the other words as its
/// arguments. Without words, or without search paths, it fails.
pub open spec fn run_outcome(
    words: Seq<Seq<char>>,
    paths: Seq<Seq<char>>,
    a: Action,
) -> bool {
    &&& a is Fail || (a matches Action::Run { program, args } && words.len() > 0 && program@
        == words[0] && views(args@) == words.skip(1))
    &&& (words.len() == 0 || paths.len() == 0) ==> a is Fail
}

/// Resolves `path` and decides to move there; fails, with nothing to do,
/// when the path cannot be resolved.
pub fn cd(path: &str, home: Option<&str>) -> (r: Action)
    ensures
        cd_outcome(path@, home_view(home), r),
{
    match norm_abs_path(path, home) {
        Ok(dir) => Action::ChangeDir(dir),
        Err(_) => Action::Fail,
    }
}

/// Decides on the words of a command line once it is known whether the
/// binary that the first word names was `found`: run it with the other
/// words as its arguments, or fail.
pub fn bin_action(words: Vec<String>, found: bool) -> (r: Action)
    ensures
        found && words@.len() > 0 ==> (r matches Action::Run { program, args } && program@
            == words@[0]@ && views(args@) == views(words@).skip(1)),
        !(found && words@.len() > 0) ==> r is Fail,
{
    let mut words = words;
    if found && words.len() > 0 {
        let ghost all = views(words@);
        let program = words.remove(0);
        assert(views(words@) =~= all.skip(1));
        Action::Run { program, args: words }
    } else {
        Action::Fail
    }
}

/// Decides to run the binary that the first word of `cmd` names, with the
/// other words as its arguments, when one of the shell's search paths
/// holds it; fails otherwise.
pub fn ex_bin(cmd: &str, shell: &Shell) -> (r: Action)
    ensures
        run_outcome(words_of(cmd@), shell@.paths, r),
{
    let words = tokenize(cmd);
    if words.len() == 0 {
        return Action::Fail;
    }
    let found = shell.find_bin(words[0].as_str());
    bin_action(words, found)
}

/// Decides what to do for a command line (ex: "cd ~") and records it in
/// the shell's history. `cd` with exactly one argument changes directory;
/// any other first word names a binary to run. A line without words, or
/// `cd` without exactly one argument, fails.
pub fn dispatch(shell: &mut Shell, cmd: &str, home: Option<&str>) -> (r: Action)
    ensures
        final(shell)@ == (crate::shell::ShellView {
            history: old(shell)@.history.push(cmd@),
            ..old(shell)@
        }),
        old(shell).wf() ==> final(shell).wf(),
        ({
            let w = words_of(cmd@);
            if w.len() > 0 && w[0] == cd_word() {
                if w.len() == 2 {
                    cd_outcome(w[1], home_view(home), r)
                } else {
                    r is Fail
                }
            } else {
                run_outcome(w, old(shell)@.paths, r)
            }
        }),
{
    shell.record_input(cmd);
    let words = tokenize(cmd);
    if words.len() > 0 && str_eq(words[0].as_str(), "cd") {
        if words.len() == 2 {
            cd(words[1].as_str(), home)
        } else {
            Action::Fail
        }
    } else {
        ex_bin(cmd, shell)
    }
}

} // verus!
