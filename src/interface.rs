use vstd::prelude::*;

use crate::consts::OP_CONTINUE;
use crate::text::{str_eq, trim, trimmed};

verus! {

/// Whether a line, with surrounding whitespace already removed, asks for
/// the command to continue on the next line.
pub open spec fn continues(line: Seq<char>) -> bool {
    line.len() > 0 && line.last() == OP_CONTINUE
}

/// Given some input line, computes whether input should continue on the
/// next line: it does when the line ends with the continuation token.
pub fn should_cont_input(curr_input: &str) -> (r: bool)
    ensures
        r == continues(curr_input@),
{
    let n = curr_input.unicode_len();
    n > 0 && curr_input.get_char(n - 1) == OP_CONTINUE
}


/// Adds one line of input, with surrounding whitespace already removed, to
/// the command being assembled. A line that ends with the continuation
/// token adds what precedes the token, and more lines are needed; any
/// other line adds itself and completes the command. Returns whether more
/// lines are needed.
pub fn add_fragment(input: &mut String, line: &str) -> (r: bool)
    ensures
        r == continues(line@),
        r ==> final(input)@ == old(input)@ + line@.drop_last(),
        !r ==> final(input)@ == old(input)@ + line@,
{
    if should_cont_input(line) {
        let n = line.unicode_len();
        input.append(line.substring_char(0, n - 1));
        assert(line@.subrange(0, n - 1) =~= line@.drop_last());
        true
    } else {
        input.append(line);
        false
    }
}

/// Adds one line as read from the terminal to the command being
/// assembled, after removing the whitespace around it (the newline among
/// it). Returns whether more lines are needed.
pub fn append_line(input: &mut String, line: &str) -> (r: bool)
    ensures
        r == continues(trimmed(line@)),
        r ==> final(input)@ == old(input)@ + trimmed(line@).drop_last(),
        !r ==> final(input)@ == old(input)@ + trimmed(line@),
{
    let t = trim(line);
    add_fragment(input, t.as_str())
}

/// The prompt shown before each command: the working directory in
/// parentheses on one line, then the prompt string and a space.
pub fn shell_prompt(prompt: &str, working_dir: &str) -> (r: String)
    ensures
        r@ == seq!['('] + working_dir@ + seq![')', '\n'] + prompt@ + seq![' '],
{
    proof {
        reveal_strlit("(");
        reveal_strlit(")\n");
        reveal_strlit(" ");
    }
    let mut r = String::from_str("(");
    r.append(working_dir);
    r.append(")\n");
    r.append(prompt);
    r.append(" ");
    assert(r@ =~= seq!['('] + working_dir@ + seq![')', '\n'] + prompt@ + seq![' ']);
    r
}

/// Whether a complete command line asks the shell to end.
pub fn is_exit(input: &str) -> (r: bool)
    ensures
        r == (input@ == "exit"@),
{
    str_eq(input, "exit")
}

} // verus!
