use vstd::prelude::*;

use crate::text::views;

verus! {

/// The text of a configuration file that lists `paths`: each on a line of
/// its own, each line ended by a newline.
pub open spec fn config_text(paths: Seq<Seq<char>>) -> Seq<char>
    decreases paths.len(),
{
    if paths.len() == 0 {
        seq![]
    } else {
        config_text(paths.drop_last()) + paths.last() + seq!['\n']
    }
}

/// The pieces of `t` between newlines, the last one being what follows the
/// last newline (empty when `t` ends with one). There is always one piece
/// more than there are newlines.
pub open spec fn pieces(t: Seq<char>) -> Seq<Seq<char>>
    decreases t.len(),
{
    if t.len() == 0 {
        seq![seq![]]
    } else {
        let p = pieces(t.drop_last());
        if t.last() == '\n' {
            p.push(seq![])
        } else {
            p.drop_last().push(p.last().push(t.last()))
        }
    }
}

/// A line without the carriage return that a CRLF ending leaves before the
/// newline.
pub open spec fn strip_cr(l: Seq<char>) -> Seq<char> {
    if l.len() > 0 && l.last() == '\r' {
        l.drop_last()
    } else {
        l
    }
}

/// The lines of a text as a buffered reader gives them: split at each
/// newline, a carriage return before the newline dropped, and no line for
/// an empty remainder after the last newline.
pub open spec fn lines_of(t: Seq<char>) -> Seq<Seq<char>> {
    let p = pieces(t);
    let ended = p.drop_last().map_values(|l: Seq<char>| strip_cr(l));
    if p.last().len() > 0 {
        ended.push(p.last())
    } else {
        ended
    }
}

/// A path that a configuration file can hold on one line and give back
/// unchanged.
pub open spec fn fits_on_line(p: Seq<char>) -> bool {
    !p.contains('\n') && !(p.len() > 0 && p.last() == '\r')
}

/// The default list of directories searched for binaries.
pub fn default_paths() -> (r: Vec<String>)
    ensures
        views(r@) == seq![
            "/usr/bin"@,
            "/usr/local/bin"@,
            "/usr/local/sbin"@,
            "/usr/sbin"@,
            "/bin"@,
        ],
{
    let mut r: Vec<String> = Vec::new();
    r.push(String::from_str("/usr/bin"));
    r.push(String::from_str("/usr/local/bin"));
    r.push(String::from_str("/usr/local/sbin"));
    r.push(String::from_str("/usr/sbin"));
    r.push(String::from_str("/bin"));
    assert(views(r@) =~= seq![
        "/usr/bin"@,
        "/usr/local/bin"@,
        "/usr/local/sbin"@,
        "/usr/sbin"@,
        "/bin"@,
    ]);
    r
}

/// The text of a configuration file that lists `paths`, one per line.
pub fn render_config(paths: &Vec<String>) -> (r: String)
    ensures
        r@ == config_text(views(paths@)),
{
    let mut r = String::new();
    let mut i: usize = 0;
    while i < paths.len()
        invariant
            i <= paths.len(),
            r@ == config_text(views(paths@.subrange(0, i as int))),
        decreases paths.len() - i,
    {
        proof {
            reveal_strlit("\n");
            assert(views(paths@.subrange(0, i + 1 as int)).drop_last() =~= views(
                paths@.subrange(0, i as int),
            ));
        }
        r.append(paths[i].as_str());
        r.append("\n");
        i = i + 1;
    }
    assert(paths@.subrange(0, i as int) =~= paths@);
    r
}

/// The lines of a configuration file, in order, as a buffered reader reads
/// them.
pub fn parse_config(text: &str) -> (r: Vec<String>)
    ensures
        views(r@) == lines_of(text@),
{
    let n = text.unicode_len();
    let mut lines: Vec<String> = Vec::new();
    let mut start: usize = 0;
    let mut i: usize = 0;
    while i < n
        invariant
            n == text@.len(),
            start <= i <= n,
            pieces(text@.subrange(0, i as int)).last() == text@.subrange(start as int, i as int),
            pieces(text@.subrange(0, i as int)).drop_last().map_values(|l: Seq<char>| strip_cr(l))
                == views(lines@),
        decreases n - i,
    {
        let c = text.get_char(i);
        let ghost prev = pieces(text@.subrange(0, i as int));
        let ghost now = pieces(text@.subrange(0, i + 1 as int));
        assert(text@.subrange(0, i + 1 as int).drop_last() =~= text@.subrange(0, i as int));
        if c == '\n' {
            let ghost before = lines@;
            let mut end = i;
            if end > start && text.get_char(end - 1) == '\r' {
                end = end - 1;
            }
            lines.push(String::from_str(text.substring_char(start, end)));
            proof {
                let l = text@.subrange(start as int, i as int);
                if i > start && text@[i - 1] == '\r' {
                    assert(strip_cr(l) =~= text@.subrange(start as int, end as int));
                } else {
                    assert(strip_cr(l) == l);
                }
                assert(now.drop_last() == prev);
                assert(now.drop_last().map_values(|l: Seq<char>| strip_cr(l)) =~= prev.drop_last().map_values(
                    |l: Seq<char>| strip_cr(l),
                ).push(strip_cr(prev.last())));
                assert(views(lines@) =~= views(before).push(strip_cr(l)));
            }
            start = i + 1;
            assert(text@.subrange(start as int, i + 1 as int) =~= seq![]);
        } else {
            proof {
                assert(text@.subrange(start as int, i as int).push(c) =~= text@.subrange(
                    start as int,
                    i + 1 as int,
                ));
                assert(now.drop_last() =~= prev.drop_last());
            }
        }
        i = i + 1;
    }
    assert(text@.subrange(0, n as int) =~= text@);
    if start < n {
        let ghost before = lines@;
        lines.push(String::from_str(text.substring_char(start, n)));
        assert(views(lines@) =~= views(before).push(text@.subrange(start as int, n as int)));
    }
    lines
}

proof fn lemma_pieces_append(a: Seq<char>, b: Seq<char>)
    requires
        !b.contains('\n'),
    ensures
        pieces(a + b) == pieces(a).drop_last().push(pieces(a).last() + b),
    decreases b.len(),
{
    if b.len() == 0 {
        assert(a + b =~= a);
        assert(pieces(a).last() + b =~= pieces(a).last());
        assert(pieces(a).len() > 0) by {
            lemma_pieces_nonempty(a);
        }
        assert(pieces(a).drop_last().push(pieces(a).last()) =~= pieces(a));
    } else {
        let b0 = b.drop_last();
        assert(!b0.contains('\n')) by {
            if b0.contains('\n') {
                let k = choose|k: int| 0 <= k < b0.len() && b0[k] == '\n';
                assert(b[k] == '\n');
            }
        }
        lemma_pieces_append(a, b0);
        assert((a + b).drop_last() =~= a + b0);
        assert((a + b).last() == b.last());
        assert(b.last() != '\n') by {
            assert(b[b.len() - 1] == b.last());
        }
        assert((pieces(a).last() + b0).push(b.last()) =~= pieces(a).last() + b);
    }
}

proof fn lemma_pieces_nonempty(t: Seq<char>)
    ensures
        pieces(t).len() > 0,
    decreases t.len(),
{
    if t.len() > 0 {
        lemma_pieces_nonempty(t.drop_last());
    }
}

proof fn lemma_pieces_of_config(paths: Seq<Seq<char>>)
    requires
        forall|i: int| 0 <= i < paths.len() ==> !(#[trigger] paths[i]).contains('\n'),
    ensures
        pieces(config_text(paths)) == paths.push(seq![]),
    decreases paths.len(),
{
    if paths.len() == 0 {
        assert(pieces(seq![]) =~= seq![seq![]]);
    } else {
        let rest = paths.drop_last();
        assert forall|i: int| 0 <= i < rest.len() implies !(#[trigger] rest[i]).contains('\n') by {
            assert(rest[i] == paths[i]);
        }
        lemma_pieces_of_config(rest);
        let body = config_text(rest) + paths.last();
        assert(!paths.last().contains('\n')) by {
            assert(paths[paths.len() - 1] == paths.last());
        }
        lemma_pieces_append(config_text(rest), paths.last());
        assert(config_text(paths) == body + seq!['\n']);
        assert((body + seq!['\n']).drop_last() =~= body);
        assert(seq![] + paths.last() =~= paths.last());
        assert(rest.push(paths.last()) =~= paths);
    }
}

/// Reading back the configuration text written for a list of paths gives
/// that list, provided no path holds a newline or ends with a carriage
/// return.
pub proof fn lemma_config_round_trip(paths: Seq<Seq<char>>)
    requires
        forall|i: int| 0 <= i < paths.len() ==> fits_on_line(#[trigger] paths[i]),
    ensures
        lines_of(config_text(paths)) == paths,
{
    assert forall|i: int| 0 <= i < paths.len() implies !(#[trigger] paths[i]).contains('\n') by {
        assert(fits_on_line(paths[i]));
    }
    lemma_pieces_of_config(paths);
    let p = pieces(config_text(paths));
    assert(p.drop_last() =~= paths);
    assert(p.drop_last().map_values(|l: Seq<char>| strip_cr(l)) =~= paths) by {
        assert forall|i: int| 0 <= i < paths.len() implies strip_cr(#[trigger] paths[i]) == paths[i] by {
            assert(fits_on_line(paths[i]));
        }
    }
}

} // verus!
