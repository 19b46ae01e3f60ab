use vstd::prelude::*;

verus! {

/// Whether `prefix` is the beginning of `s`.
pub open spec fn is_prefix(prefix: Seq<char>, s: Seq<char>) -> bool {
    prefix.len() <= s.len() && s.subrange(0, prefix.len() as int) == prefix
}

/// Whether two strings hold the same characters.
pub fn str_eq(a: &str, b: &str) -> (r: bool)
    ensures
        r == (a@ == b@),
{
    let n = a.unicode_len();
    if n != b.unicode_len() {
        return false;
    }
    let mut i: usize = 0;
    while i < n
        invariant
            n == a@.len(),
            n == b@.len(),
            i <= n,
            a@.subrange(0, i as int) == b@.subrange(0, i as int),
        decreases n - i,
    {
        if a.get_char(i) != b.get_char(i) {
            assert(a@[i as int] != b@[i as int]);
            return false;
        }
        assert(a@.subrange(0, i + 1) == a@.subrange(0, i as int).push(a@[i as int]));
        assert(b@.subrange(0, i + 1) == b@.subrange(0, i as int).push(b@[i as int]));
        i = i + 1;
    }
    assert(a@ == a@.subrange(0, n as int));
    assert(b@ == b@.subrange(0, n as int));
    true
}

/// Whether `s` begins with `prefix`.
pub fn has_prefix(s: &str, prefix: &str) -> (r: bool)
    ensures
        r == is_prefix(prefix@, s@),
{
    let n = prefix.unicode_len();
    if n > s.unicode_len() {
        return false;
    }
    str_eq(s.substring_char(0, n), prefix)
}


/// What `str::trim` leaves of a string: the same characters without the
/// whitespace at either end.
pub uninterp spec fn trimmed(s: Seq<char>) -> Seq<char>;

/// Relies on `str::trim`: the result depends on the characters alone, and
/// nothing is left of an empty string.
#[verifier::external_body]
pub(crate) fn trim(s: &str) -> (r: String)
    ensures
        r@ == trimmed(s@),
        s@.len() == 0 ==> r@.len() == 0,
{
    s.trim().to_string()
}

/// The character sequences that a list of strings holds.
pub open spec fn views(v: Seq<String>) -> Seq<Seq<char>> {
    v.map_values(|s: String| s@)
}

/// Characters that separate the words of a command line.
pub open spec fn is_blank(c: char) -> bool {
    c == ' ' || c == '\t' || c == '\n' || c == '\r' || c == '\x0C'
}

/// The words of a line: its maximal runs of characters that are not
/// blank, in order. No word is empty.
pub open spec fn words_of(s: Seq<char>) -> Seq<Seq<char>>
    decreases s.len(),
{
    if s.len() == 0 {
        seq![]
    } else {
        let w = words_of(s.drop_last());
        if is_blank(s.last()) {
            w
        } else if s.len() >= 2 && !is_blank(s[s.len() - 2]) {
            w.drop_last().push(w.last().push(s.last()))
        } else {
            w.push(seq![s.last()])
        }
    }
}

fn blank(c: char) -> (r: bool)
    ensures
        r == is_blank(c),
{
    c == ' ' || c == '\t' || c == '\n' || c == '\r' || c == '\x0C'
}

/// Splits a command line into its words; runs of blanks separate them.
pub fn tokenize(line: &str) -> (r: Vec<String>)
    ensures
        views(r@) == words_of(line@),
{
    let n = line.unicode_len();
    let mut words: Vec<String> = Vec::new();
    let mut start: usize = 0;
    let mut i: usize = 0;
    while i < n
        invariant
            n == line@.len(),
            start <= i <= n,
            start < i ==> words_of(line@.subrange(0, i as int)) == views(words@).push(
                line@.subrange(start as int, i as int),
            ),
            start < i ==> !is_blank(line@[i - 1]),
            start == i ==> words_of(line@.subrange(0, i as int)) == views(words@),
            start == i ==> (i == 0 || is_blank(line@[i - 1])),
        decreases n - i,
    {
        let c = line.get_char(i);
        let ghost prefix = line@.subrange(0, i + 1 as int);
        assert(prefix.drop_last() =~= line@.subrange(0, i as int));
        assert(prefix.last() == c);
        if blank(c) {
            if start < i {
                let ghost before = words@;
                words.push(String::from_str(line.substring_char(start, i)));
                assert(views(words@) =~= views(before).push(line@.subrange(start as int, i as int)));
            }
            start = i + 1;
        } else {
            proof {
                if start < i {
                    assert(prefix[i - 1] == line@[i - 1]);
                    assert(line@.subrange(start as int, i as int).push(c) =~= line@.subrange(
                        start as int,
                        i + 1 as int,
                    ));
                } else {
                    if i > 0 {
                        assert(prefix[i - 1] == line@[i - 1]);
                    }
                    assert(seq![c] =~= line@.subrange(i as int, i + 1 as int));
                }
            }
        }
        i = i + 1;
    }
    if start < n {
        let ghost before = words@;
        words.push(String::from_str(line.substring_char(start, n)));
        assert(views(words@) =~= views(before).push(line@.subrange(start as int, n as int)));
    }
    assert(line@.subrange(0, n as int) =~= line@);
    words
}

} // verus!
