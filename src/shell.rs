use vstd::prelude::*;

use crate::config::{lines_of, parse_config};
use crate::parser::{is_absolute, path_exists};
use crate::text::{trim, trimmed, views};

verus! {

/// What a shell session holds, as mathematical values.
pub struct ShellView {
    pub cwd: Seq<char>,
    pub history: Seq<Seq<char>>,
    pub output_count: nat,
    pub paths: Seq<Seq<char>>,
}

/// A shell session: the current working directory, the input history, the
/// number of lines output and the directories searched for binaries.
pub struct Shell {
    working_dir: String,
    input_history: Vec<String>,
    output_count: u64,
    paths: Vec<String>,
}

impl View for Shell {
    type V = ShellView;

    closed spec fn view(&self) -> ShellView {
        ShellView {
            cwd: self.working_dir@,
            history: views(self.input_history@),
            output_count: self.output_count as nat,
            paths: views(self.paths@),
        }
    }
}

/// The items of `s` whose flag in `keep` is set, in order.
pub open spec fn select(s: Seq<Seq<char>>, keep: Seq<bool>) -> Seq<Seq<char>>
    recommends
        s.len() == keep.len(),
    decreases s.len(),
{
    if s.len() == 0 || keep.len() == 0 {
        seq![]
    } else {
        let r = select(s.drop_last(), keep.drop_last());
        if keep.last() {
            r.push(s.last())
        } else {
            r
        }
    }
}

/// The file that stands for binary `name` in search directory `dir`.
pub open spec fn candidate(dir: Seq<char>, name: Seq<char>) -> Seq<char> {
    dir + seq!['/'] + name
}

impl Shell {
    /// A session's working directory is always an absolute path.
    pub open spec fn wf(&self) -> bool {
        is_absolute(self@.cwd)
    }

    /// A new session in `/`, with no history and no search paths.
    pub fn default() -> (r: Shell)
        ensures
            r@.cwd == "/"@,
            r@.history.len() == 0,
            r@.output_count == 0,
            r@.paths.len() == 0,
            r.wf(),
    {
        proof {
            reveal_strlit("/");
        }
        let r = Shell {
            working_dir: String::from_str("/"),
            input_history: Vec::new(),
            output_count: 0,
            paths: Vec::new(),
        };
        assert(r@.history =~= seq![]);
        assert(r@.paths =~= seq![]);
        r
    }

    /// Records the outcome of making `wd` the process's working directory:
    /// the session follows only when the process moved (`moved`), so the
    /// two never differ. Returns whether the directory changed.
    pub fn change_working_dir(&mut self, wd: &str, moved: bool) -> (r: bool)
        requires
            is_absolute(wd@),
        ensures
            r == moved,
            moved ==> final(self)@ == (ShellView { cwd: wd@, ..old(self)@ }),
            !moved ==> final(self)@ == old(self)@,
            old(self).wf() ==> final(self).wf(),
    {
        if moved {
            self.working_dir = String::from_str(wd);
            true
        } else {
            false
        }
    }

    /// The session's current working directory.
    pub fn get_cwd(&self) -> (r: &str)
        ensures
            r@ == self@.cwd,
    {
        self.working_dir.as_str()
    }

    /// The directories searched for binaries, in order.
    pub fn get_paths(&self) -> (r: &Vec<String>)
        ensures
            views(r@) == self@.paths,
    {
        &self.paths
    }

    /// The files that stand for binary `bin_name` (surrounding whitespace
    /// ignored), one in each search path, in search order. A blank name has
    /// none.
    pub fn bin_candidates(&self, bin_name: &str) -> (r: Vec<String>)
        ensures
            trimmed(bin_name@).len() == 0 ==> r@.len() == 0,
            bin_name@.len() == 0 ==> r@.len() == 0,
            trimmed(bin_name@).len() > 0 ==> r@.len() == self@.paths.len(),
            trimmed(bin_name@).len() > 0 ==> views(r@) == self@.paths.map_values(
                |d: Seq<char>| candidate(d, trimmed(bin_name@)),
            ),
    {
        let name = trim(bin_name);
        let mut r: Vec<String> = Vec::new();
        if name.unicode_len() == 0 {
            return r;
        }
        let ghost t = name@;
        let mut i: usize = 0;
        while i < self.paths.len()
            invariant
                i <= self.paths.len(),
                t == name@,
                views(r@) == self@.paths.subrange(0, i as int).map_values(
                    |d: Seq<char>| candidate(d, t),
                ),
            decreases self.paths.len() - i,
        {
            let ghost before = r@;
            let mut probe = self.paths[i].clone();
            probe.append("/");
            probe.append(name.as_str());
            proof {
                reveal_strlit("/");
                assert(self@.paths[i as int] == self.paths@[i as int]@);
            }
            assert(probe@ == candidate(self@.paths[i as int], t));
            r.push(probe);
            assert(views(r@) =~= views(before).push(candidate(self@.paths[i as int], t)));
            assert(self@.paths.subrange(0, i + 1 as int).map_values(|d: Seq<char>| candidate(d, t))
                =~= self@.paths.subrange(0, i as int).map_values(|d: Seq<char>| candidate(d, t)).push(
                candidate(self@.paths[i as int], t),
            ));
            i = i + 1;
        }
        assert(self@.paths.subrange(0, i as int) =~= self@.paths);
        assert(views(r@).len() == r@.len());
        r
    }

    /// Searches the session's paths, in order, for a file named `bin_name`
    /// (surrounding whitespace ignored) and says whether one exists: one of
    /// `bin_candidates` is probed after the other until one is found. A
    /// blank name is never found.
    pub fn find_bin(&self, bin_name: &str) -> (r: bool)
        ensures
            r ==> trimmed(bin_name@).len() > 0 && self@.paths.len() > 0,
            bin_name@.len() == 0 ==> !r,
    {
        let candidates = self.bin_candidates(bin_name);
        let mut i: usize = 0;
        while i < candidates.len()
            invariant
                i <= candidates.len(),
                trimmed(bin_name@).len() == 0 ==> candidates@.len() == 0,
                bin_name@.len() == 0 ==> candidates@.len() == 0,
                trimmed(bin_name@).len() > 0 ==> candidates@.len() == self@.paths.len(),
            decreases candidates.len() - i,
        {
            if path_exists(candidates[i].as_str()) {
                return true;
            }
            i = i + 1;
        }
        false
    }

    /// Appends a command line to the input history.
    pub(crate) fn record_input(&mut self, line: &str)
        ensures
            final(self)@ == (ShellView { history: old(self)@.history.push(line@), ..old(self)@ }),
            old(self).wf() ==> final(self).wf(),
    {
        let ghost before = self.input_history@;
        self.input_history.push(String::from_str(line));
        assert(views(self.input_history@) =~= views(before).push(line@));
    }

    /// Replaces the search paths.
    pub fn set_paths(&mut self, paths: Vec<String>)
        ensures
            final(self)@ == (ShellView { paths: views(paths@), ..old(self)@ }),
            old(self).wf() ==> final(self).wf(),
    {
        self.paths = paths;
    }

    /// Replaces the search paths with the lines of a configuration file
    /// that name something on the file system, in the file's order.
    pub fn load_paths(&mut self, config_text: &str)
        ensures
            exists|keep: Seq<bool>|
                keep.len() == lines_of(config_text@).len() && final(self)@ == (ShellView {
                    paths: #[trigger] select(lines_of(config_text@), keep),
                    ..old(self)@
                }),
            old(self).wf() ==> final(self).wf(),
    {
        let lines = parse_config(config_text);
        let mut found: Vec<bool> = Vec::new();
        let mut i: usize = 0;
        while i < lines.len()
            invariant
                i <= lines.len(),
                found@.len() == i,
            decreases lines.len() - i,
        {
            found.push(path_exists(lines[i].as_str()));
            i = i + 1;
        }
        self.paths = keep_marked(lines, &found);
    }
}

/// The items whose flag in `keep` is set, in their order.
pub fn keep_marked(items: Vec<String>, keep: &Vec<bool>) -> (r: Vec<String>)
    requires
        keep@.len() == items@.len(),
    ensures
        views(r@) == select(views(items@), keep@),
{
    let ghost all = views(items@);
    let mut kept: Vec<String> = Vec::new();
    let mut i: usize = 0;
    while i < items.len()
        invariant
            i <= items.len(),
            keep@.len() == items@.len(),
            all == views(items@),
            views(kept@) == select(all.subrange(0, i as int), keep@.subrange(0, i as int)),
        decreases items.len() - i,
    {
        let ghost before = kept@;
        if keep[i] {
            kept.push(items[i].clone());
        }
        proof {
            assert(all.subrange(0, i + 1 as int).drop_last() =~= all.subrange(0, i as int));
            assert(keep@.subrange(0, i + 1 as int).drop_last() =~= keep@.subrange(0, i as int));
            if keep@[i as int] {
                assert(views(kept@) =~= views(before).push(all[i as int]));
            }
        }
        i = i + 1;
    }
    assert(all.subrange(0, i as int) =~= all);
    assert(keep@.subrange(0, i as int) =~= keep@);
    kept
}

} // verus!
