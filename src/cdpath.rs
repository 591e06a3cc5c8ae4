//! The candidates that a `cd` argument stands for, along the search path.

use vstd::prelude::*;
use crate::path::{is_absolute, views};

verus! {

/// `.`, `..`, or a path that starts with `./` or `../`: relative to the working
/// directory alone, never looked up along the search path.
pub open spec fn is_explicitly_relative(d: Seq<char>) -> bool {
    ||| d == seq!['.']
    ||| d == seq!['.', '.']
    ||| (d.len() >= 2 && d[0] == '.' && d[1] == '/')
    ||| (d.len() >= 3 && d[0] == '.' && d[1] == '.' && d[2] == '/')
}

/// `rel` under `base`, with one separator between them.
pub open spec fn join_path(base: Seq<char>, rel: Seq<char>) -> Seq<char> {
    if base.len() > 0 && base.last() == '/' {
        base + rel
    } else {
        base + seq!['/'] + rel
    }
}

/// A search-path entry as a directory: an empty entry or `.` is the working
/// directory `pwd`, a relative one lies under it.
pub open spec fn anchored(entry: Seq<char>, pwd: Seq<char>) -> Seq<char> {
    if entry.len() == 0 || entry == seq!['.'] {
        pwd
    } else if is_absolute(entry) {
        entry
    } else {
        join_path(pwd, entry)
    }
}

/// The candidates for `dir`, in order: `dir` itself when absolute; under the
/// working directory when explicitly relative or when the search path is
/// empty; else under each search-path entry.
pub open spec fn candidates_of(dir: Seq<char>, pwd: Seq<char>, cdpath: Seq<Seq<char>>) -> Seq<Seq<char>> {
    if is_absolute(dir) {
        seq![dir]
    } else if is_explicitly_relative(dir) || cdpath.len() == 0 {
        seq![join_path(pwd, dir)]
    } else {
        cdpath.map_values(|e: Seq<char>| join_path(anchored(e, pwd), dir))
    }
}

fn join_path_exec(base: &str, rel: &str) -> (r: String)
    ensures
        r@ == join_path(base@, rel@),
{
    let n = base.unicode_len();
    let mut r = String::from_str(base);
    if !(n > 0 && base.get_char(n - 1) == '/') {
        r.append("/");
        proof {
            reveal_strlit("/");
        }
    }
    r.append(rel);
    r
}

fn anchored_exec(entry: &str, pwd: &str) -> (r: String)
    ensures
        r@ == anchored(entry@, pwd@),
{
    let n = entry.unicode_len();
    let dot = n == 1 && entry.get_char(0) == '.';
    proof {
        if dot {
            assert(entry@ =~= seq!['.']);
        }
        if entry@ == seq!['.'] {
            assert(entry@[0] == '.');
        }
    }
    if n == 0 || dot {
        String::from_str(pwd)
    } else if entry.get_char(0) == '/' {
        String::from_str(entry)
    } else {
        join_path_exec(pwd, entry)
    }
}

fn is_explicitly_relative_exec(d: &str) -> (r: bool)
    ensures
        r == is_explicitly_relative(d@),
{
    let n = d.unicode_len();
    if n == 0 || d.get_char(0) != '.' {
        assert(n > 0 ==> d@[0] != '.' ==> d@ != seq!['.'] && d@ != seq!['.', '.']);
        assert(n == 0 ==> d@ != seq!['.'] && d@ != seq!['.', '.']);
        return false;
    }
    if n == 1 {
        assert(d@ =~= seq!['.']);
        return true;
    }
    let c1 = d.get_char(1);
    if c1 == '/' {
        return true;
    }
    if c1 != '.' {
        assert(d@[1] != seq!['.', '.'][1]);
        return false;
    }
    if n == 2 {
        assert(d@ =~= seq!['.', '.']);
        return true;
    }
    let r = d.get_char(2) == '/';
    assert(d@.len() != 2);
    r
}

/// The directories that `cd dir` may mean, in the order they are to be tried,
/// from working directory `pwd` and the entries of the search path `cdpath`.
pub fn cdpath_candidates(dir: &str, pwd: &str, cdpath: &Vec<String>) -> (r: Vec<String>)
    ensures
        views(r@) == candidates_of(dir@, pwd@, views(cdpath@)),
{
    let n = dir.unicode_len();
    if n > 0 && dir.get_char(0) == '/' {
        let r = vec![String::from_str(dir)];
        assert(views(r@) =~= seq![dir@]);
        return r;
    }
    if is_explicitly_relative_exec(dir) || cdpath.len() == 0 {
        let r = vec![join_path_exec(pwd, dir)];
        assert(views(r@) =~= seq![join_path(pwd@, dir@)]);
        return r;
    }
    let ghost want = candidates_of(dir@, pwd@, views(cdpath@));
    let mut r: Vec<String> = Vec::new();
    let mut i: usize = 0;
    while i < cdpath.len()
        invariant
            i <= cdpath@.len(),
            want == views(cdpath@).map_values(|e: Seq<char>| join_path(anchored(e, pwd@), dir@)),
            views(r@) == want.take(i as int),
        decreases cdpath@.len() - i,
    {
        let base = anchored_exec(cdpath[i].as_str(), pwd);
        let c = join_path_exec(base.as_str(), dir);
        assert(want[i as int] == c@);
        let ghost before = views(r@);
        r.push(c);
        assert(views(r@) =~= before.push(c@));
        assert(want.take(i + 1) =~= want.take(i as int).push(want[i as int]));
        i = i + 1;
    }
    assert(want.take(cdpath@.len() as int) =~= want);
    r
}

} // verus!
