//! Locations of the stored files.

use vstd::prelude::*;

use crate::text::{chars_of, concat, contains_text_in, is_prefix, owned, string_of, strings_view};

verus! {

/// `dir` joined with a relative file name, as `Path::join` does on Unix:
/// a separator is put between them unless `dir` is empty or already ends
/// with one.
pub open spec fn joined(dir: Seq<char>, name: Seq<char>) -> Seq<char> {
    if dir.len() == 0 {
        name
    } else if dir.last() == '/' {
        dir + name
    } else {
        dir + seq!['/'] + name
    }
}

/// `dir` joined with the relative file name `name`.
pub fn join_path(dir: &str, name: &str) -> (r: String)
    ensures
        r@ == joined(dir@, name@),
{
    let d = chars_of(dir);
    if d.len() == 0 {
        owned(name)
    } else if d[d.len() - 1] == '/' {
        concat(dir, name)
    } else {
        let a = concat(dir, "/");
        proof {
            reveal_strlit("/");
        }
        let r = concat(a.as_str(), name);
        assert(r@ =~= dir@ + seq!['/'] + name@);
        r
    }
}

/// The task list file within the data directory.
pub fn tasks_path(data_dir: &str) -> (r: String)
    ensures
        r@ == joined(data_dir@, "tasks.json"@),
{
    join_path(data_dir, "tasks.json")
}

/// The archive file within the data directory.
pub fn archive_path(data_dir: &str) -> (r: String)
    ensures
        r@ == joined(data_dir@, "archive.json"@),
{
    join_path(data_dir, "archive.json")
}

/// The settings file within the data directory.
pub fn settings_path(data_dir: &str) -> (r: String)
    ensures
        r@ == joined(data_dir@, "settings.json"@),
{
    join_path(data_dir, "settings.json")
}

/// The database file within the data directory.
pub fn db_path(data_dir: &str) -> (r: String)
    ensures
        r@ == joined(data_dir@, "todos.db"@),
{
    join_path(data_dir, "todos.db")
}

/// Position of the last occurrence of `c` in `s` at or after `from`, or -1.
pub open spec fn last_index_from(s: Seq<char>, c: char, from: int) -> int
    decreases s.len(),
{
    if s.len() <= from || s.len() == 0 {
        -1
    } else if s.last() == c {
        s.len() - 1
    } else {
        last_index_from(s.drop_last(), c, from)
    }
}

/// A path ending in a file name with the name's last extension (after its
/// last dot, unless the dot starts the name) replaced by `ext`, or `ext`
/// added when there is none, as `Path::with_extension` does. A path that ends
/// in `/`, `.` or `..` is left as it is.
pub open spec fn with_extension(p: Seq<char>, ext: Seq<char>) -> Seq<char> {
    let start = last_index_from(p, '/', 0) + 1;
    let name = p.skip(start);
    if name.len() == 0 || name == seq!['.'] || name == seq!['.', '.'] {
        p
    } else {
        let dot = last_index_from(p, '.', start + 1);
        if dot >= 0 {
            p.take(dot) + seq!['.'] + ext
        } else {
            p + seq!['.'] + ext
        }
    }
}

fn last_index_of(v: &Vec<char>, c: char, from: usize) -> (r: Option<usize>)
    ensures
        match r {
            Some(k) => k < v@.len() && k == last_index_from(v@, c, from as int),
            None => last_index_from(v@, c, from as int) == -1,
        },
{
    let mut i: usize = v.len();
    assert(v@.take(v@.len() as int) =~= v@);
    while i > 0 && i > from && v[i - 1] != c
        invariant
            0 <= i <= v@.len(),
            last_index_from(v@, c, from as int) == last_index_from(v@.take(i as int), c, from as int),
        decreases i,
    {
        assert(v@.take(i as int).drop_last() =~= v@.take(i - 1));
        i = i - 1;
    }
    if i > 0 && i > from {
        Some(i - 1)
    } else {
        None
    }
}

/// A path with its file name's extension replaced (see `with_extension`).
pub fn path_with_extension(p: &str, ext: &str) -> (r: String)
    ensures
        r@ == with_extension(p@, ext@),
{
    let v = chars_of(p);
    let n = v.len();
    let start: usize = match last_index_of(&v, '/', 0) {
        Some(k) => k + 1,
        None => 0,
    };
    let name_len = n - start;
    let is_dot = name_len == 1 && v[start] == '.';
    let is_dot_dot = name_len == 2 && v[start] == '.' && v[start + 1] == '.';
    proof {
        let name = p@.skip(start as int);
        assert(name.len() == name_len);
        if name_len == 1 {
            assert(name[0] == v@[start as int]);
            assert((v@[start as int] == '.') ==> name =~= seq!['.']);
            assert(name =~= seq!['.'] ==> v@[start as int] == '.');
        }
        if name_len == 2 {
            assert(name[0] == v@[start as int] && name[1] == v@[start + 1]);
            assert((v@[start as int] == '.' && v@[start + 1] == '.') ==> name =~= seq!['.', '.']);
            assert(name =~= seq!['.', '.'] ==> v@[start as int] == '.' && v@[start + 1] == '.');
        }
        if name_len != 1 {
            assert(name != seq!['.']);
        }
        if name_len != 2 {
            assert(name != seq!['.', '.']);
        }
    }
    if name_len == 0 || is_dot || is_dot_dot {
        return owned(p);
    }
    let dot = last_index_of(&v, '.', start + 1);
    let mut out: Vec<char> = Vec::new();
    let keep: usize = match dot {
        Some(k) => k,
        None => n,
    };
    let mut i: usize = 0;
    while i < keep
        invariant
            keep <= v@.len(),
            0 <= i <= keep,
            out@ == v@.take(i as int),
        decreases keep - i,
    {
        out.push(v[i]);
        assert(v@.take(i + 1) =~= v@.take(i as int).push(v@[i as int]));
        i += 1;
    }
    out.push('.');
    let e = chars_of(ext);
    let ghost base = out@;
    let mut j: usize = 0;
    while j < e.len()
        invariant
            0 <= j <= e@.len(),
            out@ == base + e@.take(j as int),
        decreases e@.len() - j,
    {
        out.push(e[j]);
        assert(e@.take(j + 1) =~= e@.take(j as int).push(e@[j as int]));
        j += 1;
    }
    assert(e@.take(e@.len() as int) =~= e@);
    assert(v@.take(n as int) =~= v@);
    string_of(&out)
}

/// The parent of a path as `Path::parent` gives it, for a path without a
/// trailing separator: none for the root and for the empty path.
pub open spec fn parent_of(p: Seq<char>) -> Option<Seq<char>> {
    if p.len() == 0 || p == seq!['/'] {
        None
    } else {
        let k = last_index_from(p, '/', 0);
        if k < 0 {
            Some(Seq::empty())
        } else if k == 0 {
            Some(seq!['/'])
        } else {
            Some(p.take(k))
        }
    }
}

/// `p` lies within `dir` (`Path::starts_with`, component by component).
pub open spec fn within(p: Seq<char>, dir: Seq<char>) -> bool {
    dir.len() == 0 || (is_prefix(dir, p) && (p.len() == dir.len() || dir.last() == '/'
        || p[dir.len() as int] == '/'))
}

/// A parent is shorter than its child.
pub proof fn lemma_parent_shorter(p: Seq<char>)
    ensures
        parent_of(p) matches Some(up) ==> up.len() < p.len(),
    decreases p.len(),
{
    if p.len() > 0 && p != seq!['/'] {
        lemma_last_index_bound(p, '/', 0);
        let k = last_index_from(p, '/', 0);
        if k == 0 && p.len() == 1 {
            assert(p[0] == '/');
            assert(p =~= seq!['/']);
        }
    }
}

proof fn lemma_last_index_bound(s: Seq<char>, c: char, from: int)
    ensures
        -1 <= last_index_from(s, c, from) < s.len(),
        last_index_from(s, c, from) >= 0 ==> s[last_index_from(s, c, from)] == c,
    decreases s.len(),
{
    if !(s.len() <= from || s.len() == 0) && s.last() != c {
        lemma_last_index_bound(s.drop_last(), c, from);
    }
}

/// The data directories to look for, in order, walking up from `current`:
/// the walk stops after the home directory, and does not leave it once
/// inside.
pub open spec fn search_candidates(current: Seq<char>, home: Option<Seq<char>>) -> Seq<Seq<char>>
    decreases current.len(),
{
    let here = seq![joined(current, ".todos"@)];
    if home == Some(current) {
        here
    } else {
        match parent_of(current) {
            None => here,
            Some(up) => if home matches Some(h) && !within(current, h) {
                here
            } else {
                proof {
                    lemma_parent_shorter(current);
                }
                here + search_candidates(up, home)
            },
        }
    }
}

/// Where data goes when no data directory is found: `.todos` in the home
/// directory, or in the start directory when there is no home.
pub open spec fn fallback_dir_of(start: Seq<char>, home: Option<Seq<char>>) -> Seq<char> {
    match home {
        Some(h) => joined(h, ".todos"@),
        None => joined(start, ".todos"@),
    }
}

fn parent_text(p: &str) -> (r: Option<String>)
    ensures
        match (r, parent_of(p@)) {
            (Some(a), Some(b)) => a@ == b,
            (None, None) => true,
            _ => false,
        },
{
    let v = chars_of(p);
    if v.len() == 0 {
        return None;
    }
    if v.len() == 1 && v[0] == '/' {
        assert(p@ =~= seq!['/']);
        return None;
    }
    assert(p@ != seq!['/']) by {
        if p@ == seq!['/'] {
            assert(v@.len() == 1 && v@[0] == '/');
        }
    }
    match last_index_of(&v, '/', 0) {
        None => {
            let e = owned("");
            proof {
                reveal_strlit("");
                assert(e@ =~= Seq::<char>::empty());
            }
            Some(e)
        },
        Some(k) => {
            if k == 0 {
                let r = owned("/");
                proof {
                    reveal_strlit("/");
                    assert(r@ =~= seq!['/']);
                }
                Some(r)
            } else {
                Some(crate::text::take_chars(p, k))
            }
        },
    }
}

fn within_text(p: &str, dir: &str) -> (r: bool)
    ensures
        r == within(p@, dir@),
{
    let pv = chars_of(p);
    let dv = chars_of(dir);
    if dv.len() == 0 {
        return true;
    }
    if !crate::text::starts_with(p, dir) {
        return false;
    }
    pv.len() == dv.len() || dv[dv.len() - 1] == '/' || pv[dv.len()] == '/'
}

/// The data directories to look for, walking up from `start` (see
/// `search_candidates`); paths as the system gives them, without a trailing
/// separator.
pub fn search_dirs(start: &str, home: Option<&str>) -> (r: Vec<String>)
    ensures
        crate::text::strings_view(r@) == search_candidates(
            start@,
            match home {
                Some(h) => Some(h@),
                None => None,
            },
        ),
{
    let ghost hv: Option<Seq<char>> = match home {
        Some(h) => Some(h@),
        None => None,
    };
    let mut out: Vec<String> = Vec::new();
    let mut current = owned(start);
    let ghost mut done: Seq<Seq<char>> = Seq::empty();
    loop
        invariant
            hv == (match home {
                Some(h) => Some(h@),
                None => None,
            }),
            crate::text::strings_view(out@) == done,
            done + search_candidates(current@, hv) == search_candidates(start@, hv),
        decreases current@.len(),
    {
        let ghost cur = current@;
        let here = join_path(current.as_str(), ".todos");
        let ghost before = out@;
        out.push(here);
        assert(crate::text::strings_view(out@) =~= crate::text::strings_view(before).push(
            joined(cur, ".todos"@),
        ));
        let at_home = match home {
            Some(h) => crate::text::same_text(current.as_str(), h),
            None => false,
        };
        if at_home {
            assert(hv == Some(cur));
            proof {
                done = done.push(joined(cur, ".todos"@));
                assert(done =~= search_candidates(start@, hv));
            }
            return out;
        }
        match parent_text(current.as_str()) {
            None => {
                proof {
                    done = done.push(joined(cur, ".todos"@));
                    assert(done =~= search_candidates(start@, hv));
                }
                return out;
            },
            Some(up) => {
                let leaves_home = match home {
                    Some(h) => !within_text(current.as_str(), h),
                    None => false,
                };
                proof {
                    lemma_parent_shorter(cur);
                }
                if leaves_home {
                    proof {
                        done = done.push(joined(cur, ".todos"@));
                        assert(done =~= search_candidates(start@, hv));
                    }
                    return out;
                }
                proof {
                    assert(search_candidates(cur, hv) == seq![joined(cur, ".todos"@)]
                        + search_candidates(up@, hv));
                    assert(done + seq![joined(cur, ".todos"@)] + search_candidates(up@, hv)
                        =~= done + search_candidates(cur, hv));
                    done = done.push(joined(cur, ".todos"@));
                    assert(done + search_candidates(up@, hv) =~= search_candidates(start@, hv));
                }
                current = up;
            },
        }
    }
}

/// Where data goes when no data directory is found.
pub fn fallback_dir(start: &str, home: Option<&str>) -> (r: String)
    ensures
        r@ == fallback_dir_of(
            start@,
            match home {
                Some(h) => Some(h@),
                None => None,
            },
        ),
{
    match home {
        Some(h) => join_path(h, ".todos"),
        None => join_path(start, ".todos"),
    }
}


/// The first of the candidates `c` that is among the directories `existing`.
pub open spec fn first_existing(c: Seq<Seq<char>>, existing: Seq<Seq<char>>) -> Option<Seq<char>>
    decreases c.len(),
{
    if c.len() == 0 {
        None
    } else if existing.contains(c[0]) {
        Some(c[0])
    } else {
        first_existing(c.drop_first(), existing)
    }
}

/// The data directory found walking up from `start`, given which data
/// directories exist: the first candidate that exists, else the fallback.
pub open spec fn data_dir_of(start: Seq<char>, home: Option<Seq<char>>, existing: Seq<Seq<char>>) -> Seq<char> {
    match first_existing(search_candidates(start, home), existing) {
        Some(d) => d,
        None => fallback_dir_of(start, home),
    }
}

/// The data directory for a walk up from `start` (see `search_candidates`),
/// where `existing` lists the data directories that exist: the nearest of
/// them, else the fallback.
pub fn choose_data_dir(start: &str, home: Option<&str>, existing: &Vec<String>) -> (r: String)
    ensures
        r@ == data_dir_of(
            start@,
            match home {
                Some(h) => Some(h@),
                None => None,
            },
            strings_view(existing@),
        ),
{
    let ghost h = match home {
        Some(h) => Some(h@),
        None => None,
    };
    let ghost ex = strings_view(existing@);
    let candidates = search_dirs(start, home);
    let ghost c = strings_view(candidates@);
    assert(c.skip(0) =~= c);
    let mut i: usize = 0;
    while i < candidates.len()
        invariant
            c == strings_view(candidates@),
            c == search_candidates(start@, h),
            h == match home {
                Some(x) => Some(x@),
                None => None,
            },
            ex == strings_view(existing@),
            0 <= i <= c.len(),
            first_existing(c, ex) == first_existing(c.skip(i as int), ex),
        decreases c.len() - i,
    {
        assert(c.skip(i as int).drop_first() =~= c.skip(i + 1));
        assert(c.skip(i as int)[0] == c[i as int]);
        assert(c[i as int] == candidates@[i as int]@);
        if contains_text_in(existing, &candidates[i]) {
            let d = candidates[i].clone();
            assert(d@ == c[i as int]);
            assert(ex.contains(c.skip(i as int)[0]));
            return d;
        }
        i += 1;
    }
    assert(c.skip(i as int).len() == 0);
    fallback_dir(start, home)
}
} // verus!
