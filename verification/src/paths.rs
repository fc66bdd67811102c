//! Local file paths, read as `std::path` reads them on Unix.

use vstd::prelude::*;
use vstd::string::*;
use crate::text::{after_last, after_last_char, find_char, index_of, lemma_index_of_range, str_eq};

verus! {

/// `base` joined with `rel` on a Unix system (`Path::join`): `rel` itself
/// where it is absolute (starts with `/`); else `base`, a `/` where `base` is
/// not empty and does not end in one, then `rel`.
pub open spec fn path_join(base: Seq<char>, rel: Seq<char>) -> Seq<char> {
    if rel.len() > 0 && rel[0] == '/' {
        rel
    } else if base.len() > 0 && base.last() != '/' {
        base + seq!['/'] + rel
    } else {
        base + rel
    }
}

/// A segment that names a component: neither empty nor `.`.
pub open spec fn is_name(s: Seq<char>) -> bool {
    s.len() > 0 && s != "."@
}

/// `seq![s]` where `s` names a component, else nothing.
pub open spec fn kept(s: Seq<char>) -> Seq<Seq<char>> {
    if is_name(s) {
        seq![s]
    } else {
        Seq::empty()
    }
}

/// The components of a path that `Path::components` gives as names (`..`
/// among them): its `/`-separated segments, without the empty ones and `.`.
/// A leading `/` (the root) and a leading `.` (the current directory) are
/// the only other components a Unix path has, and they come first.
pub open spec fn path_names(p: Seq<char>) -> Seq<Seq<char>>
    decreases p.len(),
{
    if index_of(p, '/') < 0 {
        kept(p)
    } else {
        let k = index_of(p, '/');
        proof {
            lemma_index_of_range(p, '/');
        }
        kept(p.subrange(0, k)) + path_names(p.subrange(k + 1, p.len() as int))
    }
}

/// `Path::file_name`: the last component, where the path has one and it is
/// neither `..`, the root nor the current directory.
pub open spec fn path_file_name(p: Seq<char>) -> Option<Seq<char>> {
    let n = path_names(p);
    if n.len() > 0 && n.last() != ".."@ {
        Some(n.last())
    } else {
        None
    }
}

/// `Path::parent` followed by `Path::file_name`: the name of the component
/// before the last one, where there is such a component and it is a name
/// other than `..`.
pub open spec fn path_dir_name(p: Seq<char>) -> Option<Seq<char>> {
    let n = path_names(p);
    if n.len() >= 2 && n[n.len() - 2] != ".."@ {
        Some(n[n.len() - 2])
    } else {
        None
    }
}

/// The extension of a file name: what follows its last `.`, where it has a `.`
/// other than a leading one.
pub open spec fn extension_in(f: Seq<char>) -> Option<Seq<char>> {
    if f.contains('.') && f.len() - after_last(f, '.').len() - 1 > 0 {
        Some(after_last(f, '.'))
    } else {
        None
    }
}

/// `Path::extension`: that of the file name, none where there is none.
pub open spec fn path_extension(p: Seq<char>) -> Option<Seq<char>> {
    match path_file_name(p) {
        Some(f) => extension_in(f),
        None => None,
    }
}

/// `base` joined with `rel`, as `Path::join`.
pub fn join_path(base: &str, rel: &str) -> (r: String)
    ensures
        r@ == path_join(base@, rel@),
{
    let rn = rel.unicode_len();
    if rn > 0 && rel.get_char(0) == '/' {
        return String::from_str(rel);
    }
    let bn = base.unicode_len();
    let mut r = String::from_str(base);
    if bn > 0 && base.get_char(bn - 1) != '/' {
        r.append("/");
        proof {
            reveal_strlit("/");
        }
        assert("/"@ =~= seq!['/']);
    }
    r.append(rel);
    r
}

/// Adds `seg` to `out` where it names a component.
fn keep_name(out: &mut Vec<String>, seg: &str)
    ensures
        final(out)@.map_values(|s: String| s@) == old(out)@.map_values(|s: String| s@) + kept(
            seg@,
        ),
{
    proof {
        reveal_strlit(".");
    }
    if seg.unicode_len() > 0 && !str_eq(seg, ".") {
        let ghost before = out@.map_values(|s: String| s@);
        out.push(String::from_str(seg));
        assert(out@.map_values(|s: String| s@) =~= before + seq![seg@]);
    } else {
        assert(old(out)@.map_values(|s: String| s@) + kept(seg@) =~= old(out)@.map_values(
            |s: String| s@,
        ));
    }
}

/// The named components of a path.
pub fn path_names_of(p: &str) -> (r: Vec<String>)
    ensures
        r@.map_values(|s: String| s@) == path_names(p@),
{
    let n = p.unicode_len();
    let mut out: Vec<String> = Vec::new();
    let mut start: usize = 0;
    assert(p@.subrange(0, n as int) =~= p@);
    assert(out@.map_values(|s: String| s@) =~= Seq::<Seq<char>>::empty());
    loop
        invariant
            n == p@.len(),
            start <= n,
            path_names(p@) == out@.map_values(|s: String| s@) + path_names(
                p@.subrange(start as int, n as int),
            ),
        decreases n - start,
    {
        let ghost rest = p@.subrange(start as int, n as int);
        let ghost before = out@.map_values(|s: String| s@);
        match find_char(p, '/', start) {
            Some(k) => {
                let seg = p.substring_char(start, k);
                keep_name(&mut out, seg);
                proof {
                    lemma_index_of_range(rest, '/');
                }
                assert(rest.subrange(0, k - start) =~= seg@);
                assert(rest.subrange(k - start + 1, rest.len() as int) =~= p@.subrange(
                    k + 1,
                    n as int,
                ));
                assert(path_names(rest) == kept(seg@) + path_names(p@.subrange(k + 1, n as int)));
                assert(before + (kept(seg@) + path_names(p@.subrange(k + 1, n as int))) =~= before
                    + kept(seg@) + path_names(p@.subrange(k + 1, n as int)));
                start = k + 1;
            },
            None => {
                let seg = p.substring_char(start, n);
                keep_name(&mut out, seg);
                assert(seg@ =~= rest);
                assert(path_names(rest) == kept(rest));
                return out;
            },
        }
    }
}

/// The final component of a path, as `Path::file_name`.
pub fn file_name_of(p: &str) -> (r: Option<String>)
    ensures
        match r {
            Some(s) => path_file_name(p@) == Some(s@),
            None => path_file_name(p@) is None,
        },
{
    let names = path_names_of(p);
    let n = names.len();
    proof {
        reveal_strlit("..");
    }
    if n > 0 && !str_eq(names[n - 1].as_str(), "..") {
        assert(names@.map_values(|s: String| s@)[n - 1] == names@[n - 1]@);
        Some(String::from_str(names[n - 1].as_str()))
    } else {
        if n > 0 {
            assert(names@.map_values(|s: String| s@)[n - 1] == names@[n - 1]@);
        }
        None
    }
}

/// The name of the directory that holds a path's final component, as
/// `Path::parent` and then `Path::file_name`.
pub fn dir_name_of(p: &str) -> (r: Option<String>)
    ensures
        match r {
            Some(s) => path_dir_name(p@) == Some(s@),
            None => path_dir_name(p@) is None,
        },
{
    let names = path_names_of(p);
    let n = names.len();
    proof {
        reveal_strlit("..");
    }
    if n >= 2 && !str_eq(names[n - 2].as_str(), "..") {
        assert(names@.map_values(|s: String| s@)[n - 2] == names@[n - 2]@);
        Some(String::from_str(names[n - 2].as_str()))
    } else {
        if n >= 2 {
            assert(names@.map_values(|s: String| s@)[n - 2] == names@[n - 2]@);
        }
        None
    }
}

/// What `after_last` leaves of a sequence that holds `c` is shorter than it.
proof fn lemma_after_last_shorter(s: Seq<char>, c: char)
    requires
        s.contains(c),
    ensures
        after_last(s, c).len() < s.len(),
    decreases s.len(),
{
    if s.last() != c {
        let i = choose|i: int| 0 <= i < s.len() && s[i] == c;
        assert(s.drop_last()[i] == c);
        lemma_after_last_shorter(s.drop_last(), c);
    }
}

/// The extension of a path, as `Path::extension`.
pub fn extension_of(p: &str) -> (r: Option<String>)
    ensures
        match r {
            Some(s) => path_extension(p@) == Some(s@),
            None => path_extension(p@) is None,
        },
{
    match file_name_of(p) {
        None => None,
        Some(f) => {
            let fs = f.as_str();
            let n = fs.unicode_len();
            assert(fs@.subrange(0, n as int) =~= fs@);
            proof {
                lemma_index_of_range(fs@, '.');
            }
            match find_char(fs, '.', 0) {
                None => {
                    assert(!fs@.contains('.'));
                    None
                },
                Some(k) => {
                    assert(fs@[k as int] == '.');
                    let e = after_last_char(fs, '.');
                    proof {
                        lemma_after_last_shorter(fs@, '.');
                    }
                    if n - e.unicode_len() - 1 > 0 {
                        Some(String::from_str(e))
                    } else {
                        None
                    }
                },
            }
        },
    }
}

} // verus!
