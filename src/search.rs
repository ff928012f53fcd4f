use vstd::prelude::*;
use crate::split::views;
use crate::text::{chars_of, string_of};

verus! {

/// `name` in the directory `dir`, as `Path::join` forms it on Unix: a name
/// that starts with `/` stands alone, and a separator goes between the two
/// unless `dir` is empty or already ends with one.
pub open spec fn joined(dir: Seq<char>, name: Seq<char>) -> Seq<char> {
    if name.len() > 0 && name[0] == '/' {
        name
    } else if dir.len() == 0 || dir.last() == '/' {
        dir + name
    } else {
        dir + seq!['/'] + name
    }
}

/// The place to look for `exe` in each directory of `dirs`, in order.
pub open spec fn candidates_of(dirs: Seq<Seq<char>>, exe: Seq<char>) -> Seq<Seq<char>> {
    dirs.map_values(|d: Seq<char>| joined(d, exe))
}

/// The path of `exe` in the first directory of `dirs` where it is a regular
/// file, as `is_file` tells for each directory in turn.
pub open spec fn search_result(dirs: Seq<Seq<char>>, exe: Seq<char>, is_file: Seq<bool>) -> Option<
    Seq<char>,
>
    decreases dirs.len(),
{
    if dirs.len() == 0 || is_file.len() == 0 {
        None
    } else if is_file[0] {
        Some(joined(dirs[0], exe))
    } else {
        search_result(dirs.drop_first(), exe, is_file.drop_first())
    }
}

pub open spec fn opt_view(o: Option<String>) -> Option<Seq<char>> {
    match o {
        Some(s) => Some(s@),
        None => None,
    }
}

/// `name` joined to `dir`.
pub fn join_path(dir: &str, name: &str) -> (r: String)
    ensures
        r@ == joined(dir@, name@),
{
    let d = chars_of(dir);
    let n = chars_of(name);
    if n.len() > 0 && n[0] == '/' {
        return string_of(&n);
    }
    let mut out = d.clone();
    if !(d.len() == 0 || d[d.len() - 1] == '/') {
        out.push('/');
    }
    let mut i: usize = 0;
    let ghost base = out@;
    while i < n.len()
        invariant
            i <= n.len(),
            out@ == base + n@.subrange(0, i as int),
        decreases n.len() - i,
    {
        out.push(n[i]);
        assert(out@ =~= base + n@.subrange(0, i + 1));
        i += 1;
    }
    assert(n@.subrange(0, n.len() as int) =~= n@);
    assert(d@ + seq!['/'] =~= d@.push('/'));
    string_of(&out)
}

/// The place to look for `exe` in each of `dirs`, in order.
pub fn candidates(dirs: &Vec<String>, exe: &str) -> (r: Vec<String>)
    ensures
        views(r@) == candidates_of(views(dirs@), exe@),
{
    let mut out: Vec<String> = Vec::new();
    let mut i: usize = 0;
    while i < dirs.len()
        invariant
            i <= dirs.len(),
            views(out@) == candidates_of(views(dirs@), exe@).subrange(0, i as int),
        decreases dirs.len() - i,
    {
        let p = join_path(dirs[i].as_str(), exe);
        assert(views(dirs@)[i as int] == dirs@[i as int]@);
        assert(candidates_of(views(dirs@), exe@)[i as int] == p@);
        let ghost v0 = views(out@);
        let ghost pv = p@;
        out.push(p);
        assert(views(out@) =~= v0.push(pv));
        assert(views(out@) =~= candidates_of(views(dirs@), exe@).subrange(0, i + 1));
        i += 1;
    }
    assert(views(out@) =~= candidates_of(views(dirs@), exe@));
    out
}

/// The path of `exe` in the first of `dirs` that holds it as a regular file;
/// `is_file[i]` tells whether the place in `dirs[i]` is one.
pub fn find_exe(dirs: &Vec<String>, exe: &str, is_file: &Vec<bool>) -> (r: Option<String>)
    requires
        is_file.len() == dirs.len(),
    ensures
        opt_view(r) == search_result(views(dirs@), exe@, is_file@),
{
    let mut i: usize = 0;
    let ghost all = views(dirs@);
    assert(all.subrange(0, all.len() as int) =~= all);
    assert(is_file@.subrange(0, is_file.len() as int) =~= is_file@);
    while i < dirs.len()
        invariant
            i <= dirs.len() == is_file.len(),
            all == views(dirs@),
            search_result(all, exe@, is_file@) == search_result(
                all.subrange(i as int, all.len() as int),
                exe@,
                is_file@.subrange(i as int, is_file.len() as int),
            ),
        decreases dirs.len() - i,
    {
        let ghost d = all.subrange(i as int, all.len() as int);
        let ghost f = is_file@.subrange(i as int, is_file.len() as int);
        if is_file[i] {
            assert(d[0] == dirs@[i as int]@);
            let p = join_path(dirs[i].as_str(), exe);
            return Some(p);
        }
        assert(d.drop_first() =~= all.subrange(i + 1, all.len() as int));
        assert(f.drop_first() =~= is_file@.subrange(i + 1, is_file.len() as int));
        i += 1;
    }
    None
}

} // verus!
