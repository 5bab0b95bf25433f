use vstd::prelude::*;
use vstd::string::*;

use crate::constants::views_of;
use crate::script::helper::same_text;

verus! {

/// The placeholder that stands for the home directory in a search path.
pub open spec fn home_marker() -> Seq<char> {
    seq!['$', 'H', 'O', 'M', 'E']
}

/// `path` with every occurrence of `$HOME`, found from left to right without
/// overlap, replaced by the home directory `home`.
pub open spec fn expand_home(path: Seq<char>, home: Seq<char>) -> Seq<char>
    decreases path.len(),
{
    if path.len() == 0 {
        path
    } else if home_marker().is_prefix_of(path) {
        home + expand_home(path.skip(5), home)
    } else {
        seq![path[0]] + expand_home(path.skip(1), home)
    }
}

/// `name` resolved against the directory `dir`: an absolute `name` stands
/// alone; otherwise it is appended to `dir`, with a `/` between them where
/// `dir` is not empty and does not end in one.
pub open spec fn join_path(dir: Seq<char>, name: Seq<char>) -> Seq<char> {
    if name.len() > 0 && name[0] == '/' {
        name
    } else if dir.len() == 0 || dir.last() == '/' {
        dir + name
    } else {
        dir + seq!['/'] + name
    }
}

/// Each directory of `dirs`, with `$HOME` expanded, joined with each name of
/// `names`; all names of one directory come before those of the next.
pub open spec fn search_paths(dirs: Seq<Seq<char>>, names: Seq<Seq<char>>, home: Seq<char>) -> Seq<
    Seq<char>,
>
    decreases dirs.len(),
{
    if dirs.len() == 0 {
        seq![]
    } else {
        let dir = expand_home(dirs.last(), home);
        search_paths(dirs.drop_last(), names, home) + names.map_values(
            |n: Seq<char>| join_path(dir, n),
        )
    }
}

/// There is one search path per directory and name.
pub proof fn lemma_search_paths_len(dirs: Seq<Seq<char>>, names: Seq<Seq<char>>, home: Seq<char>)
    ensures
        search_paths(dirs, names, home).len() == dirs.len() * names.len(),
    decreases dirs.len(),
{
    if dirs.len() > 0 {
        lemma_search_paths_len(dirs.drop_last(), names, home);
        assert((dirs.len() - 1) * names.len() + names.len() == dirs.len() * names.len())
            by (nonlinear_arith);
    }
}

/// The first candidate whose flag is set, if any.
pub open spec fn first_present<A>(candidates: Seq<A>, present: Seq<bool>) -> Option<A>
    decreases candidates.len(),
{
    if candidates.len() == 0 || present.len() == 0 {
        None
    } else if present[0] {
        Some(candidates[0])
    } else {
        first_present(candidates.drop_first(), present.drop_first())
    }
}

/// The characters of each string, in order.
pub open spec fn string_views(v: Seq<String>) -> Seq<Seq<char>> {
    v.map_values(|s: String| s@)
}

/// The characters of an optional string.
pub open spec fn opt_view(o: Option<String>) -> Option<Seq<char>> {
    match o {
        Some(s) => Some(s@),
        None => None,
    }
}

/// Replaces every `$HOME` in `path` by the home directory `home`.
pub fn parse_path(path: &str, home: &str) -> (r: String)
    ensures
        r@ == expand_home(path@, home@),
{
    proof {
        reveal_strlit("$HOME");
        assert("$HOME"@ =~= home_marker());
    }
    let n: usize = path.unicode_len();
    let mut out = String::new();
    let mut i: usize = 0;
    assert(path@.skip(0) =~= path@);
    while i < n
        invariant
            i <= n,
            n == path@.len(),
            "$HOME"@ == home_marker(),
            out@ + expand_home(path@.skip(i as int), home@) == expand_home(path@, home@),
        decreases n - i,
    {
        let ghost rest = path@.skip(i as int);
        if n - i >= 5 && same_text(path.substring_char(i, i + 5), "$HOME") {
            assert(rest.subrange(0, 5) =~= path@.subrange(i as int, i + 5));
            assert(home_marker().is_prefix_of(rest));
            assert(rest.skip(5) =~= path@.skip(i + 5));
            let ghost before = out@;
            out = out.concat(home);
            assert(out@ + expand_home(path@.skip(i + 5), home@) =~= before + expand_home(
                rest,
                home@,
            ));
            i = i + 5;
        } else {
            if n - i >= 5 {
                assert(rest.subrange(0, 5) =~= path@.subrange(i as int, i + 5));
            }
            assert(!home_marker().is_prefix_of(rest));
            assert(rest.skip(1) =~= path@.skip(i + 1));
            let c = path.substring_char(i, i + 1);
            assert(c@ =~= seq![rest[0]]);
            let ghost before = out@;
            out = out.concat(c);
            assert(out@ + expand_home(path@.skip(i + 1), home@) =~= before + expand_home(
                rest,
                home@,
            ));
            i = i + 1;
        }
    }
    assert(path@.skip(n as int) =~= Seq::<char>::empty());
    assert(out@ + Seq::<char>::empty() =~= out@);
    out
}

/// Resolves `name` against the directory `dir`.
pub fn join(dir: &str, name: &str) -> (r: String)
    ensures
        r@ == join_path(dir@, name@),
{
    proof {
        reveal_strlit("/");
    }
    let dn: usize = dir.unicode_len();
    let nn: usize = name.unicode_len();
    if nn > 0 && name.get_char(0) == '/' {
        String::from_str(name)
    } else if dn == 0 || dir.get_char(dn - 1) == '/' {
        String::from_str(dir).concat(name)
    } else {
        let r = String::from_str(dir).concat("/").concat(name);
        assert(r@ =~= dir@ + seq!['/'] + name@);
        r
    }
}

/// Every directory of `dirs`, with `$HOME` expanded, joined with every name
/// of `names`, directory by directory.
pub fn search(dirs: &Vec<&str>, names: &Vec<&str>, home: &str) -> (r: Vec<String>)
    ensures
        string_views(r@) == search_paths(views_of(dirs@), views_of(names@), home@),
{
    let mut out: Vec<String> = Vec::new();
    let ghost ds = views_of(dirs@);
    let ghost ns = views_of(names@);
    assert(ds.take(0).len() == 0);
    assert(string_views(out@) =~= search_paths(ds.take(0), ns, home@));
    for i in 0..dirs.len()
        invariant
            ds == views_of(dirs@),
            ns == views_of(names@),
            string_views(out@) == search_paths(ds.take(i as int), ns, home@),
    {
        let dir = parse_path(dirs[i], home);
        let ghost before = string_views(out@);
        assert(ds.take(i + 1).drop_last() =~= ds.take(i as int));
        assert(ds.take(i + 1).last() == dirs@[i as int]@);
        for j in 0..names.len()
            invariant
                ds == views_of(dirs@),
                ns == views_of(names@),
                i < dirs.len(),
                dir@ == expand_home(dirs@[i as int]@, home@),
                string_views(out@) == before + ns.take(j as int).map_values(
                    |n: Seq<char>| join_path(dir@, n),
                ),
        {
            let p = join(dir.as_str(), names[j]);
            let ghost prev = out@;
            out.push(p);
            assert(string_views(out@) =~= string_views(prev).push(p@));
            assert(ns.take(j + 1).map_values(|n: Seq<char>| join_path(dir@, n)) =~= ns.take(
                j as int,
            ).map_values(|n: Seq<char>| join_path(dir@, n)).push(p@));
            assert(string_views(out@) =~= before + ns.take(j + 1).map_values(
                |n: Seq<char>| join_path(dir@, n),
            ));
        }
        assert(ns.take(names.len() as int) =~= ns);
    }
    assert(ds.take(dirs.len() as int) =~= ds);
    out
}

/// The first candidate whose flag in `present` is set, if any.
pub fn pick_first(candidates: &Vec<String>, present: &Vec<bool>) -> (r: Option<String>)
    requires
        candidates.len() == present.len(),
    ensures
        opt_view(r) == first_present(string_views(candidates@), present@),
{
    let ghost cs = string_views(candidates@);
    let mut i: usize = 0;
    assert(cs.skip(0) =~= cs);
    assert(present@.skip(0) =~= present@);
    while i < candidates.len()
        invariant
            candidates.len() == present.len(),
            cs == string_views(candidates@),
            i <= candidates.len(),
            first_present(cs, present@) == first_present(cs.skip(i as int), present@.skip(i as int)),
        decreases candidates.len() - i,
    {
        if present[i] {
            return Some(candidates[i].clone());
        }
        assert(cs.skip(i as int).drop_first() =~= cs.skip(i + 1));
        assert(present@.skip(i as int).drop_first() =~= present@.skip(i + 1));
        i = i + 1;
    }
    None
}

} // verus!
