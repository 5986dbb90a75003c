//! Paths as strings: joining, and the file name, stem and extension of a path.
use vstd::prelude::*;
use crate::text::{split, str_eq, tokens, Separators};

verus! {

/// `base` extended by `name`, as a path: an absolute `name` replaces `base`,
/// and a `/` is put between the two unless `base` is empty or ends with one.
pub open spec fn joined(base: Seq<char>, name: Seq<char>) -> Seq<char> {
    if name.len() > 0 && name[0] == '/' {
        name
    } else if base.len() == 0 {
        name
    } else if base.last() == '/' {
        base + name
    } else {
        base + seq!['/'] + name
    }
}

/// The last component of a path that is neither empty nor `.`.
pub open spec fn last_component(comps: Seq<Seq<char>>) -> Option<Seq<char>>
    decreases comps.len(),
{
    if comps.len() == 0 {
        None
    } else if comps.last().len() == 0 || comps.last() == "."@ {
        last_component(comps.drop_last())
    } else {
        Some(comps.last())
    }
}

/// The final component of a path, if it names something (not the root, not
/// `.` and not `..`).
pub open spec fn file_name_of(p: Seq<char>) -> Option<Seq<char>> {
    match last_component(tokens(p, set!['/'])) {
        Some(c) => if c == ".."@ {
            None
        } else {
            Some(c)
        },
        None => None,
    }
}

/// The index of the last `c` in `s`, or -1.
pub open spec fn last_index_of(s: Seq<char>, c: char) -> int
    decreases s.len(),
{
    if s.len() == 0 {
        -1
    } else if s.last() == c {
        s.len() - 1
    } else {
        last_index_of(s.drop_last(), c)
    }
}

/// A file name without its extension: the part before the last `.`, unless
/// that `.` is the first character or there is none.
pub open spec fn stem_of(name: Seq<char>) -> Seq<char> {
    let d = last_index_of(name, '.');
    if d <= 0 {
        name
    } else {
        name.take(d)
    }
}

/// The extension of a file name: what follows the last `.`, where that `.` is
/// not the first character.
pub open spec fn extension_of(name: Seq<char>) -> Option<Seq<char>> {
    let d = last_index_of(name, '.');
    if d <= 0 {
        None
    } else {
        Some(name.skip(d + 1))
    }
}

/// `s` with every occurrence of `.tar` taken out, read from left to right.
pub open spec fn without_tar(s: Seq<char>) -> Seq<char>
    decreases s.len(),
{
    if s.len() < 4 {
        s
    } else if s.take(4) == ".tar"@ {
        without_tar(s.skip(4))
    } else {
        seq![s[0]] + without_tar(s.skip(1))
    }
}

/// The stem of an archive: its file name without the last extension and
/// without any `.tar`.
pub open spec fn archive_stem_of(archive: Seq<char>) -> Option<Seq<char>> {
    match file_name_of(archive) {
        Some(n) => Some(without_tar(stem_of(n))),
        None => None,
    }
}

/// Extends `base` by `name`, as a path.
pub fn path_join(base: &str, name: &str) -> (r: String)
    ensures
        r@ == joined(base@, name@),
{
    let nl = name.unicode_len();
    let bl = base.unicode_len();
    if (nl > 0 && name.get_char(0) == '/') || bl == 0 {
        String::from_str(name)
    } else if base.get_char(bl - 1) == '/' {
        let r = String::from_str(base);
        r.concat(name)
    } else {
        let slash = "/";
        proof {
            reveal_strlit("/");
            assert(slash@ =~= seq!['/']);
        }
        let r = String::from_str(base);
        r.concat(slash).concat(name)
    }
}

/// The final component of a path, if it names something.
pub fn file_name(p: &str) -> (r: Option<String>)
    ensures
        r matches Some(n) ==> file_name_of(p@) == Some(n@),
        r is None ==> file_name_of(p@) is None,
{
    let comps = split(p, Separators::Path);
    assert(Separators::Path.chars() == set!['/']);
    let mut k: usize = comps.len();
    assert(comps.deep_view().take(k as int) =~= comps.deep_view());
    while k > 0
        invariant
            k <= comps@.len(),
            comps.deep_view() == tokens(p@, set!['/']),
            last_component(comps.deep_view()) == last_component(comps.deep_view().take(k as int)),
        decreases k,
    {
        let ghost pre = comps.deep_view().take(k as int);
        assert(pre.drop_last() =~= comps.deep_view().take(k - 1));
        let c = comps[k - 1].as_str();
        assert(pre.last() == c@);
        if c.unicode_len() != 0 && !str_eq(c, ".") {
            if str_eq(c, "..") {
                return None;
            }
            return Some(String::from_str(c));
        }
        k = k - 1;
    }
    assert(comps.deep_view().take(0) =~= Seq::<Seq<char>>::empty());
    None
}

/// One past the index of the last `.` in `name`, or 0 where it has none.
fn last_dot(name: &str) -> (d: usize)
    ensures
        d as int - 1 == last_index_of(name@, '.'),
        d <= name@.len(),
{
    let n = name.unicode_len();
    let mut d: usize = n;
    assert(name@.take(n as int) =~= name@);
    while d > 0 && name.get_char(d - 1) != '.'
        invariant
            d <= n == name@.len(),
            last_index_of(name@, '.') == last_index_of(name@.take(d as int), '.'),
        decreases d,
    {
        assert(name@.take(d as int).drop_last() =~= name@.take(d - 1));
        d = d - 1;
    }
    if d > 0 {
        assert(name@.take(d as int).last() == '.');
    }
    d
}

/// The part of a file name before its last `.`, unless that `.` is the first
/// character or there is none.
pub fn file_stem(name: &str) -> (r: String)
    ensures
        r@ == stem_of(name@),
{
    let d = last_dot(name);
    if d <= 1 {
        String::from_str(name)
    } else {
        String::from_str(name.substring_char(0, d - 1))
    }
}

/// What follows the last `.` of a file name, where that `.` is not the first
/// character.
pub fn extension(name: &str) -> (r: Option<String>)
    ensures
        r matches Some(e) ==> extension_of(name@) == Some(e@),
        r is None ==> extension_of(name@) is None,
{
    let d = last_dot(name);
    if d <= 1 {
        None
    } else {
        Some(String::from_str(name.substring_char(d, name.unicode_len())))
    }
}

/// `s` with every `.tar` taken out.
pub fn remove_tar(s: &str) -> (r: String)
    ensures
        r@ == without_tar(s@),
{
    let n = s.unicode_len();
    let mut r = String::new();
    let mut start: usize = 0;
    let mut i: usize = 0;
    assert(s@.skip(0) =~= s@);
    assert(s@.subrange(0, 0) =~= Seq::<char>::empty());
    assert(r@ =~= Seq::<char>::empty());
    while n - i >= 4
        invariant
            n == s@.len(),
            start <= i <= n,
            without_tar(s@) == r@ + s@.subrange(start as int, i as int) + without_tar(s@.skip(i as int)),
        decreases n - i,
    {
        let ghost rest = s@.skip(i as int);
        let w = s.substring_char(i, i + 4);
        assert(w@ =~= rest.take(4));
        if str_eq(w, ".tar") {
            r.append(s.substring_char(start, i));
            assert(rest.skip(4) =~= s@.skip(i + 4));
            i = i + 4;
            start = i;
            assert(s@.subrange(start as int, i as int) =~= Seq::<char>::empty());
        } else {
            assert(rest.skip(1) =~= s@.skip(i + 1));
            assert(s@.subrange(start as int, i + 1) =~= s@.subrange(start as int, i as int) + seq![rest[0]]);
            i = i + 1;
        }
    }
    r.append(s.substring_char(start, n));
    assert(r@ =~= without_tar(s@)) by {
        assert(without_tar(s@.skip(i as int)) == s@.skip(i as int));
        assert(s@.subrange(start as int, i as int) + s@.skip(i as int) =~= s@.subrange(start as int, n as int));
    }
    r
}

/// The stem of an archive path: its file name without the last extension and
/// without any `.tar`; `None` where the path has no file name.
pub fn archive_stem(archive: &str) -> (r: Option<String>)
    ensures
        r matches Some(t) ==> archive_stem_of(archive@) == Some(t@),
        r is None ==> archive_stem_of(archive@) is None,
{
    match file_name(archive) {
        Some(n) => {
            let st = file_stem(n.as_str());
            Some(remove_tar(st.as_str()))
        },
        None => None,
    }
}

} // verus!
