//! Finding the executables and the icon of an installed application.
use vstd::prelude::*;
use crate::error::InstallError;
use crate::paths::{joined, path_join};
use crate::text::str_eq;

verus! {

/// An entry of a directory listing, with its permission bits.
#[derive(Clone, Debug)]
pub struct FileInfo {
    pub name: String,
    /// It is a regular file.
    pub is_file: bool,
    /// Its permission bits.
    pub mode: u32,
}

/// A regular file that its owner, its group or anyone may execute.
pub open spec fn is_executable(f: FileInfo) -> bool {
    f.is_file && f.mode & 0o111u32 != 0
}

/// The paths under `dir` of the executable entries, in listing order.
pub open spec fn executables_of(dir: Seq<char>, files: Seq<FileInfo>) -> Seq<Seq<char>>
    decreases files.len(),
{
    if files.len() == 0 {
        Seq::<Seq<char>>::empty()
    } else {
        let r = executables_of(dir, files.drop_last());
        if is_executable(files.last()) {
            r.push(joined(dir, files.last().name@))
        } else {
            r
        }
    }
}

/// The directory scanned for executables: `bin` under the application
/// directory where there is one, else the application directory itself.
pub open spec fn scan_dir_of(app_dir: Seq<char>, has_bin: bool) -> Seq<char> {
    if has_bin {
        joined(app_dir, "bin"@)
    } else {
        app_dir
    }
}

/// The places an icon is looked for, in order.
pub open spec fn icon_candidates_of(app_dir: Seq<char>) -> Seq<Seq<char>> {
    let bin = joined(app_dir, "bin"@);
    seq![
        joined(bin, "icon.png"@),
        joined(bin, "studio.png"@),
        joined(app_dir, "icon.png"@),
        joined(app_dir, "icon.svg"@),
        joined(bin, "icon.svg"@),
    ]
}

/// The first of `cands` that is among `existing`.
pub open spec fn first_present(cands: Seq<Seq<char>>, existing: Seq<Seq<char>>) -> Option<Seq<char>>
    decreases cands.len(),
{
    if cands.len() == 0 {
        None
    } else if existing.contains(cands[0]) {
        Some(cands[0])
    } else {
        first_present(cands.drop_first(), existing)
    }
}

/// The directory to scan for executables.
pub fn scan_dir(app_dir: &str, has_bin: bool) -> (r: String)
    ensures
        r@ == scan_dir_of(app_dir@, has_bin),
{
    if has_bin {
        path_join(app_dir, "bin")
    } else {
        String::from_str(app_dir)
    }
}

/// The executables among the listed entries of `dir`, as paths under `dir`
/// in listing order; `NoExecutableFound` where there is none.
pub fn find_executables_in_bin(dir: &str, files: &Vec<FileInfo>) -> (r: Result<Vec<String>, InstallError>)
    ensures
        executables_of(dir@, files@).len() == 0 ==> r == Err::<Vec<String>, InstallError>(
            InstallError::NoExecutableFound,
        ),
        executables_of(dir@, files@).len() > 0 ==> (r matches Ok(v) && v.deep_view()
            == executables_of(dir@, files@)),
{
    let mut found: Vec<String> = Vec::new();
    let mut i: usize = 0;
    assert(files@.take(0) =~= Seq::<FileInfo>::empty());
    while i < files.len()
        invariant
            i <= files@.len(),
            found.deep_view() == executables_of(dir@, files@.take(i as int)),
        decreases files@.len() - i,
    {
        let ghost pre = files@.take(i + 1);
        assert(pre.drop_last() =~= files@.take(i as int));
        assert(pre.last() == files@[i as int]);
        let f = &files[i];
        let ghost before = found.deep_view();
        if f.is_file && f.mode & 0o111u32 != 0 {
            found.push(path_join(dir, f.name.as_str()));
            assert(found.deep_view() =~~= before.push(joined(dir@, f.name@)));
        }
        i = i + 1;
    }
    assert(files@.take(i as int) =~= files@);
    if found.len() == 0 {
        Err(InstallError::NoExecutableFound)
    } else {
        Ok(found)
    }
}

/// The places an icon is looked for under `app_dir`, in order.
pub fn icon_candidates(app_dir: &str) -> (r: Vec<String>)
    ensures
        r.deep_view() == icon_candidates_of(app_dir@),
{
    let bin = path_join(app_dir, "bin");
    let mut r: Vec<String> = Vec::new();
    r.push(path_join(bin.as_str(), "icon.png"));
    r.push(path_join(bin.as_str(), "studio.png"));
    r.push(path_join(app_dir, "icon.png"));
    r.push(path_join(app_dir, "icon.svg"));
    r.push(path_join(bin.as_str(), "icon.svg"));
    assert(r.deep_view() =~~= icon_candidates_of(app_dir@));
    r
}

fn is_listed(p: &str, existing: &Vec<String>) -> (r: bool)
    ensures
        r == existing.deep_view().contains(p@),
{
    let mut i: usize = 0;
    while i < existing.len()
        invariant
            i <= existing@.len(),
            forall|j: int| 0 <= j < i ==> existing.deep_view()[j] != p@,
        decreases existing@.len() - i,
    {
        if str_eq(existing[i].as_str(), p) {
            assert(existing.deep_view()[i as int] == p@);
            return true;
        }
        i = i + 1;
    }
    false
}

/// The first icon candidate of `app_dir` that is among the `existing` paths.
pub fn find_icon(app_dir: &str, existing: &Vec<String>) -> (r: Option<String>)
    ensures
        r matches Some(p) ==> first_present(icon_candidates_of(app_dir@), existing.deep_view()) == Some(p@),
        r is None ==> first_present(icon_candidates_of(app_dir@), existing.deep_view()) is None,
{
    let cands = icon_candidates(app_dir);
    let mut c: usize = 0;
    assert(cands.deep_view().skip(0) =~= cands.deep_view());
    while c < cands.len()
        invariant
            c <= cands@.len(),
            first_present(icon_candidates_of(app_dir@), existing.deep_view()) == first_present(
                cands.deep_view().skip(c as int),
                existing.deep_view(),
            ),
        decreases cands@.len() - c,
    {
        let ghost rest = cands.deep_view().skip(c as int);
        assert(rest.drop_first() =~= cands.deep_view().skip(c + 1));
        assert(rest[0] == cands@[c as int]@);
        if is_listed(cands[c].as_str(), existing) {
            return Some(cands[c].clone());
        }
        c = c + 1;
    }
    assert(cands.deep_view().skip(c as int) =~= Seq::<Seq<char>>::empty());
    None
}

/// The icon of the desktop entry: the first existing candidate, or
/// `bin/icon.png` under `app_dir` where none exists.
pub fn icon_path(app_dir: &str, existing: &Vec<String>) -> (r: String)
    ensures
        r@ == match first_present(icon_candidates_of(app_dir@), existing.deep_view()) {
            Some(p) => p,
            None => icon_candidates_of(app_dir@)[0],
        },
{
    match find_icon(app_dir, existing) {
        Some(p) => p,
        None => {
            let bin = path_join(app_dir, "bin");
            path_join(bin.as_str(), "icon.png")
        },
    }
}

} // verus!
