//! Placing freshly extracted content under the install root: deciding the
//! single application directory and how the staged entries reach it.
use vstd::prelude::*;
use crate::error::InstallError;
use crate::names::{dir_name_from_stem, extract_dir_name_from_stem};
use crate::paths::{archive_stem, archive_stem_of, joined, path_join};
use crate::text::str_eq;

verus! {

/// The kind of an entry found at the top of the staging directory.
#[derive(Clone, Copy, PartialEq, Eq, Debug)]
pub enum EntryKind {
    Dir,
    File,
    /// Anything else; it is left where it is.
    Other,
}

/// An entry at the top of the staging directory.
#[derive(Clone, Debug)]
pub struct Entry {
    pub name: String,
    pub kind: EntryKind,
}

/// One staged entry moved into the application directory.
#[derive(Clone, Debug)]
pub struct Move {
    pub name: String,
    pub kind: EntryKind,
    pub from: String,
    pub to: String,
}

/// How the staged content becomes the application directory. In both forms
/// whatever stands at `target` is removed first.
#[derive(Clone, Debug)]
pub enum Placement {
    /// The one staged directory is renamed to `target`.
    Rename { name: String, from: String, target: String },
    /// `target` is created empty and each staged entry is moved into it.
    Gather { name: String, target: String, moves: Vec<Move> },
}

/// The names of the entries of `kind`, in listing order.
pub open spec fn names_of_kind(entries: Seq<Entry>, kind: EntryKind) -> Seq<Seq<char>>
    decreases entries.len(),
{
    if entries.len() == 0 {
        Seq::<Seq<char>>::empty()
    } else {
        let r = names_of_kind(entries.drop_last(), kind);
        if entries.last().kind == kind {
            r.push(entries.last().name@)
        } else {
            r
        }
    }
}

/// A name that stands for a child of a directory.
pub open spec fn is_child_name(n: Seq<char>) -> bool {
    n.len() > 0 && n != "."@ && n != ".."@ && !n.contains('/')
}

/// The name of the directory that gathers loose staged entries: the archive
/// stem trimmed at its first version token, or the whole stem where nothing
/// would remain.
pub open spec fn gathered_name(archive: Seq<char>) -> Option<Seq<char>> {
    match archive_stem_of(archive) {
        Some(stem) => {
            let d = dir_name_from_stem(stem);
            let n = if d.len() == 0 {
                stem
            } else {
                d
            };
            if is_child_name(n) {
                Some(n)
            } else {
                None
            }
        },
        None => None,
    }
}

/// `m` moves the staged entry `name` of `kind` into `target`.
pub open spec fn is_move(m: Move, staging: Seq<char>, target: Seq<char>, name: Seq<char>, kind: EntryKind) -> bool {
    &&& m.name@ == name
    &&& m.kind == kind
    &&& m.from@ == joined(staging, name)
    &&& m.to@ == joined(target, name)
}

/// `moves` takes every staged directory, then every staged file, into `target`.
pub open spec fn moves_all(
    moves: Seq<Move>,
    staging: Seq<char>,
    target: Seq<char>,
    dirs: Seq<Seq<char>>,
    files: Seq<Seq<char>>,
) -> bool {
    &&& moves.len() == dirs.len() + files.len()
    &&& forall|i: int| 0 <= i < dirs.len() ==> is_move(#[trigger] moves[i], staging, target, dirs[i], EntryKind::Dir)
    &&& forall|i: int|
        0 <= i < files.len() ==> is_move(
            #[trigger] moves[dirs.len() + i],
            staging,
            target,
            files[i],
            EntryKind::File,
        )
}

/// `r` is the placement of the staged `entries` of `staging` under `root`,
/// for the archive at `archive`.
pub open spec fn is_placement(
    staging: Seq<char>,
    root: Seq<char>,
    archive: Seq<char>,
    entries: Seq<Entry>,
    r: Result<Placement, InstallError>,
) -> bool {
    let dirs = names_of_kind(entries, EntryKind::Dir);
    let files = names_of_kind(entries, EntryKind::File);
    if entries.len() == 0 {
        r == Err::<Placement, InstallError>(InstallError::EmptyArchive)
    } else if dirs.len() == 1 && files.len() == 0 {
        match r {
            Ok(Placement::Rename { name, from, target }) => {
                &&& name@ == dirs[0]
                &&& from@ == joined(staging, dirs[0])
                &&& target@ == joined(root, dirs[0])
            },
            _ => false,
        }
    } else {
        match gathered_name(archive) {
            None => r == Err::<Placement, InstallError>(InstallError::InvalidName),
            Some(n) => match r {
                Ok(Placement::Gather { name, target, moves }) => {
                    &&& name@ == n
                    &&& target@ == joined(root, n)
                    &&& moves_all(moves@, staging, target@, dirs, files)
                },
                _ => false,
            },
        }
    }
}

/// What the application directory holds once a placement is carried out.
pub ghost enum Installed {
    /// The staged directory at this path, moved whole.
    Moved(Seq<char>),
    /// A fresh directory holding these staged entries, by name and kind.
    Filled(Seq<(Seq<char>, EntryKind)>),
}

/// The name of the application directory under the install root.
pub open spec fn placed_name(p: Placement) -> Seq<char> {
    match p {
        Placement::Rename { name, .. } => name@,
        Placement::Gather { name, .. } => name@,
    }
}

/// The name and kind of each moved entry.
pub open spec fn move_records(moves: Seq<Move>) -> Seq<(Seq<char>, EntryKind)> {
    Seq::new(moves.len(), |i: int| (moves[i].name@, moves[i].kind))
}

/// What the application directory holds after `p`.
pub open spec fn installed(p: Placement) -> Installed {
    match p {
        Placement::Rename { from, .. } => Installed::Moved(from@),
        Placement::Gather { moves, .. } => Installed::Filled(move_records(moves@)),
    }
}

/// The staged paths that `p` takes away from the staging directory.
pub open spec fn sources(p: Placement) -> Set<Seq<char>> {
    match p {
        Placement::Rename { from, .. } => set![from@],
        Placement::Gather { moves, .. } => Set::new(|f: Seq<char>| exists|i: int| 0 <= i < moves@.len() && moves@[i].from@ == f),
    }
}

/// The names of the staged entries still in `staging` after `p`.
pub open spec fn left_in_staging(staging: Seq<char>, entries: Seq<Entry>, p: Placement) -> Set<Seq<char>> {
    Set::new(|n: Seq<char>| exists|i: int| 0 <= i < entries.len() && entries[i].name@ == n && !sources(p).contains(joined(staging, n)))
}

/// The children of the install root, by name, after `p`: whatever stood
/// under the application directory's name is replaced.
pub open spec fn root_after(root: Map<Seq<char>, Installed>, p: Placement) -> Map<Seq<char>, Installed> {
    root.insert(placed_name(p), installed(p))
}

/// The names of the entries held by a filled application directory.
pub open spec fn record_names(c: Seq<(Seq<char>, EntryKind)>) -> Set<Seq<char>> {
    Set::new(|n: Seq<char>| exists|i: int| 0 <= i < c.len() && c[i].0 == n)
}

proof fn lemma_names_of_kind_member(entries: Seq<Entry>, kind: EntryKind, i: int)
    requires
        0 <= i < names_of_kind(entries, kind).len(),
    ensures
        exists|j: int| 0 <= j < entries.len() && entries[j].name@ == names_of_kind(entries, kind)[i] && entries[j].kind == kind,
    decreases entries.len(),
{
    let r = names_of_kind(entries.drop_last(), kind);
    if i < r.len() {
        lemma_names_of_kind_member(entries.drop_last(), kind, i);
        let j = choose|j: int| 0 <= j < entries.drop_last().len() && entries.drop_last()[j].name@ == r[i] && entries.drop_last()[j].kind == kind;
        assert(entries[j] == entries.drop_last()[j]);
    } else {
        assert(entries[entries.len() - 1] == entries.last());
    }
}

/// Where the staging directory holds exactly one directory and no file, the
/// application directory takes that directory's own name, and the directory
/// leaves the staging directory.
pub proof fn lemma_single_dir_placement(
    staging: Seq<char>,
    root: Seq<char>,
    archive: Seq<char>,
    entries: Seq<Entry>,
    r: Result<Placement, InstallError>,
)
    requires
        names_of_kind(entries, EntryKind::Dir).len() == 1,
        names_of_kind(entries, EntryKind::File).len() == 0,
        is_placement(staging, root, archive, entries, r),
    ensures
        r is Ok,
        r->Ok_0 is Rename,
        placed_name(r->Ok_0) == names_of_kind(entries, EntryKind::Dir)[0],
        r->Ok_0->Rename_target@ == joined(root, names_of_kind(entries, EntryKind::Dir)[0]),
        !left_in_staging(staging, entries, r->Ok_0).contains(names_of_kind(entries, EntryKind::Dir)[0]),
{
    lemma_names_of_kind_member(entries, EntryKind::Dir, 0);
}

/// Where the staging directory holds only files, the application directory
/// is created fresh and holds exactly those file names, and no directory.
pub proof fn lemma_flat_files_placement(
    staging: Seq<char>,
    root: Seq<char>,
    archive: Seq<char>,
    entries: Seq<Entry>,
    r: Result<Placement, InstallError>,
)
    requires
        names_of_kind(entries, EntryKind::Dir).len() == 0,
        names_of_kind(entries, EntryKind::File).len() > 0,
        gathered_name(archive) is Some,
        is_placement(staging, root, archive, entries, r),
    ensures
        r is Ok,
        r->Ok_0 is Gather,
        installed(r->Ok_0) is Filled,
        record_names(installed(r->Ok_0)->Filled_0) == names_of_kind(entries, EntryKind::File).to_set(),
        forall|i: int|
            0 <= i < installed(r->Ok_0)->Filled_0.len() ==> (#[trigger] installed(r->Ok_0)->Filled_0[i]).1
                == EntryKind::File,
{
    let files = names_of_kind(entries, EntryKind::File);
    lemma_names_of_kind_member(entries, EntryKind::File, 0);
    let moves = r->Ok_0->Gather_moves@;
    let target = r->Ok_0->Gather_target@;
    let c = move_records(moves);
    assert forall|i: int| 0 <= i < c.len() implies (#[trigger] c[i]).1 == EntryKind::File by {
        assert(moves[0 + i] == moves[i]);
    }
    assert forall|n: Seq<char>| record_names(c).contains(n) <==> files.to_set().contains(n) by {
        if record_names(c).contains(n) {
            let i = choose|i: int| 0 <= i < c.len() && c[i].0 == n;
            assert(moves[0 + i] == moves[i]);
            assert(files[i] == n);
        }
        if files.to_set().contains(n) {
            let i = choose|i: int| 0 <= i < files.len() && files[i] == n;
            assert(is_move(moves[0 + i], staging, target, files[i], EntryKind::File));
            assert(c[i].0 == n);
        }
    }
    assert(record_names(c) =~= files.to_set());
}

/// Placing the same archive's content under the same install root twice
/// replaces the application directory: the second run puts the same thing
/// under the same name, and the root gains at most that one name.
pub proof fn lemma_reinstall_replaces(
    staging: Seq<char>,
    root: Seq<char>,
    archive: Seq<char>,
    entries: Seq<Entry>,
    first: Result<Placement, InstallError>,
    second: Result<Placement, InstallError>,
    children: Map<Seq<char>, Installed>,
)
    requires
        is_placement(staging, root, archive, entries, first),
        is_placement(staging, root, archive, entries, second),
        first is Ok,
    ensures
        second is Ok,
        placed_name(second->Ok_0) == placed_name(first->Ok_0),
        root_after(root_after(children, first->Ok_0), second->Ok_0) == root_after(children, first->Ok_0),
        root_after(children, first->Ok_0).dom() == children.dom().insert(placed_name(first->Ok_0)),
{
    let p = first->Ok_0;
    let q = second->Ok_0;
    if p is Gather {
        let dirs = names_of_kind(entries, EntryKind::Dir);
        let a = p->Gather_moves@;
        let b = q->Gather_moves@;
        assert forall|i: int| 0 <= i < a.len() implies a[i].name@ == b[i].name@ && a[i].kind == b[i].kind by {
            if i < dirs.len() {
            } else {
                assert(a[dirs.len() + (i - dirs.len())] == a[i]);
                assert(b[dirs.len() + (i - dirs.len())] == b[i]);
            }
        }
        assert(move_records(a) =~= move_records(b));
    }
    assert(installed(p) == installed(q));
    assert(root_after(root_after(children, p), q) =~= root_after(children, p));
    assert(root_after(children, p).dom() =~= children.dom().insert(placed_name(p)));
}

fn partition(entries: &Vec<Entry>) -> (r: (Vec<String>, Vec<String>))
    ensures
        r.0.deep_view() == names_of_kind(entries@, EntryKind::Dir),
        r.1.deep_view() == names_of_kind(entries@, EntryKind::File),
{
    let mut dirs: Vec<String> = Vec::new();
    let mut files: Vec<String> = Vec::new();
    let mut i: usize = 0;
    assert(entries@.take(0) =~= Seq::<Entry>::empty());
    while i < entries.len()
        invariant
            i <= entries@.len(),
            dirs.deep_view() == names_of_kind(entries@.take(i as int), EntryKind::Dir),
            files.deep_view() == names_of_kind(entries@.take(i as int), EntryKind::File),
        decreases entries@.len() - i,
    {
        let ghost pre = entries@.take(i + 1);
        assert(pre.drop_last() =~= entries@.take(i as int));
        assert(pre.last() == entries@[i as int]);
        let e = &entries[i];
        let ghost d0 = dirs.deep_view();
        let ghost f0 = files.deep_view();
        match e.kind {
            EntryKind::Dir => {
                dirs.push(e.name.clone());
                assert(dirs.deep_view() =~~= d0.push(e.name@));
            },
            EntryKind::File => {
                files.push(e.name.clone());
                assert(files.deep_view() =~~= f0.push(e.name@));
            },
            EntryKind::Other => {},
        }
        i = i + 1;
    }
    assert(entries@.take(i as int) =~= entries@);
    (dirs, files)
}

/// Appends a move into `target` for each staged name of `kind`.
fn push_moves(moves: &mut Vec<Move>, names: &Vec<String>, kind: EntryKind, staging: &str, target: &str)
    ensures
        final(moves)@.len() == old(moves)@.len() + names@.len(),
        forall|i: int| 0 <= i < old(moves)@.len() ==> final(moves)@[i] == old(moves)@[i],
        forall|i: int|
            0 <= i < names@.len() ==> is_move(
                #[trigger] final(moves)@[old(moves)@.len() + i],
                staging@,
                target@,
                names@[i]@,
                kind,
            ),
{
    let ghost start = moves@.len();
    let ghost before = moves@;
    let mut i: usize = 0;
    while i < names.len()
        invariant
            start == old(moves)@.len(),
            before == old(moves)@,
            i <= names@.len(),
            moves@.len() == start + i,
            forall|j: int| 0 <= j < start ==> moves@[j] == before[j],
            forall|j: int|
                0 <= j < i ==> is_move(#[trigger] moves@[start + j], staging@, target@, names@[j]@, kind),
        decreases names@.len() - i,
    {
        let n = &names[i];
        let m = Move {
            name: n.clone(),
            kind,
            from: path_join(staging, n.as_str()),
            to: path_join(target, n.as_str()),
        };
        moves.push(m);
        i = i + 1;
    }
}

/// The directory name that gathers loose entries for `archive`.
pub fn gather_name(archive: &str) -> (r: Option<String>)
    ensures
        r matches Some(n) ==> gathered_name(archive@) == Some(n@),
        r is None ==> gathered_name(archive@) is None,
{
    match archive_stem(archive) {
        None => None,
        Some(stem) => {
            let d = extract_dir_name_from_stem(stem.as_str());
            let n = if d.unicode_len() == 0 {
                stem
            } else {
                d
            };
            let s = n.as_str();
            if s.unicode_len() == 0 || str_eq(s, ".") || str_eq(s, "..") || has_slash(s) {
                None
            } else {
                Some(n)
            }
        },
    }
}

fn has_slash(s: &str) -> (r: bool)
    ensures
        r == s@.contains('/'),
{
    let n = s.unicode_len();
    let mut i: usize = 0;
    while i < n
        invariant
            n == s@.len(),
            i <= n,
            forall|j: int| 0 <= j < i ==> s@[j] != '/',
        decreases n - i,
    {
        if s.get_char(i) == '/' {
            return true;
        }
        i = i + 1;
    }
    false
}

/// Decides where the staged `entries` of `staging` go under `install_dir`:
/// one staged directory and nothing else is renamed into place under its own
/// name; otherwise every staged directory and file is gathered into a fresh
/// directory named after the archive.
pub fn plan_extraction(staging: &str, install_dir: &str, archive: &str, entries: &Vec<Entry>) -> (r:
    Result<Placement, InstallError>)
    ensures
        is_placement(staging@, install_dir@, archive@, entries@, r),
{
    if entries.len() == 0 {
        return Err(InstallError::EmptyArchive);
    }
    let (dirs, files) = partition(entries);
    if dirs.len() == 1 && files.len() == 0 {
        let name = dirs[0].clone();
        let from = path_join(staging, name.as_str());
        let target = path_join(install_dir, name.as_str());
        return Ok(Placement::Rename { name, from, target });
    }
    match gather_name(archive) {
        None => Err(InstallError::InvalidName),
        Some(name) => {
            let target = path_join(install_dir, name.as_str());
            let mut moves: Vec<Move> = Vec::new();
            push_moves(&mut moves, &dirs, EntryKind::Dir, staging, target.as_str());
            let ghost after_dirs = moves@;
            push_moves(&mut moves, &files, EntryKind::File, staging, target.as_str());
            proof {
                let dv = names_of_kind(entries@, EntryKind::Dir);
                let fv = names_of_kind(entries@, EntryKind::File);
                assert(dv.len() == dirs@.len());
                assert forall|i: int| 0 <= i < dv.len() implies is_move(
                    #[trigger] moves@[i],
                    staging@,
                    target@,
                    dv[i],
                    EntryKind::Dir,
                ) by {
                    assert(moves@[i] == after_dirs[0 + i]);
                    assert(dv[i] == dirs@[i]@);
                }
                assert forall|i: int| 0 <= i < fv.len() implies is_move(
                    #[trigger] moves@[dv.len() + i],
                    staging@,
                    target@,
                    fv[i],
                    EntryKind::File,
                ) by {
                    assert(fv[i] == files@[i]@);
                }
            }
            Ok(Placement::Gather { name, target, moves })
        },
    }
}

} // verus!
