//! Finding the application directory among the children of an install root
//! that other installations share, when extraction wrote there directly.
use vstd::prelude::*;
use crate::error::InstallError;
use crate::names::{kept_len, lemma_kept_len};
use crate::paths::{archive_stem, archive_stem_of, joined, path_join};
use crate::text::{
    contains_ci, contains_ignore_case, first_is_digit, join, join_first, name_seps, split,
    str_eq, tokens, Separators, lemma_tokens_nonempty,
};
use crate::names::platform_tag;
use crate::names::keeps;

verus! {

/// A subdirectory of the install root.
#[derive(Clone, Debug)]
pub struct Child {
    pub name: String,
    /// It has a `bin` subdirectory.
    pub has_bin: bool,
    /// Its last modification time; larger is more recent.
    pub modified: u64,
}

/// The names tried in turn for an archive stem: the stem itself; the stem
/// with every separator turned into `-`, then into `_`; the tokens before
/// the first version or platform tag joined with `-`, then with `_`; and the
/// first token alone.
pub open spec fn candidates(stem: Seq<char>) -> Seq<Seq<char>> {
    let toks = tokens(stem, name_seps());
    let kept = toks.take(kept_len(toks, true) as int);
    seq![stem, join(toks, '-'), join(toks, '_'), join(kept, '-'), join(kept, '_'), toks[0]]
}

/// A child of this name has a `bin` subdirectory.
pub open spec fn has_named_bin(children: Seq<Child>, n: Seq<char>) -> bool {
    exists|i: int| 0 <= i < children.len() && children[i].name@ == n && children[i].has_bin
}

/// The first of `cands` that names a child with a `bin` subdirectory.
pub open spec fn first_named(children: Seq<Child>, cands: Seq<Seq<char>>) -> Option<Seq<char>>
    decreases cands.len(),
{
    if cands.len() == 0 {
        None
    } else if has_named_bin(children, cands[0]) {
        Some(cands[0])
    } else {
        first_named(children, cands.drop_first())
    }
}

/// A child that a scan considers: with a `bin` subdirectory where `need_bin`,
/// and with `token` in its name, up to ASCII case, where one is given.
pub open spec fn eligible(c: Child, need_bin: bool, token: Option<Seq<char>>) -> bool {
    &&& (need_bin ==> c.has_bin)
    &&& (token matches Some(t) ==> contains_ci(c.name@, t))
}

/// Some child is eligible.
pub open spec fn any_eligible(children: Seq<Child>, need_bin: bool, token: Option<Seq<char>>) -> bool {
    exists|j: int| 0 <= j < children.len() && eligible(#[trigger] children[j], need_bin, token)
}

/// Child `i` is the most recently modified eligible one; of equally recent
/// ones, the first listed.
pub open spec fn is_most_recent(children: Seq<Child>, i: int, need_bin: bool, token: Option<Seq<char>>) -> bool {
    &&& 0 <= i < children.len()
    &&& eligible(children[i], need_bin, token)
    &&& forall|j: int|
        0 <= j < children.len() && eligible(#[trigger] children[j], need_bin, token) ==> {
            &&& children[j].modified <= children[i].modified
            &&& (children[j].modified == children[i].modified ==> i <= j)
        }
}

/// `r` is the most recent eligible child's path under `root`.
pub open spec fn is_most_recent_path(
    root: Seq<char>,
    children: Seq<Child>,
    need_bin: bool,
    token: Option<Seq<char>>,
    r: Result<String, InstallError>,
) -> bool {
    exists|i: int| is_most_recent(children, i, need_bin, token) && r == Ok::<String, InstallError>(
        r->Ok_0,
    ) && r->Ok_0@ == joined(root, children[i].name@)
}

/// `r` is the application directory found among `children` of `root` for
/// the archive at `archive`: the first candidate name with a `bin`
/// subdirectory; else the most recent child with a `bin` subdirectory whose
/// name holds the stem's first token; else the most recent child with a
/// `bin` subdirectory; else the most recent child.
pub open spec fn is_located(root: Seq<char>, archive: Seq<char>, children: Seq<Child>, r: Result<String, InstallError>) -> bool {
    match archive_stem_of(archive) {
        None => r == Err::<String, InstallError>(InstallError::InvalidName),
        Some(stem) => {
            let tok = tokens(stem, name_seps())[0];
            if first_named(children, candidates(stem)) is Some {
                r matches Ok(p) && p@ == joined(root, first_named(children, candidates(stem))->Some_0)
            } else if any_eligible(children, true, Some(tok)) {
                is_most_recent_path(root, children, true, Some(tok), r)
            } else if any_eligible(children, true, None) {
                is_most_recent_path(root, children, true, None, r)
            } else if any_eligible(children, false, None) {
                is_most_recent_path(root, children, false, None, r)
            } else {
                r == Err::<String, InstallError>(InstallError::FolderNotFound)
            }
        },
    }
}

fn is_eligible(c: &Child, need_bin: bool, token: Option<&str>) -> (r: bool)
    ensures
        r == eligible(*c, need_bin, match token {
            Some(t) => Some(t@),
            None => None,
        }),
{
    if need_bin && !c.has_bin {
        return false;
    }
    match token {
        Some(t) => contains_ignore_case(c.name.as_str(), t),
        None => true,
    }
}

/// The index of the most recently modified eligible child, the first listed
/// among equals.
fn most_recent(children: &Vec<Child>, need_bin: bool, token: Option<&str>) -> (r: Option<usize>)
    ensures
        r matches Some(i) ==> is_most_recent(children@, i as int, need_bin, match token {
            Some(t) => Some(t@),
            None => None,
        }),
        r is None ==> !any_eligible(children@, need_bin, match token {
            Some(t) => Some(t@),
            None => None,
        }),
{
    let ghost tv = match token {
        Some(t) => Some(t@),
        None => None,
    };
    let mut best: Option<usize> = None;
    let mut i: usize = 0;
    while i < children.len()
        invariant
            i <= children@.len(),
            tv == match token {
                Some(t) => Some(t@),
                None => None::<Seq<char>>,
            },
            best matches Some(b) ==> b < i && is_most_recent(children@.take(i as int), b as int, need_bin, tv),
            best is None ==> forall|j: int| 0 <= j < i ==> !eligible(#[trigger] children@[j], need_bin, tv),
        decreases children@.len() - i,
    {
        let c = &children[i];
        let ghost pre = children@.take(i as int);
        let ghost post = children@.take(i + 1);
        assert forall|j: int| 0 <= j < i implies #[trigger] post[j] == pre[j] by {}
        if is_eligible(c, need_bin, token) {
            match best {
                None => {
                    best = Some(i);
                },
                Some(b) => {
                    if c.modified > children[b].modified {
                        best = Some(i);
                    }
                },
            }
        }
        assert(post[i as int] == children@[i as int]);
        i = i + 1;
    }
    assert(children@.take(i as int) =~= children@);
    best
}

/// The names tried in turn for `stem`; see [`candidates`].
fn candidate_names(stem: &str) -> (r: Vec<String>)
    ensures
        r.deep_view() == candidates(stem@),
{
    let toks = split(stem, Separators::Name);
    let n = toks.len();
    proof {
        lemma_tokens_nonempty(stem@, name_seps());
    }
    let mut k: usize = 0;
    while k < n
        invariant
            n == toks@.len(),
            k <= n,
            forall|j: int| 0 <= j < k ==> keeps(#[trigger] toks.deep_view()[j], true),
        ensures
            k <= n,
            forall|j: int| 0 <= j < k ==> keeps(#[trigger] toks.deep_view()[j], true),
            k == n || !keeps(toks.deep_view()[k as int], true),
        decreases n - k,
    {
        let t = toks[k].as_str();
        if first_is_digit(t) || platform_tag(t) {
            break;
        }
        k = k + 1;
    }
    let hyphen = "-";
    let underscore = "_";
    proof {
        lemma_kept_len(toks.deep_view(), true, k as int);
        reveal_strlit("-");
        reveal_strlit("_");
        assert(hyphen@ =~= seq!['-']);
        assert(underscore@ =~= seq!['_']);
        assert(toks.deep_view().take(n as int) =~= toks.deep_view());
    }
    let mut r: Vec<String> = Vec::new();
    r.push(String::from_str(stem));
    r.push(join_first(&toks, n, '-', hyphen));
    r.push(join_first(&toks, n, '_', underscore));
    r.push(join_first(&toks, k, '-', hyphen));
    r.push(join_first(&toks, k, '_', underscore));
    r.push(toks[0].clone());
    assert(r.deep_view() =~~= candidates(stem@));
    r
}

fn named_with_bin(children: &Vec<Child>, n: &str) -> (r: bool)
    ensures
        r == has_named_bin(children@, n@),
{
    let mut i: usize = 0;
    while i < children.len()
        invariant
            i <= children@.len(),
            forall|j: int| 0 <= j < i ==> !(children@[j].name@ == n@ && children@[j].has_bin),
        decreases children@.len() - i,
    {
        if children[i].has_bin && str_eq(children[i].name.as_str(), n) {
            return true;
        }
        i = i + 1;
    }
    false
}

/// Finds the directory of `root`, among its `children`, that holds the
/// application extracted from `archive`; see [`is_located`] for the order of
/// the strategies.
pub fn locate_app_folder(root: &str, archive: &str, children: &Vec<Child>) -> (r: Result<String, InstallError>)
    ensures
        is_located(root@, archive@, children@, r),
{
    let stem = match archive_stem(archive) {
        None => return Err(InstallError::InvalidName),
        Some(s) => s,
    };
    let cands = candidate_names(stem.as_str());
    let mut c: usize = 0;
    assert(cands.deep_view().skip(0) =~= cands.deep_view());
    while c < cands.len()
        invariant
            c <= cands@.len(),
            cands.deep_view() == candidates(stem@),
            archive_stem_of(archive@) == Some(stem@),
            first_named(children@, candidates(stem@)) == first_named(children@, cands.deep_view().skip(c as int)),
        decreases cands@.len() - c,
    {
        let ghost rest = cands.deep_view().skip(c as int);
        assert(rest.drop_first() =~= cands.deep_view().skip(c + 1));
        assert(rest[0] == cands@[c as int]@);
        if named_with_bin(children, cands[c].as_str()) {
            assert(first_named(children@, rest) == Some(rest[0]));
            return Ok(path_join(root, cands[c].as_str()));
        }
        c = c + 1;
    }
    assert(cands.deep_view().skip(c as int) =~= Seq::<Seq<char>>::empty());
    let tok = cands[5].as_str();
    proof {
        lemma_tokens_nonempty(stem@, name_seps());
    }
    assert(tok@ == tokens(stem@, name_seps())[0]);
    match most_recent(children, true, Some(tok)) {
        Some(i) => return Ok(path_join(root, children[i].name.as_str())),
        None => {},
    }
    match most_recent(children, true, None) {
        Some(i) => return Ok(path_join(root, children[i].name.as_str())),
        None => {},
    }
    match most_recent(children, false, None) {
        Some(i) => Ok(path_join(root, children[i].name.as_str())),
        None => Err(InstallError::FolderNotFound),
    }
}

} // verus!
