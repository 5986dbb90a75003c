//! Making executables reachable from a terminal: links in a bin directory,
//! and that directory on the PATH through the shell's startup file.
use vstd::prelude::*;
use crate::error::InstallError;
use crate::locations::home_dir;
use crate::paths::{file_name, file_name_of, joined, path_join};
use crate::text::{search_path_seps, split, str_eq, tokens, Separators};

verus! {

/// A link to create: `link` points at `target`.
#[derive(Clone, Debug)]
pub struct Link {
    pub name: String,
    pub link: String,
    pub target: String,
}

/// The shell families whose startup files are known.
#[derive(Clone, Copy, PartialEq, Eq, Debug)]
pub enum ShellKind {
    Bash,
    Zsh,
    Fish,
}

/// What to do so that the bin directory is on the PATH.
#[derive(Clone, Debug)]
pub enum PathUpdate {
    /// The live PATH already lists it.
    AlreadyInPath,
    /// The startup file already mentions it.
    AlreadyConfigured,
    /// Append `text` to `file`, creating the file (and, where
    /// `create_parent`, its directory) if needed.
    Append { file: String, text: String, create_parent: bool },
}

/// `needle` occurs in `hay`.
pub open spec fn contains_seq(hay: Seq<char>, needle: Seq<char>) -> bool {
    exists|i: int| 0 <= i && i + needle.len() <= hay.len() && #[trigger] hay.subrange(i, i + needle.len()) == needle
}

/// `s` ends with `suffix`.
pub open spec fn ends_with(s: Seq<char>, suffix: Seq<char>) -> bool {
    suffix.len() <= s.len() && s.skip(s.len() - suffix.len()) == suffix
}

/// `links` links each executable by its file name from `bin_dir`.
pub open spec fn is_link_plan(executables: Seq<Seq<char>>, bin_dir: Seq<char>, r: Result<Vec<Link>, InstallError>) -> bool {
    if exists|i: int| 0 <= i < executables.len() && file_name_of(#[trigger] executables[i]) is None {
        r == Err::<Vec<Link>, InstallError>(InstallError::InvalidName)
    } else {
        r matches Ok(links) && links@.len() == executables.len() && forall|i: int|
            0 <= i < executables.len() ==> {
                let n = file_name_of(#[trigger] executables[i])->Some_0;
                &&& links@[i].name@ == n
                &&& links@[i].link@ == joined(bin_dir, n)
                &&& links@[i].target@ == executables[i]
            }
    }
}

/// The live search path lists `local_bin`, or a directory ending in
/// `.local/bin`.
pub open spec fn path_lists(path_var: Option<Seq<char>>, local_bin: Seq<char>) -> bool {
    match path_var {
        Some(p) => any_local_bin(tokens(p, search_path_seps()), local_bin),
        None => false,
    }
}

/// One of `dirs` stands for `local_bin`.
pub open spec fn any_local_bin(dirs: Seq<Seq<char>>, local_bin: Seq<char>) -> bool {
    exists|i: int| 0 <= i < dirs.len() && is_local_bin(#[trigger] dirs[i], local_bin)
}

/// A search path entry that stands for `local_bin`.
pub open spec fn is_local_bin(dir: Seq<char>, local_bin: Seq<char>) -> bool {
    dir == local_bin || ends_with(dir, ".local/bin"@)
}

/// The shell family of the `SHELL` value: `zsh` anywhere in it, then
/// `fish`, then bash for anything else.
pub open spec fn shell_kind_of(shell: Seq<char>) -> ShellKind {
    if contains_seq(shell, "zsh"@) {
        ShellKind::Zsh
    } else if contains_seq(shell, "fish"@) {
        ShellKind::Fish
    } else {
        ShellKind::Bash
    }
}

/// The startup file of a shell family, under the home directory.
pub open spec fn config_file_of(home: Seq<char>, kind: ShellKind) -> Seq<char> {
    match kind {
        ShellKind::Zsh => joined(home, ".zshrc"@),
        ShellKind::Fish => joined(home, ".config/fish/config.fish"@),
        ShellKind::Bash => joined(home, ".bashrc"@),
    }
}

/// The line that puts `~/.local/bin` on the PATH in a shell family.
pub open spec fn export_of(kind: ShellKind) -> Seq<char> {
    match kind {
        ShellKind::Fish => "set -gx PATH $HOME/.local/bin $PATH"@,
        _ => "export PATH=\"$HOME/.local/bin:$PATH\""@,
    }
}

/// The marker comment and the export line, as appended to a startup file.
pub open spec fn appended_text(kind: ShellKind) -> Seq<char> {
    "# Added by TarSmith installer\n"@ + export_of(kind) + "\n"@
}

/// The startup file already mentions `~/.local/bin` in one of its forms.
pub open spec fn mentions_local_bin(contents: Seq<char>) -> bool {
    contains_seq(contents, "$HOME/.local/bin"@) || contains_seq(contents, "~/.local/bin"@) || contains_seq(
        contents,
        ".local/bin"@,
    )
}

/// `u` is what to do for the bin directory `local_bin`, given the live
/// search path, the shell family, its startup file `config` and that file's
/// contents (`None` where it does not exist).
pub open spec fn is_path_update(
    local_bin: Seq<char>,
    path_var: Option<Seq<char>>,
    kind: ShellKind,
    config: Seq<char>,
    contents: Option<Seq<char>>,
    u: PathUpdate,
) -> bool {
    if path_lists(path_var, local_bin) {
        u is AlreadyInPath
    } else if contents matches Some(c) && mentions_local_bin(c) {
        u is AlreadyConfigured
    } else {
        u matches PathUpdate::Append { file, text, create_parent } && file@ == config && text@
            == appended_text(kind) && create_parent == (kind == ShellKind::Fish)
    }
}

/// The startup file's contents after `u` is carried out.
pub open spec fn config_after(contents: Option<Seq<char>>, u: PathUpdate) -> Option<Seq<char>> {
    match u {
        PathUpdate::Append { text, .. } => Some(
            match contents {
                Some(c) => c,
                None => Seq::<char>::empty(),
            } + text@,
        ),
        _ => contents,
    }
}

proof fn lemma_contains_in_concat(a: Seq<char>, b: Seq<char>, c: Seq<char>, needle: Seq<char>)
    requires
        contains_seq(b, needle),
    ensures
        contains_seq(a + b + c, needle),
{
    let i = choose|i: int| 0 <= i && i + needle.len() <= b.len() && #[trigger] b.subrange(i, i + needle.len()) == needle;
    let s = a + b + c;
    assert(s.subrange(a.len() + i, a.len() + i + needle.len()) =~= b.subrange(i, i + needle.len()));
}

proof fn lemma_appended_mentions(contents: Seq<char>, kind: ShellKind)
    ensures
        mentions_local_bin(contents + appended_text(kind)),
{
    reveal_strlit("set -gx PATH $HOME/.local/bin $PATH");
    reveal_strlit("export PATH=\"$HOME/.local/bin:$PATH\"");
    reveal_strlit(".local/bin");
    let e = export_of(kind);
    assert(e.subrange(19, 29) =~= ".local/bin"@);
    assert(e.subrange(19, 19 + ".local/bin"@.len() as int) == ".local/bin"@);
    assert(contains_seq(e, ".local/bin"@));
    lemma_contains_in_concat(contents + "# Added by TarSmith installer\n"@, e, "\n"@, ".local/bin"@);
    assert(contents + appended_text(kind) =~= contents + "# Added by TarSmith installer\n"@ + e + "\n"@);
}

/// Making sure of the PATH twice appends the marker and export lines at
/// most once: the second time finds the first one's lines and leaves the
/// startup file as it was.
pub proof fn lemma_path_update_idempotent(
    local_bin: Seq<char>,
    path_var: Option<Seq<char>>,
    kind: ShellKind,
    config: Seq<char>,
    contents: Option<Seq<char>>,
    first: PathUpdate,
    second: PathUpdate,
)
    requires
        is_path_update(local_bin, path_var, kind, config, contents, first),
        is_path_update(local_bin, path_var, kind, config, config_after(contents, first), second),
    ensures
        !(second is Append),
        config_after(config_after(contents, first), second) == config_after(contents, first),
{
    if first is Append {
        let c = match contents {
            Some(c) => c,
            None => Seq::<char>::empty(),
        };
        lemma_appended_mentions(c, kind);
    }
}

/// Links each executable by its file name from `bin_dir`; `InvalidName`
/// where a path has no file name.
pub fn symlink_plan(executables: &Vec<String>, bin_dir: &str) -> (r: Result<Vec<Link>, InstallError>)
    ensures
        is_link_plan(executables.deep_view(), bin_dir@, r),
{
    let ghost ev = executables.deep_view();
    let mut links: Vec<Link> = Vec::new();
    let mut i: usize = 0;
    while i < executables.len()
        invariant
            ev == executables.deep_view(),
            i <= executables@.len(),
            links@.len() == i,
            forall|j: int| 0 <= j < i ==> file_name_of(#[trigger] ev[j]) is Some,
            forall|j: int|
                0 <= j < i ==> {
                    let n = file_name_of(#[trigger] ev[j])->Some_0;
                    &&& links@[j].name@ == n
                    &&& links@[j].link@ == joined(bin_dir@, n)
                    &&& links@[j].target@ == ev[j]
                },
        decreases executables@.len() - i,
    {
        let exe = executables[i].as_str();
        assert(ev[i as int] == exe@);
        match file_name(exe) {
            None => {
                return Err(InstallError::InvalidName);
            },
            Some(n) => {
                let link = path_join(bin_dir, n.as_str());
                links.push(Link { name: n, link, target: String::from_str(exe) });
            },
        }
        i = i + 1;
    }
    Ok(links)
}

fn contains_str(hay: &str, needle: &str) -> (r: bool)
    ensures
        r == contains_seq(hay@, needle@),
{
    let n = hay.unicode_len();
    let m = needle.unicode_len();
    if m > n {
        return false;
    }
    let mut i: usize = 0;
    loop
        invariant
            n == hay@.len(),
            m == needle@.len(),
            m <= n,
            i <= n - m,
            forall|j: int| 0 <= j < i ==> #[trigger] hay@.subrange(j, j + m) != needle@,
        decreases n - m - i,
    {
        if str_eq(hay.substring_char(i, i + m), needle) {
            return true;
        }
        if i == n - m {
            return false;
        }
        i = i + 1;
    }
}

fn has_suffix(s: &str, suffix: &str) -> (r: bool)
    ensures
        r == ends_with(s@, suffix@),
{
    let n = s.unicode_len();
    let m = suffix.unicode_len();
    if m > n {
        return false;
    }
    let tail = s.substring_char(n - m, n);
    assert(tail@ =~= s@.skip(n - m));
    str_eq(tail, suffix)
}

/// Whether the search path `path_var` lists `local_bin` or a directory
/// ending in `.local/bin`.
pub fn path_has_local_bin(path_var: Option<&str>, local_bin: &str) -> (r: bool)
    ensures
        r == path_lists(
            match path_var {
                Some(p) => Some(p@),
                None => None,
            },
            local_bin@,
        ),
{
    let p = match path_var {
        None => return false,
        Some(p) => p,
    };
    let comps = split(p, Separators::SearchPath);
    assert(Separators::SearchPath.chars() == search_path_seps());
    let ghost cv = comps.deep_view();
    let mut i: usize = 0;
    while i < comps.len()
        invariant
            cv == comps.deep_view(),
            cv == tokens(p@, search_path_seps()),
            path_var == Some(p),
            i <= comps@.len(),
            forall|j: int| 0 <= j < i ==> !is_local_bin(#[trigger] cv[j], local_bin@),
        decreases comps@.len() - i,
    {
        let c = comps[i].as_str();
        assert(tokens(p@, search_path_seps())[i as int] == c@);
        if str_eq(c, local_bin) || has_suffix(c, ".local/bin") {
            let ghost t = tokens(p@, search_path_seps());
            assert(is_local_bin(t[i as int], local_bin@));
            return true;
        }
        i = i + 1;
    }
    false
}

/// The shell family of a `SHELL` value.
pub fn shell_kind(shell: &str) -> (r: ShellKind)
    ensures
        r == shell_kind_of(shell@),
{
    if contains_str(shell, "zsh") {
        ShellKind::Zsh
    } else if contains_str(shell, "fish") {
        ShellKind::Fish
    } else {
        ShellKind::Bash
    }
}

/// The startup file of a shell family under the home directory `home`.
pub fn config_file_for(home: &str, kind: ShellKind) -> (r: String)
    ensures
        r@ == config_file_of(home@, kind),
{
    match kind {
        ShellKind::Zsh => path_join(home, ".zshrc"),
        ShellKind::Fish => path_join(home, ".config/fish/config.fish"),
        ShellKind::Bash => path_join(home, ".bashrc"),
    }
}

/// The startup file of a shell family for this user; `None` where no home
/// directory can be found.
pub fn config_file(kind: ShellKind) -> (r: Option<String>)
    ensures
        r is Some ==> exists|h: Seq<char>| r->Some_0@ == config_file_of(h, kind),
{
    match home_dir() {
        Some(h) => Some(config_file_for(h.as_str(), kind)),
        None => None,
    }
}

/// Whether a startup file's contents already mention `~/.local/bin`.
pub fn mentions_bin(contents: &str) -> (r: bool)
    ensures
        r == mentions_local_bin(contents@),
{
    contains_str(contents, "$HOME/.local/bin") || contains_str(contents, "~/.local/bin")
        || contains_str(contents, ".local/bin")
}

/// The marker comment and export line for a shell family.
pub fn path_text(kind: ShellKind) -> (r: String)
    ensures
        r@ == appended_text(kind),
{
    let export = match kind {
        ShellKind::Fish => "set -gx PATH $HOME/.local/bin $PATH",
        _ => "export PATH=\"$HOME/.local/bin:$PATH\"",
    };
    String::from_str("# Added by TarSmith installer\n").concat(export).concat("\n")
}

/// Decides what makes `local_bin` visible on the PATH: nothing where the live
/// search path or the startup file `config` (with `contents`, `None` where it
/// does not exist) already has it, else an append of the export line.
pub fn plan_path_update(
    local_bin: &str,
    path_var: Option<&str>,
    kind: ShellKind,
    config: &str,
    contents: Option<&str>,
) -> (r: PathUpdate)
    ensures
        is_path_update(
            local_bin@,
            match path_var {
                Some(p) => Some(p@),
                None => None,
            },
            kind,
            config@,
            match contents {
                Some(c) => Some(c@),
                None => None,
            },
            r,
        ),
{
    if path_has_local_bin(path_var, local_bin) {
        return PathUpdate::AlreadyInPath;
    }
    match contents {
        Some(c) => {
            if mentions_bin(c) {
                return PathUpdate::AlreadyConfigured;
            }
        },
        None => {},
    }
    let create_parent = match kind {
        ShellKind::Fish => true,
        _ => false,
    };
    PathUpdate::Append { file: String::from_str(config), text: path_text(kind), create_parent }
}

} // verus!
