//! Reading the command line: flags for the scope and the entry points, and
//! the one archive to install.
use vstd::prelude::*;
use crate::text::str_eq;

verus! {

/// What an installation run was asked to do.
#[derive(Clone, Debug)]
pub struct Options {
    pub archive: String,
    /// `Some(true)` for a user-level installation, `Some(false)` for a
    /// system-wide one, `None` to ask.
    pub user_level: Option<bool>,
    pub no_desktop: bool,
    pub no_path: bool,
}

/// What the command line asks for.
#[derive(Clone, Debug)]
pub enum Request {
    Version,
    Help,
    Install(Options),
}

/// Why a command line is refused.
#[derive(Clone, Debug, PartialEq, Eq)]
pub enum UsageError {
    MissingArchive,
    /// Both a user-level and a system-wide flag.
    ConflictingScope,
    MultipleArchives,
    UnknownOption(String),
}

/// The flags and archive read so far.
pub ghost struct Scan {
    pub user_level: Option<bool>,
    pub no_desktop: bool,
    pub no_path: bool,
    pub archive: Option<Seq<char>>,
}

/// Where reading a command line stands.
pub ghost enum Outcome {
    Version,
    Help,
    Conflict,
    Multiple,
    Unknown(Seq<char>),
    Reading(Scan),
}

/// Reads one argument after `s`.
pub open spec fn step(s: Scan, a: Seq<char>) -> Outcome {
    if a == "--version"@ || a == "-V"@ {
        Outcome::Version
    } else if a == "--help"@ || a == "-h"@ {
        Outcome::Help
    } else if a == "--system"@ || a == "-s"@ || a == "--user"@ || a == "-u"@ {
        if s.user_level is Some {
            Outcome::Conflict
        } else {
            Outcome::Reading(
                Scan {
                    user_level: Some(a == "--user"@ || a == "-u"@),
                    no_desktop: s.no_desktop,
                    no_path: s.no_path,
                    archive: s.archive,
                },
            )
        }
    } else if a == "--no-desktop"@ || a == "-nd"@ {
        Outcome::Reading(Scan { user_level: s.user_level, no_desktop: true, no_path: s.no_path, archive: s.archive })
    } else if a == "--no-path"@ || a == "-np"@ {
        Outcome::Reading(Scan { user_level: s.user_level, no_desktop: s.no_desktop, no_path: true, archive: s.archive })
    } else if s.archive is Some {
        Outcome::Multiple
    } else if a.len() > 0 && a[0] == '-' {
        Outcome::Unknown(a)
    } else {
        Outcome::Reading(Scan { user_level: s.user_level, no_desktop: s.no_desktop, no_path: s.no_path, archive: Some(a) })
    }
}

/// Reads the arguments in order; the first one that settles the outcome
/// (a version or help request, or an error) ends the reading.
pub open spec fn scan_args(args: Seq<Seq<char>>) -> Outcome
    decreases args.len(),
{
    if args.len() == 0 {
        Outcome::Reading(Scan { user_level: None, no_desktop: false, no_path: false, archive: None })
    } else {
        match scan_args(args.drop_last()) {
            Outcome::Reading(s) => step(s, args.last()),
            done => done,
        }
    }
}

/// `r` is what the arguments `args` (without the program name) ask for.
pub open spec fn is_request(args: Seq<Seq<char>>, r: Result<Request, UsageError>) -> bool {
    match scan_args(args) {
        Outcome::Version => r matches Ok(Request::Version),
        Outcome::Help => r matches Ok(Request::Help),
        Outcome::Conflict => r == Err::<Request, UsageError>(UsageError::ConflictingScope),
        Outcome::Multiple => r == Err::<Request, UsageError>(UsageError::MultipleArchives),
        Outcome::Unknown(a) => r matches Err(UsageError::UnknownOption(o)) && o@ == a,
        Outcome::Reading(s) => match s.archive {
            None => r == Err::<Request, UsageError>(UsageError::MissingArchive),
            Some(a) => r matches Ok(Request::Install(o)) && o.archive@ == a && o.user_level
                == s.user_level && o.no_desktop == s.no_desktop && o.no_path == s.no_path,
        },
    }
}

/// Once settled, the outcome stays whatever follows.
proof fn lemma_settled(args: Seq<Seq<char>>, k: int)
    requires
        0 <= k <= args.len(),
        !(scan_args(args.take(k)) is Reading),
    ensures
        scan_args(args) == scan_args(args.take(k)),
    decreases args.len() - k,
{
    if k < args.len() {
        assert(args.take(k + 1).drop_last() =~= args.take(k));
        lemma_settled(args, k + 1);
    } else {
        assert(args.take(k) =~= args);
    }
}

fn either(a: &str, long: &str, short: &str) -> (r: bool)
    ensures
        r == (a@ == long@ || a@ == short@),
{
    str_eq(a, long) || str_eq(a, short)
}

/// Reads the arguments that follow the program name.
pub fn parse_args(args: &Vec<String>) -> (r: Result<Request, UsageError>)
    ensures
        is_request(args.deep_view(), r),
{
    let ghost av = args.deep_view();
    let mut user_level: Option<bool> = None;
    let mut no_desktop = false;
    let mut no_path = false;
    let mut archive: Option<String> = None;
    let mut i: usize = 0;
    assert(av.take(0) =~= Seq::<Seq<char>>::empty());
    while i < args.len()
        invariant
            av == args.deep_view(),
            i <= args@.len(),
            scan_args(av.take(i as int)) == Outcome::Reading(
                Scan {
                    user_level,
                    no_desktop,
                    no_path,
                    archive: match archive {
                        Some(a) => Some(a@),
                        None => None,
                    },
                },
            ),
        decreases args@.len() - i,
    {
        let ghost pre = av.take(i + 1);
        assert(pre.drop_last() =~= av.take(i as int));
        assert(pre.last() == args@[i as int]@);
        let a = args[i].as_str();
        if either(a, "--version", "-V") {
            proof {
                lemma_settled(av, i + 1);
            }
            return Ok(Request::Version);
        } else if either(a, "--help", "-h") {
            proof {
                lemma_settled(av, i + 1);
            }
            return Ok(Request::Help);
        } else if either(a, "--system", "-s") || either(a, "--user", "-u") {
            if user_level.is_some() {
                proof {
                    lemma_settled(av, i + 1);
                }
                return Err(UsageError::ConflictingScope);
            }
            user_level = Some(either(a, "--user", "-u"));
        } else if either(a, "--no-desktop", "-nd") {
            no_desktop = true;
        } else if either(a, "--no-path", "-np") {
            no_path = true;
        } else if archive.is_some() {
            proof {
                lemma_settled(av, i + 1);
            }
            return Err(UsageError::MultipleArchives);
        } else if a.unicode_len() > 0 && a.get_char(0) == '-' {
            proof {
                lemma_settled(av, i + 1);
            }
            return Err(UsageError::UnknownOption(String::from_str(a)));
        } else {
            archive = Some(String::from_str(a));
        }
        i = i + 1;
    }
    assert(av.take(i as int) =~= av);
    match archive {
        None => Err(UsageError::MissingArchive),
        Some(a) => Ok(Request::Install(Options { archive: a, user_level, no_desktop, no_path })),
    }
}

} // verus!
