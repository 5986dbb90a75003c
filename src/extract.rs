//! The arguments of the `tar` run that unpacks an archive into a directory.
use vstd::prelude::*;
use crate::error::InstallError;
use crate::paths::{extension, extension_of, file_name, file_name_of, joined, path_join};
use crate::text::str_eq;

verus! {

/// The extraction flags for an archive, chosen by its extension: gzip for
/// `gz` and `tgz`, xz for `xz` and `txz`, bzip2 for `bz2`, zstd for `zst`,
/// and plain extraction otherwise.
pub open spec fn tar_flags_of(archive: Seq<char>) -> Seq<Seq<char>> {
    let ext = match file_name_of(archive) {
        Some(n) => extension_of(n),
        None => None,
    };
    match ext {
        Some(e) => if e == "gz"@ || e == "tgz"@ {
            seq!["-xzf"@]
        } else if e == "xz"@ || e == "txz"@ {
            seq!["-xJf"@]
        } else if e == "bz2"@ {
            seq!["-xjf"@]
        } else if e == "zst"@ {
            seq!["--zstd"@, "-xf"@]
        } else {
            seq!["-xf"@]
        },
        None => seq!["-xf"@],
    }
}

/// The full argument list: the flags, the archive, then `-C` and the
/// destination directory.
pub open spec fn tar_args_of(archive: Seq<char>, dest: Seq<char>) -> Seq<Seq<char>> {
    tar_flags_of(archive) + seq![archive, "-C"@, dest]
}

/// The arguments of `tar` that extract `archive` into `dest`.
pub fn tar_args(archive: &str, dest: &str) -> (r: Vec<String>)
    ensures
        r.deep_view() == tar_args_of(archive@, dest@),
{
    let ext = match file_name(archive) {
        Some(n) => extension(n.as_str()),
        None => None,
    };
    let mut r: Vec<String> = Vec::new();
    match ext {
        Some(e) => {
            let e = e.as_str();
            if str_eq(e, "gz") || str_eq(e, "tgz") {
                r.push(String::from_str("-xzf"));
            } else if str_eq(e, "xz") || str_eq(e, "txz") {
                r.push(String::from_str("-xJf"));
            } else if str_eq(e, "bz2") {
                r.push(String::from_str("-xjf"));
            } else if str_eq(e, "zst") {
                r.push(String::from_str("--zstd"));
                r.push(String::from_str("-xf"));
            } else {
                r.push(String::from_str("-xf"));
            }
        },
        None => {
            r.push(String::from_str("-xf"));
        },
    }
    let ghost flags = r.deep_view();
    assert(flags =~~= tar_flags_of(archive@));
    r.push(String::from_str(archive));
    r.push(String::from_str("-C"));
    r.push(String::from_str(dest));
    assert(r.deep_view() =~~= tar_args_of(archive@, dest@));
    r
}

/// The private staging directory under the install root.
pub open spec fn staging_dir_of(install_root: Seq<char>) -> Seq<char> {
    joined(install_root, ".tarsmith_temp_extract"@)
}

/// The staging directory that an archive is unpacked into before placement.
pub fn staging_dir(install_root: &str) -> (r: String)
    ensures
        r@ == staging_dir_of(install_root@),
{
    path_join(install_root, ".tarsmith_temp_extract")
}

/// The run goes on after the decompression tool exits cleanly, and aborts
/// with `ExtractionFailed` otherwise.
pub fn check_extraction(exit_success: bool) -> (r: Result<(), InstallError>)
    ensures
        exit_success ==> r is Ok,
        !exit_success ==> r == Err::<(), InstallError>(InstallError::ExtractionFailed),
{
    if exit_success {
        Ok(())
    } else {
        Err(InstallError::ExtractionFailed)
    }
}

} // verus!
