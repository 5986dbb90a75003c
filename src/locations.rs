//! Where an installation puts things, for a user-level or a system-wide
//! installation.
use vstd::prelude::*;
use crate::paths::{joined, path_join};

verus! {

/// Relies on `dirs::home_dir`: the current user's home directory, where one
/// can be found, as text where the path is valid Unicode. It reads the
/// environment, so nothing is promised of the value.
#[verifier::external_body]
pub(crate) fn home_dir() -> (r: Option<String>) {
    match dirs::home_dir() {
        Some(p) => p.into_os_string().into_string().ok(),
        None => None,
    }
}

/// The install root: `.local/tarsmith` under the home directory for a
/// user-level installation, `/opt` for a system-wide one.
pub open spec fn install_root_of(home: Seq<char>, is_user_level: bool) -> Seq<char> {
    if is_user_level {
        joined(home, ".local/tarsmith"@)
    } else {
        "/opt"@
    }
}

/// The directory that PATH commands are linked from: `.local/bin` under the
/// home directory, or `/usr/local/bin`.
pub open spec fn bin_dir_of(home: Seq<char>, is_user_level: bool) -> Seq<char> {
    if is_user_level {
        joined(home, ".local/bin"@)
    } else {
        "/usr/local/bin"@
    }
}

/// The directory of desktop entries: `.local/share/applications` under the
/// home directory, or `/usr/share/applications`.
pub open spec fn applications_dir_of(home: Seq<char>, is_user_level: bool) -> Seq<char> {
    if is_user_level {
        joined(home, ".local/share/applications"@)
    } else {
        "/usr/share/applications"@
    }
}

/// The desktop entry file of the application `app_name`.
pub open spec fn desktop_file_of(home: Seq<char>, is_user_level: bool, app_name: Seq<char>) -> Seq<char> {
    joined(applications_dir_of(home, is_user_level), app_name + ".desktop"@)
}

/// The install root under the home directory `home`.
pub fn install_root_for(home: &str, is_user_level: bool) -> (r: String)
    ensures
        r@ == install_root_of(home@, is_user_level),
{
    if is_user_level {
        path_join(home, ".local/tarsmith")
    } else {
        String::from_str("/opt")
    }
}

/// The directory of PATH links under the home directory `home`.
pub fn bin_dir_for(home: &str, is_user_level: bool) -> (r: String)
    ensures
        r@ == bin_dir_of(home@, is_user_level),
{
    if is_user_level {
        path_join(home, ".local/bin")
    } else {
        String::from_str("/usr/local/bin")
    }
}

/// The desktop entry file of `app_name` under the home directory `home`.
pub fn desktop_file_for(home: &str, is_user_level: bool, app_name: &str) -> (r: String)
    ensures
        r@ == desktop_file_of(home@, is_user_level, app_name@),
{
    let dir = if is_user_level {
        path_join(home, ".local/share/applications")
    } else {
        String::from_str("/usr/share/applications")
    };
    let file = String::from_str(app_name).concat(".desktop");
    path_join(dir.as_str(), file.as_str())
}

/// The install root of this user; `None` for a user-level installation
/// where no home directory can be found.
pub fn install_root(is_user_level: bool) -> (r: Option<String>)
    ensures
        !is_user_level ==> (r matches Some(p) && p@ == "/opt"@),
        is_user_level && r is Some ==> exists|h: Seq<char>| r->Some_0@ == install_root_of(h, true),
{
    if !is_user_level {
        return Some(String::from_str("/opt"));
    }
    match home_dir() {
        Some(h) => Some(install_root_for(h.as_str(), true)),
        None => None,
    }
}

/// The directory that this user's PATH commands are linked from; `None`
/// for a user-level installation where no home directory can be found.
pub fn bin_dir(is_user_level: bool) -> (r: Option<String>)
    ensures
        !is_user_level ==> (r matches Some(p) && p@ == "/usr/local/bin"@),
        is_user_level && r is Some ==> exists|h: Seq<char>| r->Some_0@ == bin_dir_of(h, true),
{
    if !is_user_level {
        return Some(String::from_str("/usr/local/bin"));
    }
    match home_dir() {
        Some(h) => Some(bin_dir_for(h.as_str(), true)),
        None => None,
    }
}

/// The desktop entry file of `app_name` for this user; `None` for a
/// user-level installation where no home directory can be found.
pub fn desktop_file(is_user_level: bool, app_name: &str) -> (r: Option<String>)
    ensures
        !is_user_level ==> (r matches Some(p) && p@ == desktop_file_of(
            Seq::<char>::empty(),
            false,
            app_name@,
        )),
        is_user_level && r is Some ==> exists|h: Seq<char>| r->Some_0@ == desktop_file_of(h, true, app_name@),
{
    if !is_user_level {
        return Some(desktop_file_for("", false, app_name));
    }
    match home_dir() {
        Some(h) => Some(desktop_file_for(h.as_str(), true, app_name)),
        None => None,
    }
}

} // verus!
