//! The text of a desktop entry that launches the application.
use vstd::prelude::*;

verus! {

/// A desktop entry for `app_name` that runs `exec` with the icon `icon`.
pub open spec fn desktop_entry_of(app_name: Seq<char>, exec: Seq<char>, icon: Seq<char>) -> Seq<char> {
    "[Desktop Entry]\nVersion=1.0\nType=Application\nName="@ + app_name + "\nExec="@ + exec + "\nIcon="@
        + icon + "\nTerminal=false\nCategories=Utility;\n"@
}

/// The text of the desktop entry for `app_name`, launching `exec`.
pub fn desktop_entry(app_name: &str, exec: &str, icon: &str) -> (r: String)
    ensures
        r@ == desktop_entry_of(app_name@, exec@, icon@),
{
    let r = String::from_str("[Desktop Entry]\nVersion=1.0\nType=Application\nName=");
    r.concat(app_name).concat("\nExec=").concat(exec).concat("\nIcon=").concat(icon).concat(
        "\nTerminal=false\nCategories=Utility;\n",
    )
}

} // verus!
