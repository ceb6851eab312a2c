//! Where the registry lives under the home directory.

use vstd::prelude::*;

verus! {

/// The registry's templates directory under the home directory.
pub open spec fn template_folder_of(home: Seq<char>) -> Seq<char> {
    home + "/.config/dotfile-manager/templates"@
}

/// The scratch repository, under the home directory, that remote checks run from.
pub open spec fn fake_git_folder_of(home: Seq<char>) -> Seq<char> {
    home + "/.local/share/dotfile-manager/fake-git"@
}

/// The registry root, parent of the templates directory.
pub open spec fn registry_root_of(home: Seq<char>) -> Seq<char> {
    home + "/.config/dotfile-manager"@
}

/// The registry root under the home directory.
pub fn get_registry_root(home: &String) -> (r: String)
    ensures
        r@ == registry_root_of(home@),
{
    let mut r = home.clone();
    r.append("/.config/dotfile-manager");
    r
}

/// The templates directory under the home directory.
pub fn get_template_folder(home: &String) -> (r: String)
    ensures
        r@ == template_folder_of(home@),
{
    let mut r = home.clone();
    r.append("/.config/dotfile-manager/templates");
    r
}

/// The scratch repository under the home directory.
pub fn get_fake_git_folder(home: &String) -> (r: String)
    ensures
        r@ == fake_git_folder_of(home@),
{
    let mut r = home.clone();
    r.append("/.local/share/dotfile-manager/fake-git");
    r
}

} // verus!
