//! Which files of the walked tree are manifests to prune.

use vstd::prelude::*;
use vstd::string::*;

use crate::model::views;

verus! {

/// The file name a manifest has.
pub open spec fn manifest_name() -> Seq<char> {
    seq!['C', 'a', 'r', 'g', 'o', '.', 't', 'o', 'm', 'l']
}

/// Whether a path, given by its components, lies under the build-output
/// directory `./target`.
pub open spec fn under_build_output(components: Seq<Seq<char>>) -> bool {
    &&& components.len() >= 2
    &&& components[0] == seq!['.']
    &&& components[1] == seq!['t', 'a', 'r', 'g', 'e', 't']
}

/// Whether a walked file is a manifest to prune: it is named like a manifest
/// and does not lie under the build output.
pub fn is_manifest_to_prune(file_name: &String, components: &Vec<String>) -> (r: bool)
    ensures
        r == (file_name@ == manifest_name() && !under_build_output(views(components@))),
{
    proof {
        reveal_strlit("Cargo.toml");
        reveal_strlit(".");
        reveal_strlit("target");
    }
    let name = String::from_str("Cargo.toml");
    assert(name@ =~= manifest_name());
    if *file_name != name {
        return false;
    }
    if components.len() < 2 {
        return true;
    }
    let dot = String::from_str(".");
    let target = String::from_str("target");
    assert(dot@ =~= seq!['.']);
    assert(target@ =~= seq!['t', 'a', 'r', 'g', 'e', 't']);
    !(components[0] == dot && components[1] == target)
}

} // verus!
