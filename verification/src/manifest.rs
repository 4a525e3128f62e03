//! The manifest of a package of mods.

use vstd::prelude::*;
use crate::value::views;

verus! {

/// The name of a package and its mod files, in the order in which they are
/// applied.
#[derive(Debug, PartialEq, Eq)]
pub struct Manifest {
    pub name: String,
    pub files: Vec<String>,
}

pub struct ManifestView {
    pub name: Seq<char>,
    pub files: Seq<Seq<char>>,
}

impl View for Manifest {
    type V = ManifestView;

    open spec fn view(&self) -> ManifestView {
        ManifestView { name: self.name@, files: views(self.files@) }
    }
}

impl Default for Manifest {
    /// A package called `mod-name` with the one file `mod.json`.
    fn default() -> (out: Manifest)
        ensures
            out@ == (ManifestView { name: "mod-name"@, files: seq!["mod.json"@] }),
    {
        let mut files: Vec<String> = Vec::new();
        files.push(String::from_str("mod.json"));
        let out = Manifest { name: String::from_str("mod-name"), files };
        assert(views(out.files@) =~= seq!["mod.json"@]);
        out
    }
}

} // verus!
