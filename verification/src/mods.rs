//! The configuration of a run.

use vstd::prelude::*;
use crate::value::views;

verus! {

/// A directory of mods with its priority.
#[derive(Debug, PartialEq, Eq)]
pub struct ModPriority {
    pub directory: String,
    pub priority: u32,
}

pub struct ModPriorityView {
    pub directory: Seq<char>,
    pub priority: u32,
}

impl View for ModPriority {
    type V = ModPriorityView;

    open spec fn view(&self) -> ModPriorityView {
        ModPriorityView { directory: self.directory@, priority: self.priority }
    }
}

/// Where the stock database and the outputs are found.
#[derive(Debug, PartialEq, Eq)]
pub struct Mods {
    pub version: String,
    pub database: String,
    pub sqlite: String,
    pub resource_folder: String,
    pub priorities: Vec<ModPriority>,
}

pub struct ModsView {
    pub version: Seq<char>,
    pub database: Seq<char>,
    pub sqlite: Seq<char>,
    pub resource_folder: Seq<char>,
    pub priorities: Seq<ModPriorityView>,
}

impl View for Mods {
    type V = ModsView;

    open spec fn view(&self) -> ModsView {
        ModsView {
            version: self.version@,
            database: self.database@,
            sqlite: self.sqlite@,
            resource_folder: self.resource_folder@,
            priorities: views(self.priorities@),
        }
    }
}

impl Default for Mods {
    /// The configuration that is written where none is found.
    fn default() -> (out: Mods)
        ensures
            out@ == (ModsView {
                version: Seq::empty(),
                database: "cdclient.fdb"@,
                sqlite: "CDServer.sqlite"@,
                resource_folder: Seq::empty(),
                priorities: Seq::empty(),
            }),
    {
        let out = Mods {
            version: String::new(),
            database: String::from_str("cdclient.fdb"),
            sqlite: String::from_str("CDServer.sqlite"),
            resource_folder: String::new(),
            priorities: Vec::new(),
        };
        assert(views(out.priorities@) =~= Seq::empty());
        out
    }
}

} // verus!
