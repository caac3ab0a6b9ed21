//! The command surface: which tool to run over which directories, and the
//! dispatch to its policy.

use vstd::prelude::*;
use crate::addext::{process_addext, AddExt, AddExtHelper};
use crate::crawler::{actions_view, spec_walks, WalkItem, WalkReport};
use crate::finddups::{process_finddups, FindDups, FindDupsHelper};
use crate::filer::shared::SharedFiler;

verus! {

/// One invocation of the tool: repair extensions, or find duplicates.
#[derive(Clone, Debug)]
pub enum Command {
    AddExt(AddExt),
    FindDups(FindDups),
}

impl Command {
    /// The directories the command is to walk.
    pub open spec fn dirs(self) -> Seq<String> {
        match self {
            Command::AddExt(ae) => ae.directories@,
            Command::FindDups(fd) => fd.directories@,
        }
    }
}

/// Runs the chosen command's policy over one enumerated walk per
/// directory, against the given cache: the walk phase of either tool.
pub fn process_command(command: Command, walks: &Vec<Vec<WalkItem>>, filer: SharedFiler) -> (r: (
    SharedFiler,
    WalkReport,
))
    requires
        filer.inv(),
        walks@.len() == command.dirs().len(),
    ensures
        r.0.inv(),
        ({
            let ws = walks@.map_values(|w: Vec<WalkItem>| w@);
            match command {
                Command::AddExt(ae) => {
                    let (sf, af, ef) = spec_walks::<AddExtHelper>(ws, filer@);
                    &&& r.0@ == sf
                    &&& actions_view(r.1) == af
                    &&& r.1.errors@ == ef
                },
                Command::FindDups(fd) => {
                    let (sf, af, ef) = spec_walks::<FindDupsHelper>(ws, filer@);
                    &&& r.0@ == sf
                    &&& actions_view(r.1) == af
                    &&& r.1.errors@ == ef
                },
            }
        }),
{
    match command {
        Command::AddExt(ae) => process_addext(&ae, walks, filer),
        Command::FindDups(fd) => process_finddups(&fd, walks, filer),
    }
}

} // verus!
