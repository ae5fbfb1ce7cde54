//! Imports style files and their snippets from repositories on GitHub.
//!
//! A reference (`owner/repo`, a repository link, a link to one file, or an alias name) is
//! classified, resolved through the alias store when it names an alias, and turned into the
//! requests that fetch the import file and its optional snippets companion. What is fetched is
//! then planned into file writes under a conflict policy. The same crate holds the alias store
//! and the steps that replace the executable with the latest build.
use vstd::prelude::*;

pub mod error;
pub mod install;
pub mod json;
pub mod reference;
pub mod scanner;
pub mod short;
pub mod text;
pub mod update;

verus! {

/// The usage text of the command-line tool.
pub const HELP_TEXT: &'static str = "
Welcome to lat.cli

    Import Package:
        $ lat -install (github repo url)
        $ lat -install https://github.com/realTristan/realtristan.sty
        $ lat -install (shortcut name)

    Create Shortcuts:
        $ lat -short -new (shortcut name) (shortcut path)
        $ lat -short -new rt realTristan/realtristan.sty

    List Shortcuts:
        $ lat -short -ls

    Delete Shortcuts:
        $ lat -short -remove (shortcut name)
        $ lat -short -empty

    Update CLI:
        $ lat -update
    ";

/// The usage text, as an owned string.
pub fn help_command() -> (r: String)
    ensures
        r@ == HELP_TEXT@,
{
    HELP_TEXT.to_owned()
}

} // verus!
