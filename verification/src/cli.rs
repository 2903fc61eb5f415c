//! The command surface: the data each subcommand carries, and the catalog
//! work each one triggers. Argument parsing, configuration loading and all
//! file-system work stay with the caller.

use vstd::prelude::*;
use crate::config::Config;
use crate::csv_store::{load_all_parts, load_all_spec};
use crate::error::Error;
use crate::kicad_db::{SqlStatement, build_kicad_db, db_plan};

verus! {

/// The command line: exactly one subcommand.
#[derive(Debug)]
pub struct Cli {
    pub command: Cmd,
}

/// The subcommands of the tool.
#[derive(Debug)]
pub enum Cmd {
    /// Initialize a new project.
    Init(InitCmd),
    /// Generate the derived database file.
    Build(BuildCmd),
    /// Add a new part.
    Add(AddCmd),
    /// Resume the last part add.
    Resume(ResumeCmd),
}

#[derive(Debug)]
pub struct InitCmd {}

#[derive(Debug)]
pub struct BuildCmd {}

/// Options of the add workflow: an optional remote part number to pre-fill
/// from, and whether to skip the database rebuild.
#[derive(Debug)]
pub struct AddCmd {
    pub digikey: Option<String>,
    pub no_build: bool,
}

#[derive(Debug)]
pub struct ResumeCmd {}

impl BuildCmd {
    /// Reloads the full catalog from the per-category file contents and
    /// computes the statements that rebuild the derived database from it.
    pub fn run(&self, config: &Config, files: &Vec<Option<String>>) -> (r: Result<
        Vec<SqlStatement>,
        Error,
    >)
        requires
            files@.len() == config.cat@.len(),
        ensures
            match r {
                Ok(stmts) => (load_all_spec(config.cat@, files.deep_view()) matches Some(parts)
                    && stmts.deep_view() == db_plan(config.cat@, parts)),
                Err(e) => load_all_spec(config.cat@, files.deep_view()) is None && e
                    == Error::MalformedRow,
            },
    {
        let parts = match load_all_parts(&config.cat, files) {
            Ok(ps) => ps,
            Err(e) => {
                return Err(e);
            },
        };
        Ok(build_kicad_db(&parts, &config.cat))
    }
}

} // verus!
