//! The flags of a query.

use vstd::prelude::*;
use vstd::string::*;

use crate::errors::Error;

verus! {

/// What can be asked of the tool.
#[derive(Debug)]
pub enum Command {
    /// Query the registry for the details of packages.
    Info(Args),
}

/// The flags of a query.
#[derive(Debug)]
pub struct Args {
    /// The names of the packages to be queried.
    pub crates: Vec<String>,
    /// Report the place of the documentation.
    pub documentation: bool,
    /// Report the number of downloads.
    pub downloads: bool,
    /// Report the home page.
    pub homepage: bool,
    /// Report the repository.
    pub repository: bool,
    /// Report the keywords.
    pub keywords: bool,
    /// Report the registry's answer as it came.
    pub json: bool,
    /// Report more details.
    pub verbose: bool,
    /// How often the version history was asked for: once for the five newest
    /// versions, twice for all of them.
    pub versions: u8,
    /// Include versions that are no releases yet.
    pub allow_prerelease: bool,
    /// Do not use the network.
    pub offline: bool,
}

impl Args {
    /// Whether the raw answer is asked for together with a single field or
    /// the keywords, which cannot both be had.
    pub open spec fn conflicting(self) -> bool {
        self.json && (self.documentation || self.downloads || self.homepage || self.repository
            || self.keywords)
    }

    /// Refuses flags that contradict each other. This is to be asked before
    /// the registry is.
    pub fn validate(&self) -> (r: Result<(), Error>)
        ensures
            r is Err <==> self.conflicting(),
            r matches Err(e) ==> e is Conflict,
    {
        if self.json && (self.documentation || self.downloads || self.homepage || self.repository
            || self.keywords) {
            Err(Error::Conflict)
        } else {
            Ok(())
        }
    }
}

impl Default for Args {
    /// The flags of a query for the package `demo` that asks for every single
    /// field and the short version history.
    fn default() -> (args: Args)
        ensures
            args.crates@.len() == 1,
            args.crates@[0]@ == "demo"@,
            args.documentation,
            args.downloads,
            args.homepage,
            args.repository,
            args.keywords,
            !args.json,
            !args.verbose,
            args.versions == 5,
            args.allow_prerelease,
            !args.offline,
    {
        let mut crates: Vec<String> = Vec::new();
        crates.push(String::from_str("demo"));
        Args {
            crates,
            documentation: true,
            downloads: true,
            homepage: true,
            repository: true,
            keywords: true,
            json: false,
            verbose: false,
            versions: 5,
            allow_prerelease: true,
            offline: false,
        }
    }
}

} // verus!
