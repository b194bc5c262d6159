//! The settings of one run of the server.

use vstd::prelude::*;
use vstd::string::*;

verus! {

/// The settings that the mapping reads.
#[derive(Debug, PartialEq, Eq)]
pub struct CounterfeitRunConfig {
    /// The directory under which the response files are stored.
    pub base_path: String,
    /// Whether a missing response file is created as an empty placeholder.
    pub create_missing: bool,
    /// Whether requests and responses go unlogged.
    pub silent: bool,
}

/// The mathematical value of a `CounterfeitRunConfig`.
pub struct CounterfeitRunConfigView {
    pub base_path: Seq<char>,
    pub create_missing: bool,
    pub silent: bool,
}

impl View for CounterfeitRunConfig {
    type V = CounterfeitRunConfigView;

    open spec fn view(&self) -> CounterfeitRunConfigView {
        CounterfeitRunConfigView {
            base_path: self.base_path@,
            create_missing: self.create_missing,
            silent: self.silent,
        }
    }
}

impl Clone for CounterfeitRunConfig {
    fn clone(&self) -> (copy: Self)
        ensures
            copy == *self,
    {
        CounterfeitRunConfig {
            base_path: self.base_path.clone(),
            create_missing: self.create_missing,
            silent: self.silent,
        }
    }
}

impl CounterfeitRunConfig {
    /// Settings with the given base directory.
    pub fn new(base_path: &str, create_missing: bool, silent: bool) -> (config: Self)
        ensures
            config@ == (CounterfeitRunConfigView { base_path: base_path@, create_missing, silent }),
    {
        CounterfeitRunConfig { base_path: base_path.to_owned(), create_missing, silent }
    }
}

} // verus!
