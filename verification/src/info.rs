//! What a package says of itself: its name, its version, and what it wants
//! shown in the help.

use vstd::prelude::*;

verus! {

/// What a package sets for the help, each of it optional.
#[derive(Clone, Debug, PartialEq, Eq)]
pub struct Metadata {
    pub title: Option<String>,
    pub default_argument: Option<String>,
}

/// The package table of a manifest.
#[derive(Debug, PartialEq, Eq)]
pub struct Package {
    pub name: String,
    pub description: Option<String>,
    pub version: String,
    pub metadata: Option<Metadata>,
}

/// A manifest, as far as it is read.
#[derive(Debug, PartialEq, Eq)]
pub struct Cargo {
    pub package: Package,
}

impl Package {
    /// The title under which the package is shown: the one that its metadata
    /// set, else its name.
    pub open spec fn title(&self) -> Seq<char> {
        match self.metadata {
            Some(Metadata { title: Some(title), .. }) => title@,
            _ => self.name@,
        }
    }

    /// The word that stands for the unnamed argument in the usage line: the
    /// one that the metadata set, else `args`.
    pub open spec fn default_argument(&self) -> Seq<char> {
        match self.metadata {
            Some(Metadata { default_argument: Some(word), .. }) => word@,
            _ => "args"@,
        }
    }

    /// The title and the word for the unnamed argument.
    pub fn get_metadata(&self) -> (r: (String, String))
        ensures
            r.0@ == self.title(),
            r.1@ == self.default_argument(),
    {
        let mut title = self.name.clone();
        let mut default_argument = String::from_str("args");
        match &self.metadata {
            Some(metadata) => {
                match &metadata.title {
                    Some(set) => {
                        title = set.clone();
                    },
                    None => {},
                }
                match &metadata.default_argument {
                    Some(set) => {
                        default_argument = set.clone();
                    },
                    None => {},
                }
            },
            None => {},
        }
        (title, default_argument)
    }
}

} // verus!
