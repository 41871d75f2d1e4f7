//! The layouts that an index can have.

use crate::text::lowered;
use crate::text::reads_in_lower_case;
use std::str::FromStr;
use vstd::prelude::*;
use vstd::string::StringExecFns;

verus! {

/// The layout of an index in memory. All layouts answer every query alike;
/// they differ in speed and in the memory they need.
#[derive(Debug, Clone, Copy, PartialEq, Eq, Structural)]
pub enum StoreAlgorithm {
    /// One hash table from UUID to level: one probe for every lookup.
    HashMap,
    /// A sorted list, searched by halving: the least memory.
    Vec,
    /// A hash set for level 0 beside a sorted list for the other levels.
    Hybrid,
    /// One hash set for each level.
    FullHash,
}

/// What `parse` says of a text that names no layout.
pub open spec fn invalid_algorithm_message(text: Seq<char>) -> Seq<char> {
    "Invalid algorithm '"@ + text + "'. Valid options: hashmap, vec, hybrid, fullhash"@
}

impl StoreAlgorithm {
    /// The name of the layout, in lower case.
    pub open spec fn name(self) -> Seq<char> {
        match self {
            StoreAlgorithm::HashMap => "hashmap"@,
            StoreAlgorithm::Vec => "vec"@,
            StoreAlgorithm::Hybrid => "hybrid"@,
            StoreAlgorithm::FullHash => "fullhash"@,
        }
    }

    /// The layout that is used where none is asked for.
    pub fn default() -> (algorithm: Self)
        ensures
            algorithm == StoreAlgorithm::HashMap,
    {
        StoreAlgorithm::HashMap
    }

    /// All the layouts.
    pub fn all() -> (algorithms: [Self; 4])
        ensures
            algorithms@ == seq![
                StoreAlgorithm::HashMap,
                StoreAlgorithm::Vec,
                StoreAlgorithm::Hybrid,
                StoreAlgorithm::FullHash,
            ],
    {
        [
            StoreAlgorithm::HashMap,
            StoreAlgorithm::Vec,
            StoreAlgorithm::Hybrid,
            StoreAlgorithm::FullHash,
        ]
    }

    /// The name of the layout, in lower case.
    pub fn as_str(&self) -> (name: &'static str)
        ensures
            name@ == self.name(),
    {
        match self {
            StoreAlgorithm::HashMap => "hashmap",
            StoreAlgorithm::Vec => "vec",
            StoreAlgorithm::Hybrid => "hybrid",
            StoreAlgorithm::FullHash => "fullhash",
        }
    }

    /// The name of the layout as an owned text.
    pub fn to_string(&self) -> (name: String)
        ensures
            name@ == self.name(),
    {
        self.as_str().to_owned()
    }

    /// The layout that `text` names. ASCII capital letters count as their
    /// lower-case forms. A text that names no layout gives a message that
    /// quotes it and lists the names.
    pub fn parse(text: &str) -> (parsed: Result<Self, String>)
        ensures
            match parsed {
                Ok(algorithm) => lowered(text@) == algorithm.name(),
                Err(message) => {
                    &&& forall|algorithm: StoreAlgorithm| lowered(text@) != algorithm.name()
                    &&& message@ == invalid_algorithm_message(text@)
                },
            },
    {
        if reads_in_lower_case(text, "hashmap") {
            Ok(StoreAlgorithm::HashMap)
        } else if reads_in_lower_case(text, "vec") {
            Ok(StoreAlgorithm::Vec)
        } else if reads_in_lower_case(text, "hybrid") {
            Ok(StoreAlgorithm::Hybrid)
        } else if reads_in_lower_case(text, "fullhash") {
            Ok(StoreAlgorithm::FullHash)
        } else {
            let message = "Invalid algorithm '".to_owned().concat(text).concat(
                "'. Valid options: hashmap, vec, hybrid, fullhash",
            );
            Err(message)
        }
    }
}

impl Default for StoreAlgorithm {
    fn default() -> (algorithm: Self)
        ensures
            algorithm == StoreAlgorithm::HashMap,
    {
        StoreAlgorithm::HashMap
    }
}

impl FromStr for StoreAlgorithm {
    type Err = String;

    fn from_str(text: &str) -> (parsed: Result<Self, String>)
        ensures
            match parsed {
                Ok(algorithm) => lowered(text@) == algorithm.name(),
                Err(message) => {
                    &&& forall|algorithm: StoreAlgorithm| lowered(text@) != algorithm.name()
                    &&& message@ == invalid_algorithm_message(text@)
                },
            },
    {
        StoreAlgorithm::parse(text)
    }
}

} // verus!
