//! Errors of strategy validation and parsing.

use vstd::prelude::*;

verus! {

use crate::output::OutputShape;

/// Errors that can occur during strategy validation or parsing.
#[derive(Debug, PartialEq)]
pub enum StrategyError {
    /// A conditional node is missing its else branch.
    MissingElseBranch,
    /// A sequence node has no child nodes.
    EmptySequence,
    /// An indicator's output shape does not fit the value it is held to.
    IncompatibleShapes { name: String, indicator: OutputShape, value: OutputShape },
    /// An indicator period outside its allowed range.
    InvalidIndicatorPeriod { period: usize },
    /// A lock was poisoned.
    Poison(String),
    /// An iterator that was expected to produce a value produced none.
    EmptyIterator(String),
    /// A value could not be serialized or deserialized.
    Serialization(String),
    /// An input or output failure reported by the caller.
    IO(String),
    /// A configuration that cannot be used.
    Configuration(String),
}

} // verus!
