//! Derives algebraic AST type definitions from a context-free grammar:
//! grammar rules built from repetition, choice, sequence, precedence,
//! symbol references and literals are normalized (nested choices hoisted
//! into fresh rules), ordered by their dependencies, and mapped to named
//! sum / product / constructor / reference type descriptions.

use vstd::prelude::*;

pub mod ast_types;
pub mod grammar;
pub mod graph;
pub mod name_gen;
pub mod type_gen;

verus! {

/// A fatal generation error. Every error aborts the current run atomically:
/// no partial output is produced.
#[derive(Debug)]
pub enum GenError {
    /// A body references a rule name absent from the final rule set.
    DanglingReference(String),
    /// A rule name, synthetic or user-supplied, repeats a name already
    /// registered in the rule set.
    NameCollision(String),
    /// The dependency graph contains a cycle, so no emission order can put
    /// every referenced rule's type at or before each of its referrers.
    CyclicDependency,
}

} // verus!
