//! The failures that the composition root and the call boundary report.

use vstd::prelude::*;

verus! {

/// A failure of a cross-boundary call. Either kind ends the whole synchronous
/// chain of calls: no caller on the way up replaces it by a value.
#[derive(Debug, Clone, Copy, PartialEq, Eq, Structural)]
pub enum CallError {
    /// The callee could not produce a valid result.
    BoundaryFault,
    /// A value did not fit the declared type of the slot it was passed in.
    ContractViolation,
}

/// A descriptor that cannot be composed. Composition stops at the first of
/// these, before any instance exists.
#[derive(Debug, Clone, Copy, PartialEq, Eq, Structural)]
pub enum ConfigurationError {
    /// Export number `export` of component `component` names an interface that
    /// an earlier export of the same component names already.
    DuplicateExport { component: usize, export: usize },
    /// No component offers what import number `import` of `component` asks for.
    UnresolvedImport { component: usize, import: usize },
    /// More than one component offers what import number `import` of
    /// `component` asks for, and the import does not say which one it means.
    ExportCollision { component: usize, import: usize },
    /// Some component depends, directly or through others, on itself.
    CyclicDependency,
}

/// Anything that can go wrong between a descriptor and the result of a call.
#[derive(Debug, Clone, Copy, PartialEq, Eq, Structural)]
pub enum Failure {
    Configuration(ConfigurationError),
    Call(CallError),
}

} // verus!
