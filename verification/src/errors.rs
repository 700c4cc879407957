//! The error kinds of the core: match failure, an invalid rule (failed
//! invariants), a malformed rule (bad sentinel structure), and the reserve
//! kind for internal faults.

use vstd::prelude::*;
use crate::text::strs_view;

verus! {

/// The model of a core error.
#[verifier::ext_equal]
pub enum SpecCoreError {
    MatchFailed(Seq<char>),
    InvalidRule(Seq<Seq<char>>),
    MalformedRule(Seq<char>),
    InternalError(Seq<char>),
}

/// Why an operation of the core was refused.
#[derive(Debug)]
pub enum CoreError {
    /// The left pattern cannot be bound in the live graph.
    MatchFailed(String),
    /// One or more invariants failed; each string names the invariant.
    InvalidRule(Vec<String>),
    /// The replacement refers to a variable not in the interface, an id
    /// lacks a sentinel prefix, or the interface names a variable not in
    /// the left pattern.
    MalformedRule(String),
    /// Reserved for bugs.
    InternalError(String),
}

impl View for CoreError {
    type V = SpecCoreError;

    open spec fn view(&self) -> SpecCoreError {
        match self {
            CoreError::MatchFailed(s) => SpecCoreError::MatchFailed(s@),
            CoreError::InvalidRule(es) => SpecCoreError::InvalidRule(strs_view(*es)),
            CoreError::MalformedRule(s) => SpecCoreError::MalformedRule(s@),
            CoreError::InternalError(s) => SpecCoreError::InternalError(s@),
        }
    }
}

impl CoreError {
    /// A short name of the error kind, for reports and logs.
    pub fn kind_name(&self) -> (r: &'static str)
        ensures
            r@ == match self@ {
                SpecCoreError::MatchFailed(_) => "MatchFailed"@,
                SpecCoreError::InvalidRule(_) => "InvalidRule"@,
                SpecCoreError::MalformedRule(_) => "MalformedRule"@,
                SpecCoreError::InternalError(_) => "InternalError"@,
            },
    {
        match self {
            CoreError::MatchFailed(_) => "MatchFailed",
            CoreError::InvalidRule(_) => "InvalidRule",
            CoreError::MalformedRule(_) => "MalformedRule",
            CoreError::InternalError(_) => "InternalError",
        }
    }
}

} // verus!
