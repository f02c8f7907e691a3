//! Why an alias could not be resolved, and how each failure reads.

use vstd::prelude::*;
use crate::text::{joined, views, join_names};

verus! {

/// A failed resolution.
#[derive(Debug, Clone)]
pub enum AliasResolutionError {
    /// The configuration has no `[alias]` section.
    MissingAliasSection,
    /// The name is a target reference already, or the section does not define it.
    NotAnAlias,
    /// The aliases visited, followed by the name that nothing defines.
    AliasChainBroken(Vec<String>),
    /// The aliases visited, and the one among them that came up again.
    AliasCycle(Vec<String>, String),
}

/// A failed resolution, over character sequences.
pub enum AliasFailure {
    MissingAliasSection,
    NotAnAlias,
    AliasChainBroken(Seq<Seq<char>>),
    AliasCycle(Seq<Seq<char>>, Seq<char>),
}

/// A chain of names as a path read from left to right.
pub open spec fn path_text(names: Seq<Seq<char>>) -> Seq<char> {
    joined(names, " -> "@)
}

impl AliasFailure {
    /// The diagnostic of a failure.
    pub open spec fn message(self) -> Seq<char> {
        match self {
            AliasFailure::MissingAliasSection => "No [alias] section in buckconfig"@,
            AliasFailure::NotAnAlias => "[alias] section does not contain the requested alias"@,
            AliasFailure::AliasChainBroken(names) => "[alias] section produced a dangling chain: `"@
                + path_text(names) + "`"@,
            AliasFailure::AliasCycle(names, repeated) => "cycle detected in alias resolution ["@
                + path_text(names) + " -> "@ + repeated + "]"@,
        }
    }

    /// A failure that callers take to mean "no alias: use the name as it is".
    pub open spec fn is_soft(self) -> bool {
        self is MissingAliasSection || self is NotAnAlias
    }
}

impl View for AliasResolutionError {
    type V = AliasFailure;

    open spec fn view(&self) -> AliasFailure {
        match self {
            AliasResolutionError::MissingAliasSection => AliasFailure::MissingAliasSection,
            AliasResolutionError::NotAnAlias => AliasFailure::NotAnAlias,
            AliasResolutionError::AliasChainBroken(names) => AliasFailure::AliasChainBroken(
                views(names@),
            ),
            AliasResolutionError::AliasCycle(names, repeated) => AliasFailure::AliasCycle(
                views(names@),
                repeated@,
            ),
        }
    }
}

impl AliasResolutionError {
    /// The diagnostic of this failure, with the chain as a path in the order
    /// of the visits.
    pub fn message(&self) -> (text: String)
        ensures
            text@ == self@.message(),
    {
        proof {
            reveal_strlit(" -> ");
        }
        match self {
            AliasResolutionError::MissingAliasSection => String::from_str(
                "No [alias] section in buckconfig",
            ),
            AliasResolutionError::NotAnAlias => String::from_str(
                "[alias] section does not contain the requested alias",
            ),
            AliasResolutionError::AliasChainBroken(names) => {
                let path = join_names(names, " -> ");
                let mut text = String::from_str("[alias] section produced a dangling chain: `");
                text.append(path.as_str());
                text.append("`");
                text
            },
            AliasResolutionError::AliasCycle(names, repeated) => {
                let path = join_names(names, " -> ");
                let mut text = String::from_str("cycle detected in alias resolution [");
                text.append(path.as_str());
                text.append(" -> ");
                text.append(repeated.as_str());
                text.append("]");
                text
            },
        }
    }
}

/// A hard failure, with the alias that was asked for.
#[derive(Debug, Clone)]
pub struct AliasLookupError {
    /// The alias whose resolution failed.
    pub alias: String,
    /// A broken chain or a cycle.
    pub cause: AliasResolutionError,
}

impl AliasLookupError {
    /// The diagnostic that a user sees when `alias` failed with `cause`.
    pub open spec fn message_of(alias: Seq<char>, cause: AliasFailure) -> Seq<char> {
        "Error resolving alias `"@ + alias + "`: "@ + cause.message()
    }

    /// The diagnostic: the alias asked for, then the cause.
    pub fn message(&self) -> (text: String)
        ensures
            text@ == Self::message_of(self.alias@, self.cause@),
    {
        let cause = self.cause.message();
        let mut text = String::from_str("Error resolving alias `");
        text.append(self.alias.as_str());
        text.append("`: ");
        text.append(cause.as_str());
        text
    }
}

} // verus!
