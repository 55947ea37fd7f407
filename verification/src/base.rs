//! Outcomes of a check and the errors of checks and check definitions.
use vstd::prelude::*;

verus! {

/// The outcome of one check.
#[derive(Clone, Debug, PartialEq)]
pub enum CheckResult {
    NoFixNeeded,
    FixNeeded(String),
    FixExecuted(String),
}

/// `CheckResult` with its message as a sequence of characters.
pub enum CheckResultV {
    NoFixNeeded,
    FixNeeded(Seq<char>),
    FixExecuted(Seq<char>),
}

impl View for CheckResult {
    type V = CheckResultV;

    open spec fn view(&self) -> CheckResultV {
        match self {
            CheckResult::NoFixNeeded => CheckResultV::NoFixNeeded,
            CheckResult::FixNeeded(m) => CheckResultV::FixNeeded(m@),
            CheckResult::FixExecuted(m) => CheckResultV::FixExecuted(m@),
        }
    }
}

/// The outcome of a check that found whether a fix is needed: nothing when none
/// is, the action's message when one is needed, and the same message marked as
/// executed when fixing was asked for.
pub open spec fn outcome(fix_needed: bool, fix: bool, message: Seq<char>) -> CheckResultV {
    if !fix_needed {
        CheckResultV::NoFixNeeded
    } else if !fix {
        CheckResultV::FixNeeded(message)
    } else {
        CheckResultV::FixExecuted(message)
    }
}

pub fn make_outcome(fix_needed: bool, fix: bool, message: String) -> (r: CheckResult)
    ensures
        r@ == outcome(fix_needed, fix, message@),
{
    if !fix_needed {
        CheckResult::NoFixNeeded
    } else if !fix {
        CheckResult::FixNeeded(message)
    } else {
        CheckResult::FixExecuted(message)
    }
}

/// Why a check definition was refused.
#[derive(Clone, Debug, PartialEq)]
pub enum CheckDefinitionError {
    InvalidDefinition(String),
    UnknownCheckType(String),
}

impl CheckDefinitionError {
    /// The text the error is shown with.
    pub open spec fn spec_message(&self) -> Seq<char> {
        match self {
            CheckDefinitionError::InvalidDefinition(_) => "invalid check definition"@,
            CheckDefinitionError::UnknownCheckType(_) => "Unknown checktype"@,
        }
    }

    /// The text the error is shown with (see `spec_message`).
    pub fn message(&self) -> (r: String)
        ensures
            r@ == self.spec_message(),
    {
        match self {
            CheckDefinitionError::InvalidDefinition(_) => String::from_str("invalid check definition"),
            CheckDefinitionError::UnknownCheckType(_) => String::from_str("Unknown checktype"),
        }
    }
}

/// Why a check could not be carried out.
#[derive(Clone, Debug, PartialEq)]
pub enum CheckError {
    FileCanNotBeRead(String),
    UnknownFileType(String),
    FileCanNotBeRemoved,
    FileCanNotBeWritten,
    InvalidFileFormat(String),
    InvalidRegex(String),
    PermissionsNotAccessable,
    String(String),
    GitError(String),
    CommandFailed(String),
}

} // verus!
