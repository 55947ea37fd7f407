//! The decisions of a run: which checks are selected by their tags, whether a
//! check may fix, and the exit status that the outcomes of the checks give.
use vstd::prelude::*;

use crate::base::{CheckError, CheckResult};

verus! {

/// How a run ended.
#[derive(PartialEq, Eq, Structural, Clone, Copy, Debug)]
pub enum ExitStatus {
    /// Reading checks was successful and there are no checks to fix
    Success,
    /// Reading checks was successful and there are checks to fix
    Failure,
    /// Reading checks failed or executing fixes failed
    Error,
}

impl ExitStatus {
    /// The process exit code of the status: 0, 1 and 2.
    pub open spec fn spec_code(self) -> u8 {
        match self {
            ExitStatus::Success => 0,
            ExitStatus::Failure => 1,
            ExitStatus::Error => 2,
        }
    }

    pub fn code(self) -> (r: u8)
        ensures
            r == self.spec_code(),
    {
        match self {
            ExitStatus::Success => 0,
            ExitStatus::Failure => 1,
            ExitStatus::Error => 2,
        }
    }
}

/// The tag is one of the tags.
pub open spec fn has_tag(tags: Seq<String>, tag: String) -> bool {
    exists|i: int| 0 <= i < tags.len() && #[trigger] tags[i]@ == tag@
}

/// A check with `tags` is run: it has one of `any_tags` (when there are any),
/// all of `all_tags` and none of `skip_tags`.
pub open spec fn selected(
    tags: Seq<String>,
    any_tags: Seq<String>,
    all_tags: Seq<String>,
    skip_tags: Seq<String>,
) -> bool {
    &&& (any_tags.len() == 0 || exists|i: int| 0 <= i < any_tags.len() && has_tag(tags, #[trigger] any_tags[i]))
    &&& forall|i: int| 0 <= i < all_tags.len() ==> has_tag(tags, #[trigger] all_tags[i])
    &&& forall|i: int| 0 <= i < skip_tags.len() ==> !has_tag(tags, #[trigger] skip_tags[i])
}

fn contains_tag(tags: &[String], tag: &String) -> (r: bool)
    ensures
        r == has_tag(tags@, *tag),
{
    let mut i: usize = 0;
    while i < tags.len()
        invariant
            i <= tags.len(),
            forall|j: int| 0 <= j < i ==> tags@[j]@ != tag@,
        decreases tags.len() - i,
    {
        if tags[i] == *tag {
            return true;
        }
        i += 1;
    }
    false
}

/// Whether a check with `checker_tags` is selected (see `selected`).
pub fn filter_checks(
    checker_tags: &[String],
    any_tags: &[String],
    all_tags: &[String],
    skip_tags: &[String],
) -> (r: bool)
    ensures
        r == selected(checker_tags@, any_tags@, all_tags@, skip_tags@),
{
    if any_tags.len() > 0 {
        let mut found = false;
        let mut i: usize = 0;
        while i < any_tags.len()
            invariant
                i <= any_tags.len(),
                found == exists|j: int| 0 <= j < i && has_tag(checker_tags@, #[trigger] any_tags@[j]),
            decreases any_tags.len() - i,
        {
            if contains_tag(checker_tags, &any_tags[i]) {
                found = true;
            }
            i += 1;
        }
        if !found {
            return false;
        }
    }
    let mut i: usize = 0;
    while i < all_tags.len()
        invariant
            i <= all_tags.len(),
            forall|j: int| 0 <= j < i ==> has_tag(checker_tags@, #[trigger] all_tags@[j]),
        decreases all_tags.len() - i,
    {
        if !contains_tag(checker_tags, &all_tags[i]) {
            return false;
        }
        i += 1;
    }
    let mut i: usize = 0;
    while i < skip_tags.len()
        invariant
            i <= skip_tags.len(),
            forall|j: int| 0 <= j < i ==> !has_tag(checker_tags@, #[trigger] skip_tags@[j]),
        decreases skip_tags.len() - i,
    {
        if contains_tag(checker_tags, &skip_tags[i]) {
            return false;
        }
        i += 1;
    }
    true
}

/// A check fixes only when fixing was asked for and the check is fixable.
pub fn fix_allowed(fixable: bool, fix: bool) -> (r: bool)
    ensures
        r == (fixable && fix),
{
    fixable && fix
}

/// The counts of the outcomes of a run.
#[derive(PartialEq, Eq, Structural, Clone, Copy, Debug)]
pub struct Tally {
    pub checks: usize,
    pub no_fix_needed: usize,
    pub fix_needed: usize,
    pub fix_executed: usize,
    pub errors: usize,
}

/// How many of the outcomes are errors.
pub open spec fn count_errors(outcomes: Seq<Result<CheckResult, CheckError>>) -> nat
    decreases outcomes.len(),
{
    if outcomes.len() == 0 {
        0
    } else {
        count_errors(outcomes.drop_last()) + if outcomes.last() is Err { 1nat } else { 0nat }
    }
}

/// How many of the outcomes are a fix that is needed and was not made.
pub open spec fn count_fix_needed(outcomes: Seq<Result<CheckResult, CheckError>>) -> nat
    decreases outcomes.len(),
{
    if outcomes.len() == 0 {
        0
    } else {
        count_fix_needed(outcomes.drop_last()) + if outcomes.last() matches Ok(
            CheckResult::FixNeeded(_),
        ) {
            1nat
        } else {
            0nat
        }
    }
}

/// How many of the outcomes are a fix that was made.
pub open spec fn count_fix_executed(outcomes: Seq<Result<CheckResult, CheckError>>) -> nat
    decreases outcomes.len(),
{
    if outcomes.len() == 0 {
        0
    } else {
        count_fix_executed(outcomes.drop_last()) + if outcomes.last() matches Ok(
            CheckResult::FixExecuted(_),
        ) {
            1nat
        } else {
            0nat
        }
    }
}

/// How many of the outcomes found nothing to fix.
pub open spec fn count_no_fix_needed(outcomes: Seq<Result<CheckResult, CheckError>>) -> nat
    decreases outcomes.len(),
{
    if outcomes.len() == 0 {
        0
    } else {
        count_no_fix_needed(outcomes.drop_last()) + if outcomes.last() matches Ok(
            CheckResult::NoFixNeeded,
        ) {
            1nat
        } else {
            0nat
        }
    }
}

/// Counts the outcomes of the checks of a run.
pub fn tally(outcomes: &Vec<Result<CheckResult, CheckError>>) -> (t: Tally)
    ensures
        t.checks == outcomes.len(),
        t.errors == count_errors(outcomes@),
        t.fix_needed == count_fix_needed(outcomes@),
        t.fix_executed == count_fix_executed(outcomes@),
        t.no_fix_needed == count_no_fix_needed(outcomes@),
{
    let mut t = Tally { checks: outcomes.len(), no_fix_needed: 0, fix_needed: 0, fix_executed: 0, errors: 0 };
    let mut i: usize = 0;
    while i < outcomes.len()
        invariant
            i <= outcomes.len(),
            t.checks == outcomes.len(),
            t.errors == count_errors(outcomes@.take(i as int)),
            t.fix_needed == count_fix_needed(outcomes@.take(i as int)),
            t.fix_executed == count_fix_executed(outcomes@.take(i as int)),
            t.no_fix_needed == count_no_fix_needed(outcomes@.take(i as int)),
            t.errors + t.fix_needed + t.fix_executed + t.no_fix_needed == i,
        decreases outcomes.len() - i,
    {
        assert(outcomes@.take(i + 1).drop_last() == outcomes@.take(i as int));
        match &outcomes[i] {
            Err(_) => t.errors = t.errors + 1,
            Ok(CheckResult::NoFixNeeded) => t.no_fix_needed = t.no_fix_needed + 1,
            Ok(CheckResult::FixNeeded(_)) => t.fix_needed = t.fix_needed + 1,
            Ok(CheckResult::FixExecuted(_)) => t.fix_executed = t.fix_executed + 1,
        }
        i += 1;
    }
    assert(outcomes@.take(outcomes.len() as int) == outcomes@);
    t
}

/// The status of a run: an error when a check failed, a failure when a fix is
/// needed, and success otherwise.
pub open spec fn status_of(errors: nat, fix_needed: nat) -> ExitStatus {
    if errors > 0 {
        ExitStatus::Error
    } else if fix_needed > 0 {
        ExitStatus::Failure
    } else {
        ExitStatus::Success
    }
}

/// The exit status of a run with the given outcomes (see `status_of`).
pub fn run_status(outcomes: &Vec<Result<CheckResult, CheckError>>) -> (r: ExitStatus)
    ensures
        r == status_of(count_errors(outcomes@), count_fix_needed(outcomes@)),
{
    let t = tally(outcomes);
    if t.errors > 0 {
        ExitStatus::Error
    } else if t.fix_needed > 0 {
        ExitStatus::Failure
    } else {
        ExitStatus::Success
    }
}

} // verus!
