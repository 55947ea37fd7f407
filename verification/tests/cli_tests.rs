use check_config::base::{CheckError, CheckResult};
use check_config::cli::{filter_checks, fix_allowed, run_status, tally, ExitStatus};

fn tags(v: &[&str]) -> Vec<String> {
    v.iter().map(|t| t.to_string()).collect()
}

#[test]
fn filter_checks_by_tags() {
    let t = tags(&["a", "b"]);
    assert!(filter_checks(&t, &[], &[], &[]));
    assert!(filter_checks(&t, &tags(&["x", "a"]), &[], &[]));
    assert!(!filter_checks(&t, &tags(&["x"]), &[], &[]));
    assert!(filter_checks(&t, &[], &tags(&["a", "b"]), &[]));
    assert!(!filter_checks(&t, &[], &tags(&["a", "c"]), &[]));
    assert!(!filter_checks(&t, &[], &[], &tags(&["b"])));
    assert!(filter_checks(&t, &[], &[], &tags(&["c"])));
    assert!(!filter_checks(&tags(&[]), &tags(&["a"]), &[], &[]));
}

#[test]
fn exit_status_of_runs() {
    let ok: Vec<Result<CheckResult, CheckError>> = vec![Ok(CheckResult::NoFixNeeded), Ok(CheckResult::FixExecuted("x".into()))];
    assert_eq!(run_status(&ok), ExitStatus::Success);
    let needed = vec![Ok(CheckResult::NoFixNeeded), Ok(CheckResult::FixNeeded("x".into()))];
    assert_eq!(run_status(&needed), ExitStatus::Failure);
    let failed = vec![Ok(CheckResult::FixNeeded("x".into())), Err(CheckError::FileCanNotBeWritten)];
    assert_eq!(run_status(&failed), ExitStatus::Error);
    assert_eq!(run_status(&vec![]), ExitStatus::Success);
    assert_eq!(ExitStatus::Success.code(), 0);
    assert_eq!(ExitStatus::Failure.code(), 1);
    assert_eq!(ExitStatus::Error.code(), 2);
}

#[test]
fn tally_counts_each_outcome() {
    let outcomes = vec![
        Ok(CheckResult::NoFixNeeded),
        Ok(CheckResult::FixNeeded("a".into())),
        Ok(CheckResult::FixNeeded("b".into())),
        Ok(CheckResult::FixExecuted("c".into())),
        Err(CheckError::FileCanNotBeRemoved),
    ];
    let t = tally(&outcomes);
    assert_eq!((t.checks, t.no_fix_needed, t.fix_needed, t.fix_executed, t.errors), (5, 1, 2, 1, 1));
}

#[test]
fn only_fixable_checks_fix() {
    assert!(fix_allowed(true, true));
    assert!(!fix_allowed(false, true));
    assert!(!fix_allowed(true, false));
}
