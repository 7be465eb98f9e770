use file_renamer::executor::{
    collect_failures, outcome_of, reconcile, RenameEvent, RenameJob, RenameOutcome,
};
use file_renamer::pipeline::{filter_invalid, step_for, ActionOptions, Pipeline, TextState};

#[test]
fn empty_pipeline_is_identity() {
    let pipeline = Pipeline::new();
    let path = String::from("/A/B/FooBar.txt");
    assert_eq!(pipeline.compute_target(&path), path);
    assert_eq!(pipeline.compute_target("weird name with spaces"), "weird name with spaces");
}

#[test]
fn pipeline_applies_steps_left_to_right() {
    let mut pipeline = Pipeline::new();
    pipeline.add_action();
    pipeline.update_action(0, ActionOptions::Prefix, "", "modified");
    pipeline.add_action();
    pipeline.update_action(1, ActionOptions::Suffix, "", "modified");
    let out = pipeline.compute_target("/A/B/FooBar.txt");
    assert_eq!(out, String::from("/A/B/modifiedFooBarmodified.txt"));
}

#[test]
fn pipeline_regex_step_rewrites_the_stem() {
    let mut pipeline = Pipeline::new();
    pipeline.add_action();
    pipeline.update_action(0, ActionOptions::RegexReplace, "^Foo", "Modified");
    let out = pipeline.compute_target("/A/B/FooBar.txt");
    assert_eq!(out, String::from("/A/B/ModifiedBar.txt"));
}

#[test]
fn pipeline_chained_replaces() {
    let mut pipeline = Pipeline::new();
    pipeline.add_action();
    pipeline.update_action(0, ActionOptions::MatchAndReplace, "Foo", "Modified");
    pipeline.add_action();
    pipeline.update_action(1, ActionOptions::MatchAndReplace, "Bar", "");
    let out = pipeline.compute_target("/A/B/FooBar.txt");
    assert_eq!(out, String::from("/A/B/Modified.txt"));
}

#[test]
fn removing_a_step_shifts_later_steps_down() {
    let mut pipeline = Pipeline::new();
    pipeline.add_action();
    pipeline.update_action(0, ActionOptions::Prefix, "", "one_");
    pipeline.add_action();
    pipeline.update_action(1, ActionOptions::Suffix, "", "_two");
    pipeline.remove_action(0);
    let out = pipeline.compute_target("/d/f.txt");
    assert_eq!(out, String::from("/d/f_two.txt"));
}

#[test]
fn fresh_step_is_identity_until_edited() {
    let mut pipeline = Pipeline::new();
    pipeline.add_action();
    let out = pipeline.compute_target("/A/B/FooBar.txt");
    assert_eq!(out, String::from("/A/B/FooBar.txt"));
}

#[test]
fn step_for_builds_each_kind() {
    let replace = step_for(ActionOptions::MatchAndReplace, "a", "b");
    assert_eq!(replace.action("/d/banana.txt"), String::from("/d/bbnana.txt"));
    let regex = step_for(ActionOptions::RegexReplace, "n+", "N");
    assert_eq!(regex.action("/d/banana.txt"), String::from("/d/baNana.txt"));
    let prefix = step_for(ActionOptions::Prefix, "", "pre_");
    assert_eq!(prefix.action("/d/banana.txt"), String::from("/d/pre_banana.txt"));
    let suffix = step_for(ActionOptions::Suffix, "", "_suf");
    assert_eq!(suffix.action("/d/banana.txt"), String::from("/d/banana_suf.txt"));
}

#[test]
fn preview_recomputes_every_target_from_its_source() {
    let mut pipeline = Pipeline::new();
    pipeline.add_action();
    pipeline.update_action(0, ActionOptions::Prefix, "", "new");
    let mut jobs = vec![
        RenameJob { source: String::from("/d/a.txt"), target: String::from("/d/a.txt") },
        RenameJob { source: String::from("/d/b.md"), target: String::from("/stale/target") },
    ];
    pipeline.preview_new_filename(&mut jobs);
    assert_eq!(jobs.len(), 2);
    assert_eq!(jobs[0].source, "/d/a.txt");
    assert_eq!(jobs[0].target, "/d/newa.txt");
    assert_eq!(jobs[1].source, "/d/b.md");
    assert_eq!(jobs[1].target, "/d/newb.md");
}

#[test]
fn filter_invalid_drops_reserved_characters() {
    let out = filter_invalid("a<b>c:d\"e/f\\g|h?i*j.k");
    assert_eq!(out, String::from("abcdefghijk"));
    assert_eq!(filter_invalid(""), String::from(""));
    assert_eq!(filter_invalid("plain"), String::from("plain"));
}

#[test]
fn action_option_labels() {
    assert_eq!(ActionOptions::MatchAndReplace.label(), "Match and Replace");
    assert_eq!(ActionOptions::RegexReplace.label(), "Regex Replace");
    assert_eq!(ActionOptions::Prefix.label(), "Add Prefix");
    assert_eq!(ActionOptions::Suffix.label(), "Add Suffix");
}

#[test]
fn text_state_default_selects_literal_replace() {
    let state = TextState::default();
    assert_eq!(state.pattern, "");
    assert_eq!(state.value, "");
    assert_eq!(state.action_option, Some(ActionOptions::MatchAndReplace));
}

#[test]
fn outcome_of_each_event() {
    assert!(matches!(outcome_of(&RenameEvent::Renamed), RenameOutcome::Succeeded));
    match outcome_of(&RenameEvent::SourceMissing) {
        RenameOutcome::Failed(reason) => assert_eq!(reason, "source no longer exists"),
        RenameOutcome::Succeeded => panic!("a missing source must fail the job"),
    }
    match outcome_of(&RenameEvent::OsError("Permission denied (os error 13)".to_string())) {
        RenameOutcome::Failed(reason) => assert_eq!(reason, "Permission denied (os error 13)"),
        RenameOutcome::Succeeded => panic!("a refused rename must fail the job"),
    }
    match outcome_of(&RenameEvent::Aborted) {
        RenameOutcome::Failed(reason) => assert_eq!(reason, "executor fault"),
        RenameOutcome::Succeeded => panic!("an aborted task must fail the job"),
    }
}

#[test]
fn commit_with_one_vanished_source_fails_only_that_job() {
    // Job 1's source exists and is renamed; job 2's source was deleted
    // beforehand.  Exactly one failure comes back, job 1 succeeds, and its
    // tracked source becomes its target.
    let jobs = vec![
        RenameJob { source: String::from("/d/one.txt"), target: String::from("/d/uno.txt") },
        RenameJob { source: String::from("/d/two.txt"), target: String::from("/d/dos.txt") },
    ];
    let outcomes = vec![
        outcome_of(&RenameEvent::Renamed),
        outcome_of(&RenameEvent::SourceMissing),
    ];
    let failures = collect_failures(&jobs, &outcomes);
    assert_eq!(failures.len(), 1);
    assert_eq!(failures[0].old_path, "/d/two.txt");
    assert_eq!(failures[0].error, "source no longer exists");

    let mut jobs = jobs;
    reconcile(&mut jobs, &outcomes);
    assert_eq!(jobs[0].source, "/d/uno.txt");
    assert_eq!(jobs[0].target, "/d/uno.txt");
    assert_eq!(jobs[1].source, "/d/two.txt");
    assert_eq!(jobs[1].target, "/d/dos.txt");
}

#[test]
fn every_job_gets_exactly_one_outcome() {
    let jobs = vec![
        RenameJob { source: String::from("/d/a"), target: String::from("/d/a2") },
        RenameJob { source: String::from("/d/b"), target: String::from("/d/b2") },
        RenameJob { source: String::from("/d/c"), target: String::from("/d/c2") },
    ];
    let outcomes = vec![
        outcome_of(&RenameEvent::OsError("File exists (os error 17)".to_string())),
        outcome_of(&RenameEvent::Renamed),
        outcome_of(&RenameEvent::SourceMissing),
    ];
    let failures = collect_failures(&jobs, &outcomes);
    let succeeded = outcomes
        .iter()
        .filter(|o| matches!(o, RenameOutcome::Succeeded))
        .count();
    assert_eq!(failures.len() + succeeded, jobs.len());
    assert_eq!(failures[0].old_path, "/d/a");
    assert_eq!(failures[1].old_path, "/d/c");
}

#[test]
fn empty_commit_reports_no_failures() {
    let jobs: Vec<RenameJob> = Vec::new();
    let outcomes: Vec<RenameOutcome> = Vec::new();
    let failures = collect_failures(&jobs, &outcomes);
    assert!(failures.is_empty());
}
