use registry_prune::model::Blob;
use registry_prune::model::Repository;
use registry_prune::model::Tag;
use registry_prune::model::TagDigest;
use registry_prune::prune::Pruner;
use registry_prune::text::candidate_line;
use registry_prune::text::delete_line;
use registry_prune::text::dry_run_report;
use registry_prune::text::fmt_age;
use registry_prune::text::fmt_duration;
use registry_prune::text::record_names;
use registry_prune::Args;

fn record(i: usize) -> Blob {
    Blob { tag_digest: i, date: 100 + i as i64 }
}

#[test]
fn dry_run_issues_no_delete_calls() {
    let pruner = Pruner::new(vec![record(0), record(1)], true);
    assert_eq!(pruner.next_target(), None);
}

#[test]
fn deletions_run_in_sequence_one_per_record() {
    let mut pruner = Pruner::new(vec![record(0), record(1), record(2)], false);
    let mut issued = Vec::new();
    while let Some(b) = pruner.next_target() {
        issued.push(b);
        pruner.record_outcome(true);
    }
    assert_eq!(issued, vec![record(0), record(1), record(2)]);
}

#[test]
fn failure_aborts_remaining_deletions() {
    let mut pruner = Pruner::new(vec![record(0), record(1), record(2)], false);
    assert_eq!(pruner.next_target(), Some(record(0)));
    pruner.record_outcome(true);
    assert_eq!(pruner.next_target(), Some(record(1)));
    pruner.record_outcome(false);
    // The second call failed: the third is never owed.
    assert_eq!(pruner.next_target(), None);
}

#[test]
fn ages_use_the_largest_fitting_unit() {
    assert_eq!(fmt_age(90061), "1 Days");
    assert_eq!(fmt_age(86401), "1 Days");
    assert_eq!(fmt_age(86400), "24 Hours");
    assert_eq!(fmt_age(7200), "2 Hours");
    assert_eq!(fmt_age(61), "1 Minutes");
    assert_eq!(fmt_age(60), "60 Seconds");
    assert_eq!(fmt_age(0), "0 Seconds");
    assert_eq!(fmt_age(-5), "-5 Seconds");
}

#[test]
fn durations_use_the_largest_nonzero_unit() {
    assert_eq!(fmt_duration(1_500_000), "1s");
    assert_eq!(fmt_duration(500_000), "500ms");
    assert_eq!(fmt_duration(500), "500µs");
    assert_eq!(fmt_duration(0), "0µs");
}

#[test]
fn lines_name_the_image() {
    assert_eq!(candidate_line("app", "pr-55", 90061), "- app/pr-55 (Age: 1 Days)");
    assert_eq!(delete_line("app", "pr-55"), "Deleting image app/pr-55");
}

fn scenario_d_lists() -> (Vec<Repository>, Vec<Tag>, Vec<TagDigest>) {
    let repositories = vec![Repository("app".to_string())];
    let tags = vec![
        Tag { name: "latest".to_string(), repo: 0 },
        Tag { name: "pr-55".to_string(), repo: 0 },
    ];
    let digests = vec![
        TagDigest { digest: "sha256:aa".to_string(), tag: 0 },
        TagDigest { digest: "sha256:bb".to_string(), tag: 1 },
    ];
    (repositories, tags, digests)
}

#[test]
fn scenario_d_dry_run_lists_only_old_images() {
    let (repositories, tags, digests) = scenario_d_lists();
    // Only pr-55's record is deletable; the report holds exactly its line.
    let deletable = vec![Blob { tag_digest: 1, date: 1000 }];
    let now = 1000 + 90061;
    let lines = dry_run_report(&deletable, &digests, &tags, &repositories, now).unwrap();
    assert_eq!(lines, vec!["- app/pr-55 (Age: 1 Days)".to_string()]);
}

#[test]
fn report_has_one_line_per_record() {
    let (repositories, tags, digests) = scenario_d_lists();
    let deletable = vec![
        Blob { tag_digest: 0, date: 500 },
        Blob { tag_digest: 1, date: 400 },
    ];
    let lines = dry_run_report(&deletable, &digests, &tags, &repositories, 520).unwrap();
    assert_eq!(lines.len(), 2);
    assert_eq!(lines[0], "- app/latest (Age: 20 Seconds)");
    assert_eq!(lines[1], "- app/pr-55 (Age: 2 Minutes)");
}

#[test]
fn report_refuses_a_dangling_back_reference() {
    let (repositories, tags, digests) = scenario_d_lists();
    let deletable = vec![Blob { tag_digest: 9, date: 0 }];
    assert_eq!(dry_run_report(&deletable, &digests, &tags, &repositories, 100), None);
}

#[test]
fn record_names_follow_back_references() {
    let (repositories, tags, digests) = scenario_d_lists();
    let b = Blob { tag_digest: 1, date: 0 };
    let (repo, tag) = record_names(b, &digests, &tags, &repositories).unwrap();
    assert_eq!(repo, "app");
    assert_eq!(tag, "pr-55");
    assert_eq!(record_names(Blob { tag_digest: 2, date: 0 }, &digests, &tags, &repositories), None);
}

#[test]
fn args_carry_the_run_configuration() {
    let args = Args::new("http://registry.local".to_string(), 86400, false, false, true);
    assert_eq!(args.registry, "http://registry.local");
    assert_eq!(args.retention, 86400);
    assert!(args.dry_run);
    assert!(!args.debug);
    assert!(!args.trace);
}
