use registry_prune::model::RegistryError;
use registry_prune::pipeline::blobs_stage;
use registry_prune::pipeline::collect_results;
use registry_prune::pipeline::digests_stage;
use registry_prune::pipeline::repositories_from_listing;
use registry_prune::pipeline::tags_stage;

#[test]
fn missing_repositories_field_is_empty_list() {
    let repos = repositories_from_listing(None);
    assert!(repos.is_empty());
}

#[test]
fn repositories_keep_listing_order() {
    let repos = repositories_from_listing(Some(vec!["app".to_string(), "web".to_string()]));
    assert_eq!(repos.len(), 2);
    assert_eq!(repos[0].0, "app");
    assert_eq!(repos[1].0, "web");
}

#[test]
fn missing_tags_field_is_empty_list() {
    let tags = tags_stage(vec![Ok(None), Ok(Some(vec!["a".to_string()]))]).unwrap();
    assert_eq!(tags.len(), 1);
    assert_eq!(tags[0].name, "a");
    assert_eq!(tags[0].repo, 1);
}

#[test]
fn tags_bind_to_their_repository_in_order() {
    let tags = tags_stage(vec![
        Ok(Some(vec!["latest".to_string(), "v1".to_string()])),
        Ok(Some(vec!["x".to_string()])),
    ])
    .unwrap();
    let got: Vec<(String, usize)> = tags.into_iter().map(|t| (t.name, t.repo)).collect();
    assert_eq!(
        got,
        vec![
            ("latest".to_string(), 0),
            ("v1".to_string(), 0),
            ("x".to_string(), 1)
        ]
    );
}

#[test]
fn tags_stage_fails_with_first_error_in_order() {
    let r = tags_stage(vec![
        Ok(Some(vec!["a".to_string()])),
        Err(RegistryError::Status(500)),
        Err(RegistryError::Transport),
    ]);
    assert_eq!(r.unwrap_err(), RegistryError::Status(500));
}

#[test]
fn collect_results_returns_all_successes_in_order() {
    let mut outcomes: Vec<Result<u32, RegistryError>> = vec![Ok(1), Ok(2), Ok(3)];
    assert_eq!(collect_results(&mut outcomes).unwrap(), vec![1, 2, 3]);
}

#[test]
fn collect_results_reports_first_failure() {
    let mut outcomes: Vec<Result<u32, RegistryError>> =
        vec![Ok(1), Err(RegistryError::Transport), Err(RegistryError::Parse)];
    assert_eq!(
        collect_results(&mut outcomes).unwrap_err(),
        RegistryError::Transport
    );
}

#[test]
fn digests_bind_to_selected_tags() {
    let selected = vec![3, 7];
    let digests = digests_stage(
        &selected,
        vec![Ok(Some("sha256:aa".to_string())), Ok(Some("sha256:bb".to_string()))],
    )
    .unwrap();
    assert_eq!(digests.len(), 2);
    assert_eq!(digests[0].digest, "sha256:aa");
    assert_eq!(digests[0].tag, 3);
    assert_eq!(digests[1].digest, "sha256:bb");
    assert_eq!(digests[1].tag, 7);
}

#[test]
fn missing_config_digest_is_a_parse_error() {
    let selected = vec![0, 1];
    let r = digests_stage(
        &selected,
        vec![Ok(None), Err(RegistryError::Transport)],
    );
    // The missing digest at index 0 comes before the transport failure.
    assert_eq!(r.unwrap_err(), RegistryError::Parse);
}

#[test]
fn blob_timestamps_parse_as_iso8601() {
    let blobs = blobs_stage(vec![
        Ok(Some("2021-01-01T00:00:00Z".to_string())),
        Ok(Some("2021-01-01T01:00:00Z".to_string())),
    ])
    .unwrap();
    assert_eq!(blobs.len(), 2);
    assert_eq!(blobs[0].tag_digest, 0);
    assert_eq!(blobs[0].date, 1609459200);
    assert_eq!(blobs[1].tag_digest, 1);
    assert_eq!(blobs[1].date, 1609459200 + 3600);
}

#[test]
fn unparseable_timestamp_is_a_parse_error() {
    let r = blobs_stage(vec![Ok(Some("yesterday-ish".to_string()))]);
    assert_eq!(r.unwrap_err(), RegistryError::Parse);
}

#[test]
fn missing_created_field_is_a_parse_error() {
    let r = blobs_stage(vec![Ok(None)]);
    assert_eq!(r.unwrap_err(), RegistryError::Parse);
}
