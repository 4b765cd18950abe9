use registry_prune::model::Tag;
use registry_prune::retention::repository_eligible;
use registry_prune::retention::select_tags;

fn tag(name: &str, repo: usize) -> Tag {
    Tag { name: name.to_string(), repo }
}

#[test]
fn scenario_a_reserved_slots_block_repository() {
    // latest_count=1, version_count=2, required=4, tag_count=4: not eligible.
    let tags = vec![tag("latest", 0), tag("v1.2", 0), tag("v1.3", 0), tag("abc123", 0)];
    assert!(!repository_eligible(&tags, 0));
    let selected = select_tags(&tags);
    assert!(selected.is_empty());
}

#[test]
fn scenario_b_free_tag_opens_whole_repository() {
    // latest_count=1, version_count=2, required=4, tag_count=5: eligible, and
    // every tag proceeds — "latest" and the version tags included.
    let tags = vec![
        tag("latest", 0),
        tag("v1", 0),
        tag("v2", 0),
        tag("pr-55", 0),
        tag("pr-56", 0),
    ];
    assert!(repository_eligible(&tags, 0));
    let selected = select_tags(&tags);
    assert_eq!(selected, vec![0, 1, 2, 3, 4]);
}

#[test]
fn gate_is_per_repository() {
    // Repository 0 is eligible, repository 1 is not; only 0's tags proceed,
    // in the tag list's order.
    let tags = vec![
        tag("latest", 0),
        tag("a", 0),
        tag("b", 0),
        tag("latest", 1),
        tag("only", 1),
    ];
    assert!(repository_eligible(&tags, 0));
    assert!(!repository_eligible(&tags, 1));
    let selected = select_tags(&tags);
    assert_eq!(selected, vec![0, 1, 2]);
}

#[test]
fn boundary_one_free_tag_needed() {
    // tag_count == required: not eligible.
    let two = vec![tag("latest", 0), tag("a", 0)];
    assert!(!repository_eligible(&two, 0));
    // One more free tag tips it over.
    let three = vec![tag("latest", 0), tag("a", 0), tag("b", 0)];
    assert!(repository_eligible(&three, 0));
}

#[test]
fn any_v_prefix_counts_as_version_tag() {
    // "velvet" starts with "v", so it counts toward the reserved slots.
    let tags = vec![tag("velvet", 0), tag("a", 0)];
    assert!(!repository_eligible(&tags, 0));
    // "V1" does not: the prefix is case-sensitive.
    let tags = vec![tag("V1", 0), tag("a", 0)];
    assert!(repository_eligible(&tags, 0));
}

#[test]
fn empty_repository_is_not_eligible() {
    let tags: Vec<Tag> = Vec::new();
    assert!(!repository_eligible(&tags, 0));
    assert!(select_tags(&tags).is_empty());
}
