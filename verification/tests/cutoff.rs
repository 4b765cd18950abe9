use registry_prune::model::Blob;
use registry_prune::retention::cutoff;
use registry_prune::retention::current_cutoff;
use registry_prune::retention::deletable_blobs;

#[test]
fn cutoff_is_now_minus_retention() {
    assert_eq!(cutoff(1000, 400), Some(600));
    assert_eq!(cutoff(0, 0), Some(0));
    assert_eq!(cutoff(-100, 50), Some(-150));
}

#[test]
fn cutoff_underflow_is_none() {
    assert_eq!(cutoff(i64::MIN, 1), None);
    assert_eq!(cutoff(i64::MIN, 0), Some(i64::MIN));
}

#[test]
fn scenario_c_boundary_is_exclusive() {
    let now: i64 = 2_000_000_000;
    let delete_before = cutoff(now, 86400).unwrap();
    let at_cutoff = Blob { tag_digest: 0, date: now - 86400 };
    let past_cutoff = Blob { tag_digest: 1, date: now - 86401 };
    let fresh = Blob { tag_digest: 2, date: now };
    let picked = deletable_blobs(&vec![at_cutoff, past_cutoff, fresh], delete_before);
    assert_eq!(picked, vec![past_cutoff]);
}

#[test]
fn deletable_keeps_input_order() {
    let picked = deletable_blobs(
        &vec![
            Blob { tag_digest: 0, date: 10 },
            Blob { tag_digest: 1, date: 99 },
            Blob { tag_digest: 2, date: 20 },
        ],
        50,
    );
    assert_eq!(
        picked,
        vec![Blob { tag_digest: 0, date: 10 }, Blob { tag_digest: 2, date: 20 }]
    );
}

#[test]
fn current_cutoff_pair_is_consistent() {
    let (now, delete_before) = current_cutoff(86400).unwrap();
    assert_eq!(delete_before, now - 86400);
}
