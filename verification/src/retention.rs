use vstd::prelude::*;
use vstd::string::StrSliceExecFns;
use vstd::string::StringExecFns;
use crate::clock::now_unix;
use crate::model::Blob;
use crate::model::Tag;
use crate::model::TagDigest;

verus! {

/// A tag named exactly "latest".
pub open spec fn is_latest_name(s: Seq<char>) -> bool {
    s == "latest"@
}

/// A tag whose name starts with the prefix "v".
pub open spec fn is_version_name(s: Seq<char>) -> bool {
    s.len() >= 1 && s[0] == 'v'
}

/// How many tags of repository `repo` stand in the run's tag list.
pub open spec fn tag_count(tags: Seq<Tag>, repo: int) -> int
    decreases tags.len(),
{
    if tags.len() == 0 {
        0
    } else {
        tag_count(tags.drop_last(), repo) + if tags.last().repo == repo {
            1int
        } else {
            0int
        }
    }
}

/// Whether repository `repo` has a tag named exactly "latest".
pub open spec fn has_latest(tags: Seq<Tag>, repo: int) -> bool {
    exists|i: int|
        0 <= i < tags.len() && (#[trigger] tags[i]).repo == repo && is_latest_name(tags[i].name@)
}

/// 1 where the repository has a "latest" tag, else 0.
pub open spec fn latest_count(tags: Seq<Tag>, repo: int) -> int {
    if has_latest(tags, repo) {
        1
    } else {
        0
    }
}

/// How many tags of repository `repo` are version tags.
pub open spec fn version_count(tags: Seq<Tag>, repo: int) -> int
    decreases tags.len(),
{
    if tags.len() == 0 {
        0
    } else {
        version_count(tags.drop_last(), repo) + if tags.last().repo == repo && is_version_name(
            tags.last().name@,
        ) {
            1int
        } else {
            0int
        }
    }
}

/// The repository-eligibility gate: a repository's tags proceed only where its
/// tag count strictly exceeds one reserved slot plus its "latest" tag plus its
/// version tags. It is decided once for a whole repository and shields no
/// individual tag of an eligible repository.
pub open spec fn repo_eligible(tags: Seq<Tag>, repo: int) -> bool {
    tag_count(tags, repo) > 1 + latest_count(tags, repo) + version_count(tags, repo)
}

/// Evaluates the eligibility gate for one repository over the run's tag list.
pub fn repository_eligible(tags: &Vec<Tag>, repo: usize) -> (r: bool)
    ensures
        r == repo_eligible(tags@, repo as int),
{
    let latest_name = String::from_str("latest");
    let mut total: usize = 0;
    let mut version: usize = 0;
    let mut found: bool = false;
    let mut i: usize = 0;
    while i < tags.len()
        invariant
            latest_name@ == "latest"@,
            0 <= i <= tags@.len(),
            total <= i,
            version <= i,
            total == tag_count(tags@.take(i as int), repo as int),
            version == version_count(tags@.take(i as int), repo as int),
            found == has_latest(tags@.take(i as int), repo as int),
        decreases tags@.len() - i,
    {
        let ghost k = i as int;
        let t = &tags[i];
        proof {
            assert(tags@.take(k + 1).drop_last() =~= tags@.take(k));
            assert(tags@.take(k + 1).last() == tags@[k]);
        }
        if t.repo == repo {
            total = total + 1;
            if t.name == latest_name {
                found = true;
                proof {
                    assert(tags@.take(k + 1)[k] == tags@[k]);
                }
            }
            if t.name.as_str().unicode_len() > 0 && t.name.as_str().get_char(0) == 'v' {
                version = version + 1;
            }
        }
        proof {
            assert forall|j: int|
                0 <= j < tags@.take(k + 1).len() && (#[trigger] tags@.take(k + 1)[j]).repo
                    == repo as int && is_latest_name(tags@.take(k + 1)[j].name@) implies found by {
                if j < k {
                    assert(tags@.take(k)[j] == tags@.take(k + 1)[j]);
                }
            }
            if found && !has_latest(tags@.take(k), repo as int) {
                assert(tags@.take(k + 1)[k] == tags@[k]);
            }
        }
        i = i + 1;
    }
    proof {
        assert(tags@.take(tags@.len() as int) =~= tags@);
    }
    (total as u128) > 1u128 + (if found {
        1u128
    } else {
        0u128
    }) + (version as u128)
}

/// The tag indices the repository gate lets through, among the first `n` tags.
pub open spec fn eligible_tag_indices(tags: Seq<Tag>, n: int) -> Seq<usize>
    decreases n,
{
    if n <= 0 {
        Seq::empty()
    } else {
        eligible_tag_indices(tags, n - 1) + if repo_eligible(tags, tags[n - 1].repo as int) {
            seq![(n - 1) as usize]
        } else {
            Seq::empty()
        }
    }
}

/// The retention filter's first decision over the whole run: which tags
/// proceed to digest resolution, as indices into the run's tag list, in that
/// list's order.
pub open spec fn spec_selected_tags(tags: Seq<Tag>) -> Seq<usize> {
    eligible_tag_indices(tags, tags.len() as int)
}

/// Applies the repository gate to every tag: the tags of an eligible
/// repository — "latest" and version tags included — proceed; an ineligible
/// repository's tags are dropped and are never resolved further.
pub fn select_tags(tags: &Vec<Tag>) -> (r: Vec<usize>)
    ensures
        r@ == spec_selected_tags(tags@),
        forall|j: int| 0 <= j < r@.len() ==> (#[trigger] r@[j]) < tags@.len(),
{
    let mut out: Vec<usize> = Vec::new();
    let mut i: usize = 0;
    while i < tags.len()
        invariant
            0 <= i <= tags@.len(),
            out@ == eligible_tag_indices(tags@, i as int),
            forall|j: int| 0 <= j < out@.len() ==> (#[trigger] out@[j]) < tags@.len(),
        decreases tags@.len() - i,
    {
        let ghost k = i as int;
        if repository_eligible(tags, tags[i].repo) {
            out.push(i);
        }
        proof {
            assert(out@ =~= eligible_tag_indices(tags@, k + 1));
        }
        i = i + 1;
    }
    proof {
        assert(eligible_tag_indices(tags@, tags@.len() as int) == spec_selected_tags(tags@));
    }
    out
}

proof fn lemma_eligible_indices_members(tags: Seq<Tag>, n: int, i: int)
    requires
        tags.len() <= usize::MAX,
        0 <= i < tags.len(),
        0 <= n <= tags.len(),
    ensures
        repo_eligible(tags, tags[i].repo as int) && i < n ==> eligible_tag_indices(
            tags,
            n,
        ).contains(i as usize),
        !repo_eligible(tags, tags[i].repo as int) ==> !eligible_tag_indices(tags, n).contains(
            i as usize,
        ),
    decreases n,
{
    if n > 0 {
        lemma_eligible_indices_members(tags, n - 1, i);
        let prev = eligible_tag_indices(tags, n - 1);
        let cur = eligible_tag_indices(tags, n);
        if repo_eligible(tags, tags[n - 1].repo as int) {
            assert(cur == prev + seq![(n - 1) as usize]);
            assert(cur[prev.len() as int] == (n - 1) as usize);
            if repo_eligible(tags, tags[i].repo as int) && i < n {
                if i == n - 1 {
                    assert(cur.contains(i as usize));
                } else {
                    let j = choose|j: int| 0 <= j < prev.len() && prev[j] == i as usize;
                    assert(cur[j] == i as usize);
                    assert(cur.contains(i as usize));
                }
            }
            if !repo_eligible(tags, tags[i].repo as int) && cur.contains(i as usize) {
                let j = choose|j: int| 0 <= j < cur.len() && cur[j] == i as usize;
                if j < prev.len() {
                    assert(prev[j] == i as usize);
                    assert(prev.contains(i as usize));
                    assert(false);
                } else {
                    assert(cur[j] == (n - 1) as usize);
                    assert(i == n - 1);
                    assert(false);
                }
            }
        } else {
            assert(cur =~= prev);
        }
    }
}

/// An ineligible repository's tags never proceed: where a repository's tag
/// count is at most one reserved slot plus its "latest" and version tags, no
/// tag of that repository is selected for digest resolution, whatever its
/// age.
pub proof fn lemma_ineligible_repository_dropped(tags: Seq<Tag>, i: int)
    requires
        tags.len() <= usize::MAX,
        0 <= i < tags.len(),
        !repo_eligible(tags, tags[i].repo as int),
    ensures
        !spec_selected_tags(tags).contains(i as usize),
{
    lemma_eligible_indices_members(tags, tags.len() as int, i);
}

/// An eligible repository's tags all proceed: every tag of such a repository
/// — "latest" and version-prefixed tags included — is selected and so goes on
/// to digest resolution and the age cutoff.
pub proof fn lemma_eligible_repository_kept(tags: Seq<Tag>, i: int)
    requires
        tags.len() <= usize::MAX,
        0 <= i < tags.len(),
        repo_eligible(tags, tags[i].repo as int),
    ensures
        spec_selected_tags(tags).contains(i as usize),
{
    lemma_eligible_indices_members(tags, tags.len() as int, i);
}

/// A digest list built from the run's selection, one record per selected tag
/// in order — what the digest-resolution stage hands back on success.
pub open spec fn digests_follow_selection(digests: Seq<TagDigest>, sel: Seq<usize>) -> bool {
    digests.len() == sel.len() && forall|j: int|
        0 <= j < digests.len() ==> (#[trigger] digests[j]).tag == sel[j]
}

/// A dropped tag is never resolved: where a repository is ineligible, no
/// digest record of the run references any of its tags, whatever the images'
/// ages.
pub proof fn lemma_dropped_tags_unresolved(
    tags: Seq<Tag>,
    digests: Seq<TagDigest>,
    i: int,
)
    requires
        tags.len() <= usize::MAX,
        0 <= i < tags.len(),
        !repo_eligible(tags, tags[i].repo as int),
        digests_follow_selection(digests, spec_selected_tags(tags)),
    ensures
        forall|j: int| 0 <= j < digests.len() ==> (#[trigger] digests[j]).tag != i as usize,
{
    lemma_ineligible_repository_dropped(tags, i);
    assert forall|j: int| 0 <= j < digests.len() implies (#[trigger] digests[j]).tag
        != i as usize by {
        if digests[j].tag == i as usize {
            assert(spec_selected_tags(tags)[j] == i as usize);
            assert(spec_selected_tags(tags).contains(i as usize));
        }
    }
}

/// A kept tag is always resolved: where a repository is eligible, every one
/// of its tags — "latest" and version tags included — has a digest record in
/// the run and so goes on to the age cutoff.
pub proof fn lemma_kept_tags_resolved(tags: Seq<Tag>, digests: Seq<TagDigest>, i: int)
    requires
        tags.len() <= usize::MAX,
        0 <= i < tags.len(),
        repo_eligible(tags, tags[i].repo as int),
        digests_follow_selection(digests, spec_selected_tags(tags)),
    ensures
        exists|j: int| 0 <= j < digests.len() && (#[trigger] digests[j]).tag == i as usize,
{
    lemma_eligible_repository_kept(tags, i);
    let sel = spec_selected_tags(tags);
    let j = choose|j: int| 0 <= j < sel.len() && sel[j] == i as usize;
    assert(digests[j].tag == i as usize);
}

/// An image record is deletable exactly when its timestamp lies strictly
/// before the cutoff; a record exactly at the cutoff is retained.
pub open spec fn spec_deletable(date: i64, delete_before: i64) -> bool {
    date < delete_before
}

/// The deletion cutoff `now - retention`, or `None` where that difference
/// underflows i64 (a clock reading in the far past).
pub fn cutoff(now: i64, retention: u32) -> (r: Option<i64>)
    ensures
        r matches Some(c) ==> c == now - retention,
        r is None <==> now - retention < i64::MIN,
{
    now.checked_sub_unsigned(retention as u64)
}

/// Reads the clock and derives the deletion cutoff: the clock's reading now
/// and `now - retention`. Whatever the clock returned, the pair is consistent;
/// `None` only where the difference underflows i64.
pub fn current_cutoff(retention: u32) -> (r: Option<(i64, i64)>)
    ensures
        r matches Some(p) ==> p.1 == p.0 - retention,
{
    let now = now_unix();
    match cutoff(now, retention) {
        Some(c) => Some((now, c)),
        None => None,
    }
}

/// The retention filter's second decision: the records strictly older than
/// the cutoff, in the record list's order. A record exactly at the cutoff is
/// retained.
pub fn deletable_blobs(blobs: &Vec<Blob>, delete_before: i64) -> (r: Vec<Blob>)
    ensures
        r@ == blobs@.filter(|b: Blob| spec_deletable(b.date, delete_before)),
{
    let mut out: Vec<Blob> = Vec::new();
    let mut i: usize = 0;
    while i < blobs.len()
        invariant
            0 <= i <= blobs@.len(),
            out@ == blobs@.take(i as int).filter(|b: Blob| spec_deletable(b.date, delete_before)),
        decreases blobs@.len() - i,
    {
        let ghost k = i as int;
        let b = blobs[i];
        if b.date < delete_before {
            out.push(b);
        }
        proof {
            reveal(Seq::filter);
            assert(blobs@.take(k + 1).drop_last() =~= blobs@.take(k));
            assert(blobs@.take(k + 1).last() == blobs@[k]);
        }
        i = i + 1;
    }
    proof {
        assert(blobs@.take(blobs@.len() as int) =~= blobs@);
    }
    out
}

/// The age boundary is exclusive: a record strictly older than the cutoff is
/// among the deletable ones, a record at or after the cutoff — the record
/// created exactly `retention` seconds ago included — is not.
pub proof fn lemma_age_cutoff_boundary(blobs: Seq<Blob>, delete_before: i64, i: int)
    requires
        0 <= i < blobs.len(),
    ensures
        spec_deletable(blobs[i].date, delete_before) ==> blobs.filter(
            |b: Blob| spec_deletable(b.date, delete_before),
        ).contains(blobs[i]),
        !spec_deletable(blobs[i].date, delete_before) ==> !blobs.filter(
            |b: Blob| spec_deletable(b.date, delete_before),
        ).contains(blobs[i]),
{
    let pred = |b: Blob| spec_deletable(b.date, delete_before);
    if pred(blobs[i]) {
        blobs.lemma_filter_contains(pred, i);
    }
    if blobs.filter(pred).contains(blobs[i]) {
        let j = choose|j: int| 0 <= j < blobs.filter(pred).len() && blobs.filter(pred)[j]
            == blobs[i];
        blobs.lemma_filter_pred(pred, j);
    }
}

} // verus!
