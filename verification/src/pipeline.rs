use vstd::prelude::*;
use crate::clock::iso8601_epoch;
use crate::clock::parse_iso8601_epoch;
use crate::model::Blob;
use crate::model::RegistryError;
use crate::model::Repository;
use crate::model::Tag;
use crate::model::TagDigest;
use crate::model::tags_wf;

verus! {

/// The first failure among a stage's outcomes, in input order; `None` when
/// every call succeeded.
pub open spec fn first_error<T>(rs: Seq<Result<T, RegistryError>>) -> Option<RegistryError>
    decreases rs.len(),
{
    if rs.len() == 0 {
        None
    } else if rs[0] is Err {
        Some(rs[0]->Err_0)
    } else {
        first_error(rs.drop_first())
    }
}

proof fn lemma_first_error_at<T>(rs: Seq<Result<T, RegistryError>>, i: int)
    requires
        0 <= i < rs.len(),
        forall|j: int| 0 <= j < i ==> (#[trigger] rs[j]) is Ok,
        rs[i] is Err,
    ensures
        first_error(rs) == Some(rs[i]->Err_0),
    decreases i,
{
    if i > 0 {
        lemma_first_error_at(rs.drop_first(), i - 1);
    }
}

/// A stage's join: every task has finished and handed in its outcome, in input
/// order. Either all succeeded, and the stage's value is every success in that
/// order, or the whole stage fails with the first failure in input order.
pub fn collect_results<T>(results: &mut Vec<Result<T, RegistryError>>) -> (r: Result<
    Vec<T>,
    RegistryError,
>)
    ensures
        r is Ok ==> forall|i: int|
            0 <= i < old(results)@.len() ==> (#[trigger] old(results)@[i]) is Ok,
        r is Ok ==> r->Ok_0@ == old(results)@.map_values(
            |x: Result<T, RegistryError>| x->Ok_0,
        ),
        r is Err ==> first_error(old(results)@) == Some(r->Err_0),
{
    let ghost all = old(results)@;
    let mut out: Vec<T> = Vec::new();
    while results.len() > 0
        invariant
            all == old(results)@,
            out@.len() + results@.len() == all.len(),
            results@ == all.subrange(out@.len() as int, all.len() as int),
            forall|j: int| 0 <= j < out@.len() ==> (#[trigger] all[j]) is Ok,
            out@ == all.take(out@.len() as int).map_values(
                |x: Result<T, RegistryError>| x->Ok_0,
            ),
        decreases results@.len(),
    {
        let ghost k = out@.len() as int;
        let x = results.remove(0);
        proof {
            assert(x == all[k]);
            assert(results@ =~= all.subrange(k + 1, all.len() as int));
        }
        match x {
            Ok(t) => {
                out.push(t);
                proof {
                    assert(out@ =~= all.take(k + 1).map_values(
                        |x: Result<T, RegistryError>| x->Ok_0,
                    ));
                }
            },
            Err(e) => {
                proof {
                    lemma_first_error_at(all, k);
                }
                return Err(e);
            },
        }
    }
    proof {
        assert(all.take(all.len() as int) =~= all);
    }
    Ok(out)
}

/// The repositories a catalog listing names; a missing field is the empty
/// list, not an error.
pub open spec fn listing_repositories(names: Option<Vec<String>>) -> Seq<Repository> {
    match names {
        Some(ns) => ns@.map_values(|n: String| Repository(n)),
        None => Seq::empty(),
    }
}

/// Turns the catalog's optional repositories field into the run's repository
/// list, keeping the listing's order; a missing field yields the empty list.
pub fn repositories_from_listing(names: Option<Vec<String>>) -> (r: Vec<Repository>)
    ensures
        r@ == listing_repositories(names),
{
    match names {
        None => Vec::new(),
        Some(mut ns) => {
            let ghost all = ns@;
            let mut out: Vec<Repository> = Vec::new();
            while ns.len() > 0
                invariant
                    out@.len() + ns@.len() == all.len(),
                    ns@ == all.subrange(out@.len() as int, all.len() as int),
                    out@ == all.take(out@.len() as int).map_values(|n: String| Repository(n)),
                decreases ns@.len(),
            {
                let ghost k = out@.len() as int;
                let n = ns.remove(0);
                proof {
                    assert(n == all[k]);
                    assert(ns@ =~= all.subrange(k + 1, all.len() as int));
                }
                out.push(Repository(n));
                proof {
                    assert(out@ =~= all.take(k + 1).map_values(|n: String| Repository(n)));
                }
            }
            proof {
                assert(all.take(all.len() as int) =~= all);
            }
            out
        },
    }
}

/// The tags one repository's listing names, each bound to that repository by
/// index; a missing field is the empty list, not an error.
pub open spec fn listing_tags(names: Option<Vec<String>>, repo: usize) -> Seq<Tag> {
    match names {
        Some(ns) => ns@.map_values(|n: String| Tag { name: n, repo }),
        None => Seq::empty(),
    }
}

/// The tags a successful listing outcome contributes; a failed one
/// contributes nothing.
pub open spec fn outcome_tags(
    x: Result<Option<Vec<String>>, RegistryError>,
    repo: usize,
) -> Seq<Tag> {
    match x {
        Ok(names) => listing_tags(names, repo),
        Err(_) => Seq::empty(),
    }
}

/// The run's whole tag list: the tags of the first `n` repositories'
/// listings, repository by repository, each in its listing's order.
pub open spec fn all_tags_upto(
    ls: Seq<Result<Option<Vec<String>>, RegistryError>>,
    n: int,
) -> Seq<Tag>
    decreases n,
{
    if n <= 0 {
        Seq::empty()
    } else {
        all_tags_upto(ls, n - 1) + outcome_tags(ls[n - 1], (n - 1) as usize)
    }
}

pub open spec fn all_tags(ls: Seq<Result<Option<Vec<String>>, RegistryError>>) -> Seq<Tag> {
    all_tags_upto(ls, ls.len() as int)
}

proof fn lemma_all_tags_wf(ls: Seq<Result<Option<Vec<String>>, RegistryError>>, n: int)
    requires
        0 <= n <= ls.len(),
    ensures
        tags_wf(all_tags_upto(ls, n), ls.len() as int),
    decreases n,
{
    if n > 0 {
        lemma_all_tags_wf(ls, n - 1);
    }
}

/// Turns one repository's optional tags field into its tag list.
fn tags_of_listing(names: Option<Vec<String>>, repo: usize) -> (r: Vec<Tag>)
    ensures
        r@ == listing_tags(names, repo),
{
    match names {
        None => Vec::new(),
        Some(mut ns) => {
            let ghost all = ns@;
            let mut out: Vec<Tag> = Vec::new();
            while ns.len() > 0
                invariant
                    out@.len() + ns@.len() == all.len(),
                    ns@ == all.subrange(out@.len() as int, all.len() as int),
                    out@ == all.take(out@.len() as int).map_values(
                        |n: String| Tag { name: n, repo },
                    ),
                decreases ns@.len(),
            {
                let ghost k = out@.len() as int;
                let n = ns.remove(0);
                proof {
                    assert(n == all[k]);
                    assert(ns@ =~= all.subrange(k + 1, all.len() as int));
                }
                out.push(Tag { name: n, repo });
                proof {
                    assert(out@ =~= all.take(k + 1).map_values(
                        |n: String| Tag { name: n, repo },
                    ));
                }
            }
            proof {
                assert(all.take(all.len() as int) =~= all);
            }
            out
        },
    }
}

/// The tag-listing stage's join: one listing outcome per repository, in the
/// repository list's order. Either every listing succeeded and the run's tags
/// come back repository by repository — a missing tags field read as the
/// empty list — or the stage fails with the first failure in that order.
pub fn tags_stage(listings: Vec<Result<Option<Vec<String>>, RegistryError>>) -> (r: Result<
    Vec<Tag>,
    RegistryError,
>)
    ensures
        r is Ok ==> forall|i: int|
            0 <= i < listings@.len() ==> (#[trigger] listings@[i]) is Ok,
        r is Ok ==> r->Ok_0@ == all_tags(listings@),
        r is Ok ==> tags_wf(r->Ok_0@, listings@.len() as int),
        r is Err ==> first_error(listings@) == Some(r->Err_0),
{
    let ghost all = listings@;
    let mut rest = listings;
    let mut parts: Vec<Result<Vec<Tag>, RegistryError>> = Vec::new();
    while rest.len() > 0
        invariant
            parts@.len() + rest@.len() == all.len(),
            rest@ == all.subrange(parts@.len() as int, all.len() as int),
            forall|j: int| 0 <= j < parts@.len() ==> {
                &&& ((#[trigger] parts@[j]) is Ok <==> all[j] is Ok)
                &&& (parts@[j] is Ok ==> parts@[j]->Ok_0@ == outcome_tags(all[j], j as usize))
                &&& (parts@[j] is Err ==> parts@[j]->Err_0 == all[j]->Err_0)
            },
        decreases rest@.len(),
    {
        let ghost k = parts@.len() as int;
        let repo = parts.len();
        let x = rest.remove(0);
        proof {
            assert(x == all[k]);
            assert(rest@ =~= all.subrange(k + 1, all.len() as int));
        }
        let y = match x {
            Ok(names) => Ok(tags_of_listing(names, repo)),
            Err(e) => Err(e),
        };
        parts.push(y);
    }
    let ghost mapped = parts@;
    match collect_results(&mut parts) {
        Err(e) => {
            proof {
                lemma_first_error_congruent(mapped, all);
            }
            Err(e)
        },
        Ok(mut lists) => {
            proof {
                assert forall|i: int| 0 <= i < all.len() implies (#[trigger] all[i]) is Ok by {
                    assert(mapped[i] is Ok);
                }
            }
            let ghost lv = lists@;
            let mut out: Vec<Tag> = Vec::new();
            let ghost mut i: int = 0;
            while lists.len() > 0
                invariant
                    lv == mapped.map_values(|x: Result<Vec<Tag>, RegistryError>| x->Ok_0),
                    forall|j: int| 0 <= j < mapped.len() ==> (#[trigger] mapped[j]) is Ok
                        && mapped[j]->Ok_0@ == outcome_tags(all[j], j as usize),
                    lv.len() == all.len(),
                    i + lists@.len() == lv.len(),
                    0 <= i <= lv.len(),
                    lists@ == lv.subrange(i, lv.len() as int),
                    out@ == all_tags_upto(all, i),
                decreases lists@.len(),
            {
                let ghost k = i;
                let mut part = lists.remove(0);
                proof {
                    assert(part == lv[k]);
                    assert(lists@ =~= lv.subrange(k + 1, lv.len() as int));
                    assert(lv[k]@ == outcome_tags(all[k], k as usize));
                }
                out.append(&mut part);
                proof {
                    i = k + 1;
                    assert(all_tags_upto(all, k + 1) == all_tags_upto(all, k) + outcome_tags(
                        all[k],
                        k as usize,
                    ));
                }
            }
            proof {
                lemma_all_tags_wf(all, all.len() as int);
            }
            Ok(out)
        },
    }
}

/// What one manifest fetch's outcome resolves to for the tag at index `tag`:
/// the digest record, or a Parse failure where the manifest carried no config
/// digest.
pub open spec fn digest_outcome(
    x: Result<Option<String>, RegistryError>,
    tag: usize,
) -> Result<TagDigest, RegistryError> {
    match x {
        Ok(Some(d)) => Ok(TagDigest { digest: d, tag }),
        Ok(None) => Err(RegistryError::Parse),
        Err(e) => Err(e),
    }
}

pub open spec fn mapped_digests(
    rs: Seq<Result<Option<String>, RegistryError>>,
    sel: Seq<usize>,
) -> Seq<Result<TagDigest, RegistryError>> {
    Seq::new(rs.len(), |j: int| digest_outcome(rs[j], sel[j]))
}

/// The digest-resolution stage's join: one manifest outcome per selected tag,
/// in the selection's order. Either every tag resolved to its manifest's
/// config digest, or the stage fails with the first failure in that order; a
/// manifest without a config digest is a Parse failure.
pub fn digests_stage(
    selected: &Vec<usize>,
    results: Vec<Result<Option<String>, RegistryError>>,
) -> (r: Result<Vec<TagDigest>, RegistryError>)
    requires
        results@.len() == selected@.len(),
    ensures
        r is Ok ==> {
            &&& r->Ok_0@.len() == results@.len()
            &&& forall|j: int|
                0 <= j < results@.len() ==> (#[trigger] mapped_digests(results@, selected@)[j])
                    is Ok
            &&& forall|j: int|
                0 <= j < results@.len() ==> #[trigger] r->Ok_0@[j] == digest_outcome(
                    results@[j],
                    selected@[j],
                )->Ok_0
        },
        r is Err ==> first_error(mapped_digests(results@, selected@)) == Some(r->Err_0),
{
    let ghost all = results@;
    let mut rest = results;
    let mut parts: Vec<Result<TagDigest, RegistryError>> = Vec::new();
    while rest.len() > 0
        invariant
            all.len() == selected@.len(),
            parts@.len() + rest@.len() == all.len(),
            rest@ == all.subrange(parts@.len() as int, all.len() as int),
            forall|j: int|
                0 <= j < parts@.len() ==> (#[trigger] parts@[j]) == digest_outcome(
                    all[j],
                    selected@[j],
                ),
        decreases rest@.len(),
    {
        let ghost k = parts@.len() as int;
        let tag = selected[parts.len()];
        let x = rest.remove(0);
        proof {
            assert(x == all[k]);
            assert(rest@ =~= all.subrange(k + 1, all.len() as int));
        }
        let y = match x {
            Ok(Some(d)) => Ok(TagDigest { digest: d, tag }),
            Ok(None) => Err(RegistryError::Parse),
            Err(e) => Err(e),
        };
        parts.push(y);
    }
    let ghost mapped = parts@;
    proof {
        assert(mapped =~= mapped_digests(all, selected@));
    }
    collect_results(&mut parts)
}

/// What one blob fetch's outcome resolves to for the digest record at index
/// `idx`: the image record with its creation timestamp, or a Parse failure
/// where the metadata had no created field or an unparseable timestamp.
pub open spec fn blob_outcome(x: Result<Option<String>, RegistryError>, idx: usize) -> Result<
    Blob,
    RegistryError,
> {
    match x {
        Ok(Some(created)) => match iso8601_epoch(created@) {
            Some(t) => Ok(Blob { tag_digest: idx, date: t }),
            None => Err(RegistryError::Parse),
        },
        Ok(None) => Err(RegistryError::Parse),
        Err(e) => Err(e),
    }
}

pub open spec fn mapped_blob_outcomes(rs: Seq<Result<Option<String>, RegistryError>>) -> Seq<
    Result<Blob, RegistryError>,
> {
    Seq::new(rs.len(), |j: int| blob_outcome(rs[j], j as usize))
}

/// The blob-inspection stage's join: one metadata outcome per digest record,
/// in the digest list's order. Either every digest resolved to a creation
/// timestamp, or the stage fails with the first failure in that order; a
/// missing or unparseable created field is a Parse failure.
pub fn blobs_stage(results: Vec<Result<Option<String>, RegistryError>>) -> (r: Result<
    Vec<Blob>,
    RegistryError,
>)
    ensures
        r is Ok ==> {
            &&& r->Ok_0@.len() == results@.len()
            &&& forall|j: int|
                0 <= j < results@.len() ==> (#[trigger] mapped_blob_outcomes(results@)[j]) is Ok
            &&& forall|j: int|
                0 <= j < results@.len() ==> #[trigger] r->Ok_0@[j] == blob_outcome(
                    results@[j],
                    j as usize,
                )->Ok_0
        },
        r is Err ==> first_error(mapped_blob_outcomes(results@)) == Some(r->Err_0),
{
    let ghost all = results@;
    let mut rest = results;
    let mut parts: Vec<Result<Blob, RegistryError>> = Vec::new();
    while rest.len() > 0
        invariant
            parts@.len() + rest@.len() == all.len(),
            rest@ == all.subrange(parts@.len() as int, all.len() as int),
            forall|j: int|
                0 <= j < parts@.len() ==> (#[trigger] parts@[j]) == blob_outcome(
                    all[j],
                    j as usize,
                ),
        decreases rest@.len(),
    {
        let ghost k = parts@.len() as int;
        let idx = parts.len();
        let x = rest.remove(0);
        proof {
            assert(x == all[k]);
            assert(rest@ =~= all.subrange(k + 1, all.len() as int));
        }
        let y = match x {
            Ok(Some(created)) => match parse_iso8601_epoch(created.as_str()) {
                Some(t) => Ok(Blob { tag_digest: idx, date: t }),
                None => Err(RegistryError::Parse),
            },
            Ok(None) => Err(RegistryError::Parse),
            Err(e) => Err(e),
        };
        parts.push(y);
    }
    let ghost mapped = parts@;
    proof {
        assert(mapped =~= mapped_blob_outcomes(all));
    }
    collect_results(&mut parts)
}

proof fn lemma_first_error_congruent<T, U>(
    a: Seq<Result<T, RegistryError>>,
    b: Seq<Result<U, RegistryError>>,
)
    requires
        a.len() == b.len(),
        forall|i: int| 0 <= i < a.len() ==> ((#[trigger] a[i]) is Err <==> b[i] is Err),
        forall|i: int| 0 <= i < a.len() ==> ((#[trigger] a[i]) is Err ==> a[i]->Err_0 == b[i]->Err_0),
    ensures
        first_error(a) == first_error(b),
    decreases a.len(),
{
    if a.len() > 0 && a[0] is Ok {
        lemma_first_error_congruent(a.drop_first(), b.drop_first());
    }
}

} // verus!
