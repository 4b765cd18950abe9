use vstd::prelude::*;

verus! {

/// Why a registry call failed: the connection itself, a non-2xx HTTP status,
/// or a response body without the expected shape (an unparseable timestamp
/// included).
#[derive(Clone, Copy, Debug, PartialEq, Eq, Structural)]
pub enum RegistryError {
    Transport,
    Status(u16),
    Parse,
}

/// A repository the registry hosts, identified by its name.
#[derive(Debug)]
pub struct Repository(pub String);

/// A tag of a repository: its name, and the index of the owning repository in
/// the run's repository list.
#[derive(Debug)]
pub struct Tag {
    pub name: String,
    pub repo: usize,
}

/// The manifest digest one tag resolves to: the content-addressed identifier,
/// and the index of the tag it was resolved from in the run's tag list. Two
/// tags that share a digest keep two records; nothing is deduplicated.
#[derive(Debug)]
pub struct TagDigest {
    pub digest: String,
    pub tag: usize,
}

/// A resolved image: the index of its digest record in the run's digest list,
/// and the creation timestamp (Unix epoch seconds) from the registry's blob
/// metadata.
#[derive(Clone, Copy, Debug, PartialEq, Eq, Structural)]
pub struct Blob {
    pub tag_digest: usize,
    pub date: i64,
}

/// Every tag's back-reference lands inside the repository list.
pub open spec fn tags_wf(tags: Seq<Tag>, n_repos: int) -> bool {
    forall|i: int| 0 <= i < tags.len() ==> (#[trigger] tags[i]).repo < n_repos
}

/// Every digest's back-reference lands inside the tag list.
pub open spec fn digests_wf(digests: Seq<TagDigest>, n_tags: int) -> bool {
    forall|i: int| 0 <= i < digests.len() ==> (#[trigger] digests[i]).tag < n_tags
}

/// Every record's back-reference lands inside the digest list.
pub open spec fn blobs_wf(blobs: Seq<Blob>, n_digests: int) -> bool {
    forall|i: int| 0 <= i < blobs.len() ==> (#[trigger] blobs[i]).tag_digest < n_digests
}

} // verus!
