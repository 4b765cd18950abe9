use vstd::prelude::*;
use vstd::string::StringExecFns;
use crate::model::Blob;
use crate::model::Repository;
use crate::model::Tag;
use crate::model::TagDigest;

verus! {

/// The character for one decimal digit value.
pub open spec fn digit_char(d: int) -> char {
    if d == 0 {
        '0'
    } else if d == 1 {
        '1'
    } else if d == 2 {
        '2'
    } else if d == 3 {
        '3'
    } else if d == 4 {
        '4'
    } else if d == 5 {
        '5'
    } else if d == 6 {
        '6'
    } else if d == 7 {
        '7'
    } else if d == 8 {
        '8'
    } else {
        '9'
    }
}

/// The decimal digits of a non-negative number, most significant first.
pub open spec fn dec_digits(n: int) -> Seq<char>
    decreases n,
{
    if n < 10 {
        seq![digit_char(n)]
    } else {
        dec_digits(n / 10).push(digit_char(n % 10))
    }
}

/// The decimal text of a signed number: a minus sign before a negative one.
pub open spec fn spec_int_string(n: int) -> Seq<char> {
    if n < 0 {
        seq!['-'] + dec_digits(-n)
    } else {
        dec_digits(n)
    }
}

/// Relies on std's Display for i64: the decimal digits, a leading minus sign
/// for a negative value.
#[verifier::external_body]
fn i64_to_string(x: i64) -> (r: String)
    ensures
        r@ == spec_int_string(x as int),
{
    format!("{}", x)
}

/// Relies on std's Display for u64: the decimal digits.
#[verifier::external_body]
fn u64_to_string(x: u64) -> (r: String)
    ensures
        r@ == dec_digits(x as int),
{
    format!("{}", x)
}

/// How an image's age is written: whole days over a day, else whole hours
/// over an hour, else whole minutes over a minute, else plain seconds.
pub open spec fn spec_age_string(age: int) -> Seq<char> {
    if age > 86400 {
        dec_digits(age / 86400) + " Days"@
    } else if age > 3600 {
        dec_digits(age / 3600) + " Hours"@
    } else if age > 60 {
        dec_digits(age / 60) + " Minutes"@
    } else {
        spec_int_string(age) + " Seconds"@
    }
}

/// Writes an image's age, in seconds, in the largest unit that fits it.
pub fn fmt_age(age: i64) -> (r: String)
    ensures
        r@ == spec_age_string(age as int),
{
    if age > 86400 {
        u64_to_string((age as u64) / 86400).concat(" Days")
    } else if age > 3600 {
        u64_to_string((age as u64) / 3600).concat(" Hours")
    } else if age > 60 {
        u64_to_string((age as u64) / 60).concat(" Minutes")
    } else {
        i64_to_string(age).concat(" Seconds")
    }
}

/// How the final elapsed-time summary is written: whole seconds if at least
/// one, else whole milliseconds if at least one, else microseconds.
pub open spec fn spec_duration_string(micros: int) -> Seq<char> {
    if micros / 1000000 > 0 {
        dec_digits(micros / 1000000) + "s"@
    } else if micros / 1000 > 0 {
        dec_digits(micros / 1000) + "ms"@
    } else {
        dec_digits(micros) + "µs"@
    }
}

/// Writes an elapsed time, given in microseconds, in the largest unit with a
/// non-zero whole part.
pub fn fmt_duration(micros: u64) -> (r: String)
    ensures
        r@ == spec_duration_string(micros as int),
{
    if micros / 1000000 > 0 {
        u64_to_string(micros / 1000000).concat("s")
    } else if micros / 1000 > 0 {
        u64_to_string(micros / 1000).concat("ms")
    } else {
        u64_to_string(micros).concat("µs")
    }
}

/// One dry-run line: the would-be-deleted image and its age.
pub open spec fn spec_candidate_line(repo: Seq<char>, tag: Seq<char>, age: int) -> Seq<char> {
    "- "@ + repo + "/"@ + tag + " (Age: "@ + spec_age_string(age) + ")"@
}

/// Writes one dry-run line for the image `repo`/`tag` with the given age.
pub fn candidate_line(repo: &str, tag: &str, age: i64) -> (r: String)
    ensures
        r@ == spec_candidate_line(repo@, tag@, age as int),
{
    let mut s = String::from_str("- ");
    s.append(repo);
    s.append("/");
    s.append(tag);
    s.append(" (Age: ");
    let a = fmt_age(age);
    s.append(a.as_str());
    s.append(")");
    proof {
        assert(s@ =~= spec_candidate_line(repo@, tag@, age as int));
    }
    s
}

/// One deletion line, announcing the image a delete call is issued for.
pub open spec fn spec_delete_line(repo: Seq<char>, tag: Seq<char>) -> Seq<char> {
    "Deleting image "@ + repo + "/"@ + tag
}

/// Writes the line announcing the deletion of the image `repo`/`tag`.
pub fn delete_line(repo: &str, tag: &str) -> (r: String)
    ensures
        r@ == spec_delete_line(repo@, tag@),
{
    let mut s = String::from_str("Deleting image ");
    s.append(repo);
    s.append("/");
    s.append(tag);
    proof {
        assert(s@ =~= spec_delete_line(repo@, tag@));
    }
    s
}

/// A record's back-references land inside the run's lists, so its repository
/// and tag names can be read off.
pub open spec fn record_resolvable(
    b: Blob,
    digests: Seq<TagDigest>,
    tags: Seq<Tag>,
    repos: Seq<Repository>,
) -> bool {
    &&& b.tag_digest < digests.len()
    &&& digests[b.tag_digest as int].tag < tags.len()
    &&& tags[digests[b.tag_digest as int].tag as int].repo < repos.len()
}

/// The repository and tag names a record resolves to through its
/// back-references.
pub open spec fn spec_record_names(
    b: Blob,
    digests: Seq<TagDigest>,
    tags: Seq<Tag>,
    repos: Seq<Repository>,
) -> (Seq<char>, Seq<char>) {
    let t = tags[digests[b.tag_digest as int].tag as int];
    (repos[t.repo as int].0@, t.name@)
}

/// Follows a record's back-references to its repository and tag names;
/// `None` where a back-reference points outside the run's lists, a state a
/// run's own stages never produce.
pub fn record_names(
    b: Blob,
    digests: &Vec<TagDigest>,
    tags: &Vec<Tag>,
    repositories: &Vec<Repository>,
) -> (r: Option<(String, String)>)
    ensures
        r is Some <==> record_resolvable(b, digests@, tags@, repositories@),
        r matches Some(p) ==> (p.0@, p.1@) == spec_record_names(
            b,
            digests@,
            tags@,
            repositories@,
        ),
{
    if b.tag_digest >= digests.len() {
        return None;
    }
    let td = &digests[b.tag_digest];
    if td.tag >= tags.len() {
        return None;
    }
    let t = &tags[td.tag];
    if t.repo >= repositories.len() {
        return None;
    }
    let repo = &repositories[t.repo];
    Some((repo.0.clone(), t.name.clone()))
}

/// One line per record of the report, resolved through the run's lists.
pub open spec fn spec_report_line(
    b: Blob,
    digests: Seq<TagDigest>,
    tags: Seq<Tag>,
    repos: Seq<Repository>,
    now: int,
) -> Seq<char> {
    let names = spec_record_names(b, digests, tags, repos);
    spec_candidate_line(names.0, names.1, now - b.date)
}

/// Every record of the report resolves, and its age fits i64.
pub open spec fn report_wf(
    ds: Seq<Blob>,
    digests: Seq<TagDigest>,
    tags: Seq<Tag>,
    repos: Seq<Repository>,
    now: int,
) -> bool {
    forall|i: int| 0 <= i < ds.len() ==> {
        &&& record_resolvable(#[trigger] ds[i], digests, tags, repos)
        &&& i64::MIN <= now - ds[i].date <= i64::MAX
    }
}

/// The dry run's output: one informational line per deletable record, in the
/// records' order, naming the image and its age relative to `now`. `None`
/// where a record does not resolve or an age does not fit i64 — states the
/// run's own stages never produce.
pub fn dry_run_report(
    deletable: &Vec<Blob>,
    digests: &Vec<TagDigest>,
    tags: &Vec<Tag>,
    repositories: &Vec<Repository>,
    now: i64,
) -> (r: Option<Vec<String>>)
    ensures
        r is Some <==> report_wf(deletable@, digests@, tags@, repositories@, now as int),
        r matches Some(lines) ==> {
            &&& lines@.len() == deletable@.len()
            &&& forall|i: int|
                0 <= i < lines@.len() ==> (#[trigger] lines@[i])@ == spec_report_line(
                    deletable@[i],
                    digests@,
                    tags@,
                    repositories@,
                    now as int,
                )
        },
{
    let mut out: Vec<String> = Vec::new();
    let mut i: usize = 0;
    while i < deletable.len()
        invariant
            0 <= i <= deletable@.len(),
            out@.len() == i,
            forall|j: int| 0 <= j < i as int ==> {
                &&& record_resolvable(#[trigger] deletable@[j], digests@, tags@, repositories@)
                &&& i64::MIN <= now - deletable@[j].date <= i64::MAX
            },
            forall|j: int|
                0 <= j < i as int ==> (#[trigger] out@[j])@ == spec_report_line(
                    deletable@[j],
                    digests@,
                    tags@,
                    repositories@,
                    now as int,
                ),
        decreases deletable@.len() - i,
    {
        let b = deletable[i];
        let age = match now.checked_sub(b.date) {
            Some(a) => a,
            None => {
                return None;
            },
        };
        match record_names(b, digests, tags, repositories) {
            Some((repo, tag)) => {
                let line = candidate_line(repo.as_str(), tag.as_str(), age);
                out.push(line);
            },
            None => {
                return None;
            },
        }
        i = i + 1;
    }
    Some(out)
}

} // verus!
