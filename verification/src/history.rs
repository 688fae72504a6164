//! The version accumulator: folding an ordered commit history and a tag
//! index into one version.

use vstd::prelude::*;
use crate::parse::{lemma_parse_bounds, parse_version_tag, spec_parse_version_tag};
use crate::version::{spec_formatted, MAX_COMPONENT, Version, VersionView};

verus! {

/// A commit identifier: a 160-bit content hash, held as three little-endian
/// words (`w2` carries the top 32 bits; its upper half is zero).
#[derive(Clone, Copy, PartialEq, Eq, Structural, Debug)]
pub struct CommitId {
    pub w0: u64,
    pub w1: u64,
    pub w2: u64,
}

/// The tag index as the contracts see it: commit, tag name.
pub open spec fn tags_view(tags: Seq<(CommitId, String)>) -> Seq<(CommitId, Seq<char>)> {
    tags.map_values(|p: (CommitId, String)| (p.0, p.1@))
}

/// The tag on a commit. The index is read as a map built by inserting the
/// pairs in order: when several entries carry the same commit, the last one
/// shadows the others.
pub open spec fn spec_lookup(tags: Seq<(CommitId, Seq<char>)>, id: CommitId) -> Option<Seq<char>>
    decreases tags.len(),
{
    if tags.len() == 0 {
        None
    } else if tags.last().0 == id {
        Some(tags.last().1)
    } else {
        spec_lookup(tags.drop_last(), id)
    }
}

/// The version with its patch component raised by one.
pub open spec fn bumped(v: VersionView) -> VersionView {
    VersionView { major: v.major, minor: v.minor, patch: v.patch + 1 }
}

/// How one commit changes the running version: a tag that denotes a version
/// replaces it outright; an absent tag, or one that denotes none, raises the
/// patch component by one.
pub open spec fn spec_step(v: VersionView, tag: Option<Seq<char>>) -> VersionView {
    match tag {
        Some(name) => match spec_parse_version_tag(name) {
            Some(w) => w,
            None => bumped(v),
        },
        None => bumped(v),
    }
}

/// The version after an ordered history of commits, starting from `0.0.0`.
pub open spec fn spec_accumulate(tags: Seq<(CommitId, Seq<char>)>, commits: Seq<CommitId>) -> VersionView
    decreases commits.len(),
{
    if commits.len() == 0 {
        VersionView { major: 0, minor: 0, patch: 0 }
    } else {
        spec_step(
            spec_accumulate(tags, commits.drop_last()),
            spec_lookup(tags, commits.last()),
        )
    }
}

/// The final result: the accumulated version, rendered in base 10.
pub open spec fn spec_version_string(
    tags: Seq<(CommitId, Seq<char>)>,
    commits: Seq<CommitId>,
) -> Seq<char> {
    spec_formatted(spec_accumulate(tags, commits))
}

/// Finds the tag on `id`, giving the last entry of the index when several
/// name the same commit.
fn lookup_tag<'a>(tags: &'a Vec<(CommitId, String)>, id: &CommitId) -> (r: Option<&'a String>)
    ensures
        match r {
            Some(name) => spec_lookup(tags_view(tags@), *id) == Some(name@),
            None => spec_lookup(tags_view(tags@), *id) is None,
        },
{
    let mut i = tags.len();
    proof {
        assert(tags_view(tags@).subrange(0, i as int) =~= tags_view(tags@));
    }
    while i > 0
        invariant
            i <= tags.len(),
            spec_lookup(tags_view(tags@), *id) == spec_lookup(
                tags_view(tags@).subrange(0, i as int),
                *id,
            ),
        decreases i,
    {
        i = i - 1;
        proof {
            let whole = tags_view(tags@);
            assert(whole.subrange(0, i as int) =~= whole.subrange(0, i as int + 1).drop_last());
        }
        if tags[i].0 == *id {
            return Some(&tags[i].1);
        }
    }
    None
}

/// Accumulates the version over a history. `commits` is every commit
/// reachable from head, oldest first; `tags` maps commits to the tag names
/// that point at them.
///
/// The result is a pure function of the two sequences: it starts at `0.0.0`,
/// resets on every commit whose tag denotes a version, and raises the patch
/// component on every other commit.
pub fn accumulate_version(tags: &Vec<(CommitId, String)>, commits: &Vec<CommitId>) -> (v: Version)
    requires
        commits@.len() + MAX_COMPONENT < u64::MAX,
    ensures
        v@ == spec_accumulate(tags_view(tags@), commits@),
{
    let mut version = Version::initial();
    let mut i: usize = 0;
    proof {
        assert(commits@.subrange(0, 0) =~= Seq::<CommitId>::empty());
    }
    while i < commits.len()
        invariant
            i <= commits@.len(),
            commits@.len() + MAX_COMPONENT < u64::MAX,
            version@ == spec_accumulate(tags_view(tags@), commits@.subrange(0, i as int)),
            version.major <= MAX_COMPONENT,
            version.minor <= MAX_COMPONENT,
            version.patch <= MAX_COMPONENT + i,
        decreases commits@.len() - i,
    {
        proof {
            let pre = commits@.subrange(0, i as int);
            let post = commits@.subrange(0, i as int + 1);
            assert(post.drop_last() =~= pre);
        }
        let tag = lookup_tag(tags, &commits[i]);
        let mut reset: Option<Version> = None;
        if let Some(name) = tag {
            reset = parse_version_tag(name.as_str());
            proof {
                lemma_parse_bounds(name@);
            }
        }
        version = match reset {
            Some(w) => w,
            None => Version { major: version.major, minor: version.minor, patch: version.patch + 1 },
        };
        i = i + 1;
    }
    proof {
        assert(commits@.subrange(0, commits@.len() as int) =~= commits@);
    }
    version
}

/// Derives the version string of a history: the accumulated version,
/// rendered as `major.minor.patch`.
pub fn calculate_version(tags: &Vec<(CommitId, String)>, commits: &Vec<CommitId>) -> (s: String)
    requires
        commits@.len() + MAX_COMPONENT < u64::MAX,
    ensures
        s@ == spec_version_string(tags_view(tags@), commits@),
{
    let version = accumulate_version(tags, commits);
    version.formatted()
}

} // verus!
