//! The guarantees of the accumulator, stated and proved once and for all
//! histories: what an untagged chain yields, how a version tag resets the
//! count, that non-version tags change nothing, determinism, and that
//! formatting a version yields a tag name that parses back to it.

use vstd::prelude::*;
use crate::history::{spec_accumulate, spec_lookup, spec_step, spec_version_string, CommitId};
use crate::parse::{
    dec_value, digit_run_end, digit_value, is_digit_char, lemma_non_digit_start_is_no_version,
    spec_parse_version_tag,
};
use crate::version::{digit_char, spec_decimal, spec_formatted, MAX_COMPONENT, VersionView};

verus! {

/// Whether the tag on `id` (if any) denotes a version, so that this commit
/// resets the running version rather than raising its patch component.
pub open spec fn resets_version(tags: Seq<(CommitId, Seq<char>)>, id: CommitId) -> bool {
    match spec_lookup(tags, id) {
        Some(name) => spec_parse_version_tag(name) is Some,
        None => false,
    }
}

/// The version that the tag on `id` denotes, where `resets_version` holds.
pub open spec fn reset_value(tags: Seq<(CommitId, Seq<char>)>, id: CommitId) -> VersionView {
    spec_parse_version_tag(spec_lookup(tags, id).unwrap()).unwrap()
}

/// With no tags at all, a history of N commits yields exactly `0.0.N`.
pub proof fn lemma_untagged_chain(tags: Seq<(CommitId, Seq<char>)>, commits: Seq<CommitId>)
    requires
        tags.len() == 0,
    ensures
        spec_accumulate(tags, commits) == (VersionView {
            major: 0,
            minor: 0,
            patch: commits.len() as int,
        }),
    decreases commits.len(),
{
    if commits.len() > 0 {
        lemma_untagged_chain(tags, commits.drop_last());
    }
}

/// The last commit whose tag denotes a version decides the result: if it
/// stands at position `k` and parses to `w`, and the `M` commits after it all
/// leave the version alone, the history yields exactly
/// `w.major . w.minor . (w.patch + M)` — a reset, never a merge.
pub proof fn lemma_reset_then_count(
    tags: Seq<(CommitId, Seq<char>)>,
    commits: Seq<CommitId>,
    k: int,
)
    requires
        0 <= k < commits.len(),
        resets_version(tags, commits[k]),
        forall|j: int| k < j < commits.len() ==> !resets_version(tags, commits[j]),
    ensures
        spec_accumulate(tags, commits) == (VersionView {
            major: reset_value(tags, commits[k]).major,
            minor: reset_value(tags, commits[k]).minor,
            patch: reset_value(tags, commits[k]).patch + (commits.len() - 1 - k),
        }),
    decreases commits.len(),
{
    if k == commits.len() - 1 {
    } else {
        let shorter = commits.drop_last();
        assert(shorter[k] == commits[k]);
        assert(forall|j: int| k < j < shorter.len() ==> !resets_version(tags, shorter[j]));
        lemma_reset_then_count(tags, shorter, k);
    }
}

/// A version tag on the newest commit gives its version exactly, whatever
/// came before.
pub proof fn lemma_tag_on_head_is_exact(tags: Seq<(CommitId, Seq<char>)>, commits: Seq<CommitId>)
    requires
        commits.len() > 0,
        resets_version(tags, commits.last()),
    ensures
        spec_accumulate(tags, commits) == reset_value(tags, commits.last()),
{
}

/// A tag whose name does not begin with a digit acts on the running version
/// exactly as no tag at all.
pub proof fn lemma_non_version_tag_is_ignored(v: VersionView, name: Seq<char>)
    requires
        name.len() == 0 || !is_digit_char(name[0]),
    ensures
        spec_step(v, Some(name)) == spec_step(v, None),
{
    lemma_non_digit_start_is_no_version(name);
}

/// The result is a function of the tag index and the commit sequence alone:
/// two runs over equal views yield the same string.
pub proof fn lemma_deterministic(
    tags1: Seq<(CommitId, Seq<char>)>,
    commits1: Seq<CommitId>,
    tags2: Seq<(CommitId, Seq<char>)>,
    commits2: Seq<CommitId>,
)
    requires
        tags1 == tags2,
        commits1 == commits2,
    ensures
        spec_version_string(tags1, commits1) == spec_version_string(tags2, commits2),
{
}

/// Every character of a rendered number is a digit, and there is at least
/// one.
pub proof fn lemma_decimal_digits(n: int)
    requires
        n >= 0,
    ensures
        spec_decimal(n).len() >= 1,
        forall|j: int| 0 <= j < spec_decimal(n).len() ==> is_digit_char(#[trigger] spec_decimal(n)[j]),
    decreases n,
{
    if n > 9 {
        lemma_decimal_digits(n / 10);
    }
}

/// Reading a rendered number back in base 10 recovers it.
pub proof fn lemma_decimal_value(n: int)
    requires
        n >= 0,
    ensures
        dec_value(spec_decimal(n)) == n,
    decreases n,
{
    let s = spec_decimal(n);
    if n <= 9 {
        assert(s.drop_last() =~= Seq::<char>::empty());
        assert(dec_value(Seq::<char>::empty()) == 0);
        assert(s.last() == digit_char(n));
        assert(digit_value(digit_char(n)) == n);
    } else {
        lemma_decimal_value(n / 10);
        assert(s.drop_last() =~= spec_decimal(n / 10));
        assert(s.last() == digit_char(n % 10));
        assert(digit_value(digit_char(n % 10)) == n % 10);
        assert(n / 10 * 10 + n % 10 == n);
    }
}

/// If everything from `i` up to `e` is a digit and `e` is the end of the
/// string or a non-digit, the digit run starting at `i` ends at `e`.
pub proof fn lemma_digit_run_end_locates(s: Seq<char>, i: int, e: int)
    requires
        0 <= i <= e <= s.len(),
        forall|j: int| i <= j < e ==> is_digit_char(s[j]),
        e < s.len() ==> !is_digit_char(s[e]),
    ensures
        digit_run_end(s, i) == e,
    decreases e - i,
{
    if i < e {
        lemma_digit_run_end_locates(s, i + 1, e);
    }
}

/// Round trip: rendering a version yields a tag name that denotes exactly
/// that version. (Components above `MAX_COMPONENT` render fine but do not
/// parse back, so they are left out here.)
pub proof fn lemma_format_parse_roundtrip(v: VersionView)
    requires
        0 <= v.major <= MAX_COMPONENT,
        0 <= v.minor <= MAX_COMPONENT,
        0 <= v.patch <= MAX_COMPONENT,
    ensures
        spec_parse_version_tag(spec_formatted(v)) == Some(v),
{
    let a = spec_decimal(v.major);
    let b = spec_decimal(v.minor);
    let c = spec_decimal(v.patch);
    let s = spec_formatted(v);
    let la = a.len() as int;
    let lb = b.len() as int;
    let lc = c.len() as int;
    lemma_decimal_digits(v.major);
    lemma_decimal_digits(v.minor);
    lemma_decimal_digits(v.patch);
    assert(s.len() == la + 1 + lb + 1 + lc);
    assert(!is_digit_char('.'));

    assert(forall|j: int| 0 <= j < la ==> s[j] == a[j]);
    assert(s[la] == '.');
    assert(forall|j: int| 0 <= j < lb ==> s[la + 1 + j] == b[j]);
    assert(s[la + 1 + lb] == '.');
    assert(forall|j: int| 0 <= j < lc ==> s[la + 1 + lb + 1 + j] == c[j]);

    lemma_digit_run_end_locates(s, 0, la);
    assert(s.subrange(0, la) =~= a);
    lemma_decimal_value(v.major);

    let minor_end = la + 1 + lb;
    assert(forall|j: int| la + 1 <= j < minor_end ==> is_digit_char(s[j]));
    lemma_digit_run_end_locates(s, la + 1, minor_end);
    assert(s.subrange(la + 1, minor_end) =~= b);
    lemma_decimal_value(v.minor);

    let patch_end = minor_end + 1 + lc;
    assert(forall|j: int| minor_end + 1 <= j < patch_end ==> is_digit_char(s[j]));
    lemma_digit_run_end_locates(s, minor_end + 1, patch_end);
    assert(s.subrange(minor_end + 1, patch_end) =~= c);
    lemma_decimal_value(v.patch);

    assert(spec_parse_version_tag(s) == Some(v));
}

} // verus!

