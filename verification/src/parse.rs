//! Recognising version tags.
//!
//! A tag name denotes a version when it begins with a run of digits (the
//! major component), optionally followed by `.` and a second run (minor),
//! optionally followed by `.` and a third run (patch). Anything after the
//! recognised prefix is ignored. Absent components default to 0. A component
//! whose value exceeds [`MAX_COMPONENT`] does not parse: for the major
//! component the whole name is then no version tag, for minor or patch the
//! component falls back to 0.

use vstd::prelude::*;
use crate::version::{MAX_COMPONENT, Version, VersionView};

verus! {

/// Whether `c` is a decimal digit (`'0'` to `'9'`).
pub open spec fn is_digit_char(c: char) -> bool {
    48 <= c as u32 && c as u32 <= 57
}

/// The value of a decimal digit character.
pub open spec fn digit_value(c: char) -> int {
    c as u32 - 48
}

/// Where the run of digits beginning at `i` ends: the first position at or
/// after `i` that is past the end of `s` or holds a non-digit.
pub open spec fn digit_run_end(s: Seq<char>, i: int) -> int
    decreases s.len() - i,
{
    if i < 0 || i >= s.len() || !is_digit_char(s[i]) {
        i
    } else {
        digit_run_end(s, i + 1)
    }
}

/// The numeric value of a sequence of digit characters, read in base 10.
pub open spec fn dec_value(s: Seq<char>) -> int
    decreases s.len(),
{
    if s.len() == 0 {
        0
    } else {
        dec_value(s.drop_last()) * 10 + digit_value(s.last())
    }
}

/// A component value above the bound is treated as absent.
pub open spec fn clamp_component(n: int) -> int {
    if n > MAX_COMPONENT {
        0
    } else {
        n
    }
}

/// Whether a `.`-prefixed component starts at position `i`: a dot at `i`
/// immediately followed by a digit.
pub open spec fn has_component_at(s: Seq<char>, i: int) -> bool {
    &&& 0 <= i
    &&& i + 1 < s.len()
    &&& s[i] == '.'
    &&& is_digit_char(s[i + 1])
}

/// The value of the component whose dot sits at position `i`.
pub open spec fn component_at(s: Seq<char>, i: int) -> int {
    clamp_component(dec_value(s.subrange(i + 1, digit_run_end(s, i + 1))))
}

/// What a tag name means. `None` when the name does not begin with a digit,
/// or when the major component overflows; otherwise the version triple the
/// name denotes.
pub open spec fn spec_parse_version_tag(s: Seq<char>) -> Option<VersionView> {
    let major_end = digit_run_end(s, 0);
    if major_end == 0 {
        None
    } else if dec_value(s.subrange(0, major_end)) > MAX_COMPONENT {
        None
    } else {
        let minor_end = digit_run_end(s, major_end + 1);
        Some(
            VersionView {
                major: dec_value(s.subrange(0, major_end)),
                minor: if has_component_at(s, major_end) {
                    component_at(s, major_end)
                } else {
                    0
                },
                patch: if has_component_at(s, major_end) && has_component_at(s, minor_end) {
                    component_at(s, minor_end)
                } else {
                    0
                },
            },
        )
    }
}

/// The digit run starting at `i` stays within `s`, consists of digits, and
/// ends at the end of `s` or just before a non-digit.
pub proof fn lemma_digit_run_end(s: Seq<char>, i: int)
    requires
        0 <= i <= s.len(),
    ensures
        i <= digit_run_end(s, i) <= s.len(),
        forall|j: int| i <= j < digit_run_end(s, i) ==> is_digit_char(s[j]),
        digit_run_end(s, i) < s.len() ==> !is_digit_char(s[digit_run_end(s, i)]),
    decreases s.len() - i,
{
    if i < s.len() && is_digit_char(s[i]) {
        lemma_digit_run_end(s, i + 1);
    }
}

/// A sequence of digit characters has a non-negative value.
pub proof fn lemma_dec_value_nonneg(s: Seq<char>)
    requires
        forall|j: int| 0 <= j < s.len() ==> is_digit_char(s[j]),
    ensures
        dec_value(s) >= 0,
    decreases s.len(),
{
    if s.len() > 0 {
        lemma_dec_value_nonneg(s.drop_last());
    }
}

/// Whatever a tag name parses to has every component within `0..=MAX_COMPONENT`.
pub proof fn lemma_parse_bounds(s: Seq<char>)
    ensures
        spec_parse_version_tag(s) matches Some(w) ==> {
            &&& 0 <= w.major <= MAX_COMPONENT
            &&& 0 <= w.minor <= MAX_COMPONENT
            &&& 0 <= w.patch <= MAX_COMPONENT
        },
{
    if spec_parse_version_tag(s) is Some {
        let major_end = digit_run_end(s, 0);
        let minor_end = digit_run_end(s, major_end + 1);
        lemma_digit_run_end(s, 0);
        lemma_dec_value_nonneg(s.subrange(0, major_end));
        if has_component_at(s, major_end) {
            lemma_digit_run_end(s, major_end + 1);
            lemma_dec_value_nonneg(s.subrange(major_end + 1, minor_end));
            if has_component_at(s, minor_end) {
                lemma_digit_run_end(s, minor_end + 1);
                lemma_dec_value_nonneg(
                    s.subrange(minor_end + 1, digit_run_end(s, minor_end + 1)),
                );
            }
        }
    }
}

/// A name that does not begin with a digit never denotes a version: it is
/// treated exactly like the absence of a tag.
pub proof fn lemma_non_digit_start_is_no_version(s: Seq<char>)
    requires
        s.len() == 0 || !is_digit_char(s[0]),
    ensures
        spec_parse_version_tag(s) is None,
{
}

/// Whether `c` is a decimal digit.
fn is_digit(c: char) -> (b: bool)
    ensures
        b == is_digit_char(c),
{
    let u = c as u32;
    48 <= u && u <= 57
}

/// Scans the digit run of `name` that starts at `start`: returns where it
/// ends and, unless the run's value overflows the component bound, the value.
fn scan_number(name: &str, start: usize, len: usize) -> (r: (usize, Option<u64>))
    requires
        len == name@.len(),
        start <= len,
    ensures
        ({
            let (end, value) = r;
            let run = name@.subrange(start as int, end as int);
            &&& end as int == digit_run_end(name@, start as int)
            &&& start <= end <= len
            &&& match value {
                Some(v) => v as int == dec_value(run) && v <= MAX_COMPONENT,
                None => dec_value(run) > MAX_COMPONENT,
            }
        }),
{
    let mut i = start;
    let mut val: u64 = 0;
    let mut over = false;
    proof {
        assert(name@.subrange(start as int, start as int) =~= Seq::<char>::empty());
    }
    while i < len && is_digit(name.get_char(i))
        invariant
            len == name@.len(),
            start <= i <= len,
            digit_run_end(name@, start as int) == digit_run_end(name@, i as int),
            forall|j: int| start <= j < i ==> is_digit_char(name@[j]),
            over ==> dec_value(name@.subrange(start as int, i as int)) > MAX_COMPONENT,
            !over ==> val as int == dec_value(name@.subrange(start as int, i as int)) && val
                <= MAX_COMPONENT,
        decreases len - i,
    {
        let c = name.get_char(i);
        let d = (c as u32 - 48) as u64;
        proof {
            let run = name@.subrange(start as int, i as int);
            let run2 = name@.subrange(start as int, i as int + 1);
            assert(run2 =~= run.push(name@[i as int]));
            assert(run2.drop_last() =~= run);
            if over {
                assert(dec_value(run2) == dec_value(run) * 10 + digit_value(name@[i as int]));
                assert(dec_value(run) * 10 > MAX_COMPONENT * 10) by {
                    assert(dec_value(run) >= MAX_COMPONENT + 1);
                };
            }
        }
        if !over {
            let nv = val * 10 + d;
            if nv > MAX_COMPONENT {
                over = true;
            } else {
                val = nv;
            }
        }
        i = i + 1;
    }
    (i, if over { None } else { Some(val) })
}

/// Scans the optional `.`-prefixed component whose dot would sit at `i`:
/// whether it is present, its value, and where its digit run ends.
fn scan_component(name: &str, i: usize, len: usize) -> (r: (bool, u64, usize))
    requires
        len == name@.len(),
        i <= len,
    ensures
        ({
            let (present, value, end) = r;
            &&& present == has_component_at(name@, i as int)
            &&& present ==> {
                &&& value as int == component_at(name@, i as int)
                &&& value <= MAX_COMPONENT
                &&& end as int == digit_run_end(name@, i as int + 1)
                &&& end <= len
            }
        }),
{
    if i < len && name.get_char(i) == '.' && i + 1 < len && is_digit(name.get_char(i + 1)) {
        let (end, value) = scan_number(name, i + 1, len);
        let v = match value {
            Some(v) => v,
            None => 0,
        };
        proof {
            lemma_digit_run_end(name@, i as int + 1);
            let run = name@.subrange(i as int + 1, end as int);
            lemma_dec_value_nonneg(run);
        }
        (true, v, end)
    } else {
        (false, 0, 0)
    }
}

/// Parses a tag name. Returns the version the name denotes, or `None` when
/// the name is no version tag. A name whose first character is not a digit is
/// never a version tag.
pub fn parse_version_tag(name: &str) -> (r: Option<Version>)
    ensures
        match r {
            Some(v) => spec_parse_version_tag(name@) == Some(v@),
            None => spec_parse_version_tag(name@) is None,
        },
{
    let len = name.unicode_len();
    let (major_end, major_value) = scan_number(name, 0, len);
    if major_end == 0 {
        return None;
    }
    let major = match major_value {
        Some(m) => m,
        None => {
            return None;
        },
    };
    let (has_minor, minor, minor_end) = scan_component(name, major_end, len);
    if has_minor {
        let (has_patch, patch, _) = scan_component(name, minor_end, len);
        Some(Version { major, minor, patch: if has_patch { patch } else { 0 } })
    } else {
        proof {
            lemma_digit_run_end(name@, major_end as int);
        }
        Some(Version { major, minor: 0, patch: 0 })
    }
}

} // verus!
