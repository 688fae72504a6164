//! The version triple and its decimal formatting.

use vstd::prelude::*;

verus! {

/// Largest value a single version component may take. A digit run whose value
/// exceeds this bound does not parse as a component.
pub const MAX_COMPONENT: u64 = 2147483647;

/// Mathematical model of a version: a triple of unbounded integers. All
/// contracts of this crate speak of versions through this model.
pub struct VersionView {
    pub major: int,
    pub minor: int,
    pub patch: int,
}

/// A semantic-version triple `(major, minor, patch)`.
#[derive(Clone, Copy, PartialEq, Eq, Structural, Debug)]
pub struct Version {
    pub major: u64,
    pub minor: u64,
    pub patch: u64,
}

impl View for Version {
    type V = VersionView;

    open spec fn view(&self) -> VersionView {
        VersionView { major: self.major as int, minor: self.minor as int, patch: self.patch as int }
    }
}

impl Version {
    /// The version every history starts from, before any commit is processed.
    pub fn initial() -> (v: Version)
        ensures
            v@ == (VersionView { major: 0, minor: 0, patch: 0 }),
    {
        Version { major: 0, minor: 0, patch: 0 }
    }
}

/// The character for a single decimal digit value.
pub open spec fn digit_char(d: int) -> char {
    if d == 0 {
        '0'
    } else if d == 1 {
        '1'
    } else if d == 2 {
        '2'
    } else if d == 3 {
        '3'
    } else if d == 4 {
        '4'
    } else if d == 5 {
        '5'
    } else if d == 6 {
        '6'
    } else if d == 7 {
        '7'
    } else if d == 8 {
        '8'
    } else {
        '9'
    }
}

/// The base-10 representation of a non-negative integer, most significant
/// digit first, with no leading zeros (`0` itself is the single char `'0'`).
pub open spec fn spec_decimal(n: int) -> Seq<char>
    decreases n,
{
    if n <= 9 {
        seq![digit_char(n)]
    } else {
        spec_decimal(n / 10).push(digit_char(n % 10))
    }
}

/// The rendering of a whole version: `major.minor.patch`, each component in
/// base 10.
pub open spec fn spec_formatted(v: VersionView) -> Seq<char> {
    spec_decimal(v.major) + seq!['.'] + spec_decimal(v.minor) + seq!['.'] + spec_decimal(v.patch)
}

/// A one-character string for a decimal digit value.
fn digit_str(d: u64) -> (s: &'static str)
    requires
        d <= 9,
    ensures
        s@ == seq![digit_char(d as int)],
{
    proof {
        reveal_strlit("0");
        reveal_strlit("1");
        reveal_strlit("2");
        reveal_strlit("3");
        reveal_strlit("4");
        reveal_strlit("5");
        reveal_strlit("6");
        reveal_strlit("7");
        reveal_strlit("8");
        reveal_strlit("9");
    }
    match d {
        0 => "0",
        1 => "1",
        2 => "2",
        3 => "3",
        4 => "4",
        5 => "5",
        6 => "6",
        7 => "7",
        8 => "8",
        _ => "9",
    }
}

/// Appends the base-10 representation of `n` to `out`.
fn push_decimal(out: &mut String, n: u64)
    ensures
        final(out)@ == old(out)@ + spec_decimal(n as int),
    decreases n,
{
    if n > 9 {
        push_decimal(out, n / 10);
    }
    let d = digit_str(n % 10);
    out.append(d);
    proof {
        assert(out@ =~= old(out)@ + spec_decimal(n as int));
    }
}

impl Version {
    /// Renders the version as `major.minor.patch` in base 10, with no leading
    /// zeros and no separators other than the two dots.
    pub fn formatted(&self) -> (s: String)
        ensures
            s@ == spec_formatted(self@),
    {
        let mut out = String::new();
        push_decimal(&mut out, self.major);
        out.append(".");
        push_decimal(&mut out, self.minor);
        out.append(".");
        push_decimal(&mut out, self.patch);
        proof {
            reveal_strlit(".");
            assert(out@ =~= spec_formatted(self@));
        }
        out
    }
}

} // verus!
