//! Release versions, their order, and their text.
//!
//! A version is written as three numerals with dots between them, `1.4.2`.

use crate::decimal::decimal;
use crate::decimal::decimal_text;
use crate::decimal::is_numeral;
use crate::decimal::lemma_decimal_is_numeral;
use crate::decimal::number_of;
use crate::decimal::parse_number;
use crate::error::UpdateCheckError;
use vstd::prelude::*;
use vstd::slice::slice_subrange;

verus! {

/// A release version: three numbers, ordered from the most significant.
#[derive(Clone, Copy, Debug, PartialEq, Eq, Structural)]
pub struct Version {
    pub major: u64,
    pub minor: u64,
    pub patch: u64,
}

impl Version {
    /// A version is newer than another when it comes later in the order that
    /// compares `major`, then `minor`, then `patch`.
    pub open spec fn newer_than(self, other: Version) -> bool {
        ||| self.major > other.major
        ||| self.major == other.major && self.minor > other.minor
        ||| self.major == other.major && self.minor == other.minor && self.patch > other.patch
    }

    /// Neither older nor newer than `other` is excluded: `self` is `other`
    /// or newer.
    pub open spec fn at_least(self, other: Version) -> bool {
        self == other || self.newer_than(other)
    }

    pub fn new(major: u64, minor: u64, patch: u64) -> (v: Version)
        ensures
            v == (Version { major, minor, patch }),
    {
        Version { major, minor, patch }
    }

    /// Whether this version comes strictly after `other`.
    pub fn is_newer_than(&self, other: &Version) -> (newer: bool)
        ensures
            newer == self.newer_than(*other),
    {
        if self.major != other.major {
            self.major > other.major
        } else if self.minor != other.minor {
            self.minor > other.minor
        } else {
            self.patch > other.patch
        }
    }
}

/// No version is newer than itself.
pub proof fn lemma_newer_irreflexive(a: Version)
    ensures
        !a.newer_than(a),
{
}

/// Of two versions, at most one is newer than the other.
pub proof fn lemma_newer_asymmetric(a: Version, b: Version)
    requires
        a.newer_than(b),
    ensures
        !b.newer_than(a),
        a != b,
{
}

/// Being newer carries over a chain of versions.
pub proof fn lemma_newer_transitive(a: Version, b: Version, c: Version)
    requires
        a.newer_than(b),
        b.at_least(c),
    ensures
        a.newer_than(c),
{
}

/// Any two versions are equal or one is newer than the other.
pub proof fn lemma_newer_total(a: Version, b: Version)
    ensures
        a == b || a.newer_than(b) || b.newer_than(a),
{
}

/// The byte that parts the numbers of a version in text.
pub const DOT: u8 = 0x2e;

/// The text of a version: its three numbers in decimal with dots between.
pub open spec fn version_text(v: Version) -> Seq<u8> {
    decimal(v.major as nat) + seq![DOT] + decimal(v.minor as nat) + seq![DOT] + decimal(
        v.patch as nat,
    )
}

/// Where the field that begins at `from` ends: at the next dot, or at the
/// end of the text where no dot follows.
pub open spec fn field_end(text: Seq<u8>, from: int) -> int
    decreases text.len() - from,
{
    if from < 0 || from >= text.len() || text[from] == DOT {
        from
    } else {
        field_end(text, from + 1)
    }
}

/// The version that `text` stands for: the text is made of exactly three
/// fields parted by dots, and each field is a numeral that fits 64 bits.
pub open spec fn parse_spec(text: Seq<u8>) -> Option<Version> {
    let first = field_end(text, 0);
    let second = field_end(text, first + 1);
    let third = field_end(text, second + 1);
    if first < text.len() && second < text.len() && third == text.len() {
        match (
            number_of(text.subrange(0, first)),
            number_of(text.subrange(first + 1, second)),
            number_of(text.subrange(second + 1, third)),
        ) {
            (Some(major), Some(minor), Some(patch)) => Some(Version { major, minor, patch }),
            _ => None,
        }
    } else {
        None
    }
}

fn scan_field(text: &[u8], from: usize) -> (end: usize)
    requires
        from <= text@.len(),
    ensures
        end == field_end(text@, from as int),
        from <= end <= text@.len(),
{
    let mut end: usize = from;
    while end < text.len() && text[end] != DOT
        invariant
            from <= end <= text@.len(),
            field_end(text@, end as int) == field_end(text@, from as int),
        decreases text@.len() - end,
    {
        end = end + 1;
    }
    end
}

/// The text of a version, `1.4.2`.
pub fn render_version(v: &Version) -> (text: Vec<u8>)
    ensures
        text@ == version_text(*v),
{
    let mut text = decimal_text(v.major);
    text.push(DOT);
    let mut minor = decimal_text(v.minor);
    text.append(&mut minor);
    text.push(DOT);
    let mut patch = decimal_text(v.patch);
    text.append(&mut patch);
    assert(text@ =~= version_text(*v));
    text
}

/// Reads the text of a version.  Text that is not made of three numerals
/// with dots between them, each fitting 64 bits, is a parse error.
pub fn parse_version(text: &[u8]) -> (r: Result<Version, UpdateCheckError>)
    ensures
        r is Ok <==> parse_spec(text@) is Some,
        r matches Ok(v) ==> parse_spec(text@) == Some(v),
        r matches Err(e) ==> e == UpdateCheckError::Parse,
{
    let n = text.len();
    let first = scan_field(text, 0);
    if first >= n {
        return Err(UpdateCheckError::Parse);
    }
    let second = scan_field(text, first + 1);
    if second >= n {
        return Err(UpdateCheckError::Parse);
    }
    let third = scan_field(text, second + 1);
    if third != n {
        return Err(UpdateCheckError::Parse);
    }
    let major = parse_number(slice_subrange(text, 0, first));
    let minor = parse_number(slice_subrange(text, first + 1, second));
    let patch = parse_number(slice_subrange(text, second + 1, third));
    match (major, minor, patch) {
        (Some(major), Some(minor), Some(patch)) => Ok(Version { major, minor, patch }),
        _ => Err(UpdateCheckError::Parse),
    }
}

/// A field made of digits ends where the digits end.
pub proof fn lemma_field_of_digits(text: Seq<u8>, from: int, end: int)
    requires
        0 <= from <= end <= text.len(),
        forall|i: int| from <= i < end ==> 0x30 <= #[trigger] text[i] <= 0x39,
        end == text.len() || text[end] == DOT,
    ensures
        field_end(text, from) == end,
    decreases end - from,
{
    if from < end {
        assert(0x30 <= text[from] <= 0x39);
        lemma_field_of_digits(text, from + 1, end);
    }
}

/// Reading the text of a version gives the version back.
pub proof fn lemma_parse_of_text(v: Version)
    ensures
        parse_spec(version_text(v)) == Some(v),
{
    let a = decimal(v.major as nat);
    let b = decimal(v.minor as nat);
    let c = decimal(v.patch as nat);
    lemma_decimal_is_numeral(v.major as nat);
    lemma_decimal_is_numeral(v.minor as nat);
    lemma_decimal_is_numeral(v.patch as nat);
    let text = version_text(v);
    let first = a.len() as int;
    let second = first + 1 + b.len();
    let third = second + 1 + c.len();
    assert(text.len() == third);
    assert(text.subrange(0, first) =~= a);
    assert(text.subrange(first + 1, second) =~= b);
    assert(text.subrange(second + 1, third) =~= c);
    assert(text[first] == DOT);
    assert(text[second] == DOT);
    assert forall|i: int| 0 <= i < first implies 0x30 <= #[trigger] text[i] <= 0x39 by {
        assert(text[i] == a[i]);
    }
    assert forall|i: int| first + 1 <= i < second implies 0x30 <= #[trigger] text[i] <= 0x39 by {
        assert(text[i] == b[i - first - 1]);
    }
    assert forall|i: int| second + 1 <= i < third implies 0x30 <= #[trigger] text[i] <= 0x39 by {
        assert(text[i] == c[i - second - 1]);
    }
    lemma_field_of_digits(text, 0, first);
    lemma_field_of_digits(text, first + 1, second);
    lemma_field_of_digits(text, second + 1, third);
    assert(is_numeral(a) && is_numeral(b) && is_numeral(c));
}

} // verus!
