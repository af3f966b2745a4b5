//! The order of release versions.

use crate::outside::{compare_versions, read_version, semver_key};
use crate::text::same;
use vstd::prelude::*;

verus! {

/// Where a version stands against another one.
#[derive(Debug, Clone, Copy, PartialEq, Eq, Structural)]
pub enum Precedence {
    Lower,
    Same,
    Higher,
}

/// What decides the precedence of a semantic version, the most significant part first.
pub struct VersionKey {
    pub major: nat,
    pub minor: nat,
    pub patch: nat,
    /// Whether there is no pre-release part.
    pub stable: bool,
    /// The pre-release and build identifiers, coded so that they compare number by number.
    pub identifiers: Seq<int>,
}

/// The part of a semantic version that is made of numbers, and whether more follows.
#[derive(Debug, Clone, Copy, PartialEq, Eq, Structural)]
pub struct VersionCore {
    pub major: u64,
    pub minor: u64,
    pub patch: u64,
    /// Whether there is no pre-release part.
    pub stable: bool,
}

/// Lexicographic order: the first difference decides, and a prefix is less.
pub open spec fn lex_less(a: Seq<int>, b: Seq<int>) -> bool
    decreases a.len(),
{
    if b.len() == 0 {
        false
    } else if a.len() == 0 {
        true
    } else {
        a[0] < b[0] || (a[0] == b[0] && lex_less(a.drop_first(), b.drop_first()))
    }
}

impl VersionKey {
    /// Whether this version precedes `other`.
    pub open spec fn less(self, other: VersionKey) -> bool {
        if self.major != other.major {
            self.major < other.major
        } else if self.minor != other.minor {
            self.minor < other.minor
        } else if self.patch != other.patch {
            self.patch < other.patch
        } else if self.stable != other.stable {
            other.stable
        } else {
            lex_less(self.identifiers, other.identifiers)
        }
    }
}

/// Whether a text with the key `a` ranks below one with the key `b`. A text that is no
/// semantic version, and so has no key, ranks below every one that is.
pub open spec fn ranks_below(a: Option<VersionKey>, b: Option<VersionKey>) -> bool {
    match (a, b) {
        (Some(x), Some(y)) => x.less(y),
        (None, Some(_)) => true,
        _ => false,
    }
}

/// Where a text with the key `a` stands against one with the key `b`.
pub open spec fn precedence_of(a: Option<VersionKey>, b: Option<VersionKey>) -> Precedence {
    if ranks_below(a, b) {
        Precedence::Lower
    } else if ranks_below(b, a) {
        Precedence::Higher
    } else {
        Precedence::Same
    }
}

/// No sequence is less than itself, and of two neither can be less than the other.
pub proof fn lemma_lex_asymmetric(a: Seq<int>, b: Seq<int>)
    ensures
        !(lex_less(a, b) && lex_less(b, a)),
    decreases a.len(),
{
    if a.len() > 0 && b.len() > 0 {
        lemma_lex_asymmetric(a.drop_first(), b.drop_first());
    }
}

/// Lexicographic order is transitive, also in the negative.
pub proof fn lemma_lex_transitive(a: Seq<int>, b: Seq<int>, c: Seq<int>)
    ensures
        lex_less(a, b) && lex_less(b, c) ==> lex_less(a, c),
        !lex_less(a, b) && !lex_less(b, c) ==> !lex_less(a, c),
    decreases a.len(),
{
    if a.len() > 0 && b.len() > 0 && c.len() > 0 {
        lemma_lex_transitive(a.drop_first(), b.drop_first(), c.drop_first());
        lemma_lex_asymmetric(a.drop_first(), b.drop_first());
    }
}

/// The order of versions is strict: none ranks below itself, and of two neither can rank
/// below the other.
pub proof fn law_ranks_asymmetric(a: Option<VersionKey>, b: Option<VersionKey>)
    ensures
        !(ranks_below(a, b) && ranks_below(b, a)),
        !ranks_below(a, a),
{
    if let (Some(x), Some(y)) = (a, b) {
        lemma_lex_asymmetric(x.identifiers, y.identifiers);
    }
    if let Some(x) = a {
        lemma_lex_asymmetric(x.identifiers, x.identifiers);
    }
}

/// The order of versions is transitive, and so is its negation: it is a total order up to
/// versions of the same rank.
pub proof fn law_ranks_transitive(
    a: Option<VersionKey>,
    b: Option<VersionKey>,
    c: Option<VersionKey>,
)
    ensures
        ranks_below(a, b) && ranks_below(b, c) ==> ranks_below(a, c),
        !ranks_below(a, b) && !ranks_below(b, c) ==> !ranks_below(a, c),
{
    if let (Some(x), Some(y)) = (a, b) {
        if let Some(z) = c {
            lemma_lex_transitive(x.identifiers, y.identifiers, z.identifiers);
        }
    }
}

/// Whether `latest` is newer than `current`: by precedence where both are semantic versions, else
/// wherever they differ.
pub open spec fn newer_than(latest: Seq<char>, current: Seq<char>) -> bool {
    match (semver_key(latest), semver_key(current)) {
        (Some(l), Some(c)) => c.less(l),
        _ => latest != current,
    }
}

/// Whether `latest` is newer than `current`, given where it stands against it. `None` stands for
/// two texts of which one is no semantic version.
pub fn newer_given(precedence: Option<Precedence>, latest: &str, current: &str) -> (r: bool)
    ensures
        r == (match precedence {
            Some(p) => p == Precedence::Higher,
            None => latest@ != current@,
        }),
{
    match precedence {
        Some(Precedence::Higher) => true,
        Some(_) => false,
        None => !same(latest, current),
    }
}

/// Whether `latest` is newer than `current`.
pub fn is_newer(latest: &str, current: &str) -> (r: bool)
    ensures
        r == newer_than(latest@, current@),
{
    let precedence: Option<Precedence> = if read_version(latest).is_some() && read_version(
        current,
    ).is_some() {
        Some(compare_versions(latest, current))
    } else {
        None
    };
    proof {
        law_ranks_asymmetric(semver_key(latest@), semver_key(current@));
    }
    newer_given(precedence, latest, current)
}

/// No version is newer than itself.
pub proof fn law_newer_irreflexive(version: Seq<char>)
    ensures
        !newer_than(version, version),
{
    law_ranks_asymmetric(semver_key(version), semver_key(version));
}

/// Of two semantic versions at most one is newer than the other.
pub proof fn law_newer_asymmetric(a: Seq<char>, b: Seq<char>)
    requires
        semver_key(a) is Some,
        semver_key(b) is Some,
    ensures
        !(newer_than(a, b) && newer_than(b, a)),
{
    law_ranks_asymmetric(semver_key(a), semver_key(b));
}

/// Among semantic versions, newer than a newer one is newer.
pub proof fn law_newer_transitive(a: Seq<char>, b: Seq<char>, c: Seq<char>)
    requires
        semver_key(a) is Some,
        semver_key(b) is Some,
        semver_key(c) is Some,
        newer_than(a, b),
        newer_than(b, c),
    ensures
        newer_than(a, c),
{
    law_ranks_transitive(semver_key(c), semver_key(b), semver_key(a));
}

/// A greater major, minor or patch number makes a version newer, in this order of weight, and a
/// stable version is newer than a pre-release of the same numbers, which is not newer than it.
pub proof fn law_newer_by_numbers(a: Seq<char>, b: Seq<char>)
    requires
        semver_key(a) is Some,
        semver_key(b) is Some,
    ensures
        ({
            let x = semver_key(a)->0;
            let y = semver_key(b)->0;
            &&& x.major > y.major ==> newer_than(a, b)
            &&& x.major == y.major && x.minor > y.minor ==> newer_than(a, b)
            &&& x.major == y.major && x.minor == y.minor && x.patch > y.patch ==> newer_than(a, b)
            &&& x.major == y.major && x.minor == y.minor && x.patch == y.patch && x.stable
                && !y.stable ==> newer_than(a, b) && !newer_than(b, a)
        }),
{
}

/// Where one of two texts is no semantic version, either is newer than the other exactly when
/// they differ.
pub proof fn law_newer_without_semver(a: Seq<char>, b: Seq<char>)
    requires
        semver_key(a) is None || semver_key(b) is None,
    ensures
        newer_than(a, b) == (a != b),
        newer_than(b, a) == (a != b),
{
}

} // verus!
