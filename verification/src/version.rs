//! The version algebra: version values with an optional pre-release or
//! patch-level suffix, and their total order.

use vstd::prelude::*;

pub mod syntax;

verus! {

/// The kind of a version suffix. Ordering weight: `Dev` < `Alpha` < `Beta`
/// < `ReleaseCandidate` < (no suffix) < `PatchLevel`.
#[derive(Debug, Eq, PartialEq, Clone, Copy, Structural)]
pub enum SuffixType {
    Alpha,
    Beta,
    Dev,
    ReleaseCandidate,
    PatchLevel,
}

impl SuffixType {
    /// The weight used for ordering; a release (no suffix) counts as 0.
    pub open spec fn spec_weight(self) -> int {
        match self {
            SuffixType::Alpha => -3,
            SuffixType::Beta => -2,
            SuffixType::Dev => -4,
            SuffixType::ReleaseCandidate => -1,
            SuffixType::PatchLevel => 1,
        }
    }

    pub fn weight(self) -> (w: i8)
        ensures
            w as int == self.spec_weight(),
    {
        match self {
            SuffixType::Alpha => -3,
            SuffixType::Beta => -2,
            SuffixType::Dev => -4,
            SuffixType::ReleaseCandidate => -1,
            SuffixType::PatchLevel => 1,
        }
    }
}

/// A version suffix: a kind together with its numeric index.
#[derive(Debug, Eq, PartialEq, Clone, Copy, Structural)]
pub struct Suffix {
    pub ty: SuffixType,
    pub number: u32,
}

impl Suffix {
    pub open spec fn spec_ty(self) -> SuffixType {
        self.ty
    }

    pub open spec fn spec_number(self) -> u32 {
        self.number
    }

    pub fn new(ty: SuffixType, number: u32) -> (s: Suffix)
        ensures
            s.spec_ty() == ty,
            s.spec_number() == number,
    {
        Suffix { ty, number }
    }

    pub fn number(self) -> (n: u32)
        ensures
            n == self.spec_number(),
    {
        self.number
    }

    pub fn ty(self) -> (t: SuffixType)
        ensures
            t == self.spec_ty(),
    {
        self.ty
    }
}

/// A version: three numeric components and an optional suffix.
#[derive(Debug, Eq, PartialEq, Clone, Copy, Structural)]
pub struct Version {
    pub major: u32,
    pub minor: u32,
    pub patch: u32,
    pub suffix: Option<Suffix>,
}

impl Version {
    pub open spec fn spec_major(self) -> u32 {
        self.major
    }

    pub open spec fn spec_minor(self) -> u32 {
        self.minor
    }

    pub open spec fn spec_patch(self) -> u32 {
        self.patch
    }

    pub open spec fn spec_suffix(self) -> Option<Suffix> {
        self.suffix
    }

    /// The ordering weight contributed by the suffix; 0 for a release.
    pub open spec fn spec_suffix_weight(self) -> int {
        match self.spec_suffix() {
            Some(s) => s.spec_ty().spec_weight(),
            None => 0,
        }
    }

    /// The suffix index used as an ordering tie-breaker; 0 for a release.
    pub open spec fn spec_suffix_number(self) -> int {
        match self.spec_suffix() {
            Some(s) => s.spec_number() as int,
            None => 0,
        }
    }

    /// The strict order: lexicographic on
    /// (major, minor, patch, suffix weight, suffix number).
    pub open spec fn spec_lt(self, other: Version) -> bool {
        ||| self.spec_major() < other.spec_major()
        ||| (self.spec_major() == other.spec_major() && {
            ||| self.spec_minor() < other.spec_minor()
            ||| (self.spec_minor() == other.spec_minor() && {
                ||| self.spec_patch() < other.spec_patch()
                ||| (self.spec_patch() == other.spec_patch() && {
                    ||| self.spec_suffix_weight() < other.spec_suffix_weight()
                    ||| (self.spec_suffix_weight() == other.spec_suffix_weight()
                        && self.spec_suffix_number() < other.spec_suffix_number())
                })
            })
        })
    }

    pub fn new(major: u32, minor: u32, patch: u32, suffix: Option<Suffix>) -> (v: Version)
        ensures
            v.spec_major() == major,
            v.spec_minor() == minor,
            v.spec_patch() == patch,
            v.spec_suffix() == suffix,
    {
        Version { major, minor, patch, suffix }
    }

    pub fn major(&self) -> (n: u32)
        ensures
            n == self.spec_major(),
    {
        self.major
    }

    pub fn minor(&self) -> (n: u32)
        ensures
            n == self.spec_minor(),
    {
        self.minor
    }

    pub fn patch(&self) -> (n: u32)
        ensures
            n == self.spec_patch(),
    {
        self.patch
    }

    pub fn suffix(&self) -> (s: Option<Suffix>)
        ensures
            s == self.spec_suffix(),
    {
        self.suffix
    }

    /// Decides the strict order between two versions.
    pub fn lt(&self, other: &Version) -> (r: bool)
        ensures
            r == self.spec_lt(*other),
    {
        if self.major != other.major {
            return self.major < other.major;
        }
        if self.minor != other.minor {
            return self.minor < other.minor;
        }
        if self.patch != other.patch {
            return self.patch < other.patch;
        }
        let (w1, n1): (i8, u32) = match self.suffix {
            Some(s) => (s.ty.weight(), s.number),
            None => (0, 0),
        };
        let (w2, n2): (i8, u32) = match other.suffix {
            Some(s) => (s.ty.weight(), s.number),
            None => (0, 0),
        };
        if w1 != w2 {
            return w1 < w2;
        }
        n1 < n2
    }
}

/// The order is irreflexive: no version is strictly below itself.
pub proof fn lemma_lt_irreflexive(v: Version)
    ensures
        !v.spec_lt(v),
{
}

/// The order is total: of two distinct versions one is strictly below the
/// other; equal weight components of versions with equal fields coincide.
pub proof fn lemma_lt_total(a: Version, b: Version)
    ensures
        a.spec_lt(b) || b.spec_lt(a) || (a.spec_major() == b.spec_major()
            && a.spec_minor() == b.spec_minor() && a.spec_patch() == b.spec_patch()
            && a.spec_suffix_weight() == b.spec_suffix_weight() && a.spec_suffix_number()
            == b.spec_suffix_number()),
{
}

/// The order is transitive.
pub proof fn lemma_lt_transitive(a: Version, b: Version, c: Version)
    requires
        a.spec_lt(b),
        b.spec_lt(c),
    ensures
        a.spec_lt(c),
{
}

/// The non-strict order is transitive: a version no lower than one that
/// is itself no lower than a third is no lower than the third.
pub proof fn lemma_le_transitive(a: Version, b: Version, c: Version)
    requires
        !b.spec_lt(a),
        !c.spec_lt(b),
    ensures
        !c.spec_lt(a),
{
    if c.spec_lt(a) {
        lemma_lt_total(a, b);
        if a.spec_lt(b) {
            lemma_lt_transitive(c, a, b);
        }
    }
}

/// The order is antisymmetric: two versions cannot each be strictly below
/// the other.
pub proof fn lemma_lt_antisymmetric(a: Version, b: Version)
    requires
        a.spec_lt(b),
    ensures
        !b.spec_lt(a),
{
}

} // verus!
