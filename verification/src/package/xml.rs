//! The package manifest model: what a `package.xml` descriptor carries
//! once interpreted, together with the leaf value rules — the license
//! form, the compatibility version range, and whitespace normalization.

use vstd::prelude::*;
use crate::version::Version;
use crate::version::syntax::lower;

verus! {

/// A localized package name.
#[derive(Debug, PartialEq)]
pub struct PackageName {
    pub name: Vec<u8>,
    pub language: Option<Vec<u8>>,
}

/// A localized package description.
#[derive(Debug, PartialEq)]
pub struct PackageDescription {
    pub description: Vec<u8>,
    pub language: Option<Vec<u8>>,
}

/// A license: its display value and, when given, its URL.
#[derive(Debug, PartialEq)]
pub struct License {
    pub value: Vec<u8>,
    pub url: Option<Vec<u8>>,
}

/// One supported API compatibility version.
#[derive(Debug, Eq, PartialEq, Clone, Copy, Structural)]
pub struct Compatibility(pub u16);

/// The `packageinformation` block of a manifest.
#[derive(Debug, PartialEq)]
pub struct PackageInformation {
    pub name: Vec<PackageName>,
    pub description: Vec<PackageDescription>,
    pub url: Option<Vec<u8>>,
    pub is_application: bool,
    pub version: Version,
    pub date: Vec<u8>,
    pub license: Option<License>,
}

/// The `authorinformation` block of a manifest.
#[derive(Debug, PartialEq)]
pub struct AuthorInformation {
    pub author: Vec<u8>,
    pub author_url: Option<Vec<u8>>,
}

/// A required package with its minimum version.
#[derive(Debug, PartialEq)]
pub struct RequiredPackage {
    pub identifier: Vec<u8>,
    pub min_version: Vec<u8>,
}

/// An optional package.
#[derive(Debug, PartialEq)]
pub struct OptionalPackage {
    pub identifier: Vec<u8>,
}

/// An excluded package, possibly from a version on.
#[derive(Debug, PartialEq)]
pub struct ExcludedPackage {
    pub identifier: Vec<u8>,
    pub version: Option<Vec<u8>>,
}

/// An update instruction: the version it updates from.
#[derive(Debug, PartialEq)]
pub struct UpdateInstruction {
    pub from_version: Vec<u8>,
}

/// A whole package manifest.
#[derive(Debug, PartialEq)]
pub struct PackageXML {
    pub name: Vec<u8>,
    pub package_information: PackageInformation,
    pub author_information: AuthorInformation,
    pub required_packages: Vec<RequiredPackage>,
    pub optional_packages: Vec<OptionalPackage>,
    pub excluded_packages: Vec<ExcludedPackage>,
    pub instructions: Vec<UpdateInstruction>,
    pub compatibility: Vec<Compatibility>,
}

/// What the `url` crate's parser makes of an absolute URL string: its
/// normalized rendering, or nothing when the string is not a valid URL.
/// The result depends on the string alone.
pub uninterp spec fn url_normalized_of(s: Seq<u8>) -> Option<Seq<u8>>;

/// Relies on url::Url::parse: an absolute URL is parsed and rendered
/// back in normalized form; an invalid one yields nothing. Deterministic
/// in the string.
#[verifier::external_body]
pub fn url_normalize(s: &[u8]) -> (r: Option<Vec<u8>>)
    ensures
        match r {
            Some(u) => url_normalized_of(s@) == Some(u@),
            None => url_normalized_of(s@) is None,
        },
{
    let parsed = url::Url::parse(core::str::from_utf8(s).ok()?).ok()?;
    Some(String::from(parsed).into_bytes())
}

/// What the `unic-langid` parser makes of a BCP-47 language identifier:
/// its canonical rendering, or nothing when invalid. The result depends
/// on the string alone.
pub uninterp spec fn langid_of(s: Seq<u8>) -> Option<Seq<u8>>;

/// Relies on unic_langid::LanguageIdentifier::from_bytes: a language
/// identifier is parsed and rendered back canonically; an invalid one
/// yields nothing. Deterministic in the string.
#[verifier::external_body]
pub fn langid_normalize(s: &[u8]) -> (r: Option<Vec<u8>>)
    ensures
        match r {
            Some(l) => langid_of(s@) == Some(l@),
            None => langid_of(s@) is None,
        },
{
    match unic_langid::LanguageIdentifier::from_bytes(s) {
        Ok(l) => Some(l.to_string().into_bytes()),
        Err(_) => None,
    }
}

/// An ASCII whitespace byte as the normalizer sees it. Whitespace
/// handling here is deliberately ASCII-only: manifests name their
/// packages in ASCII, and a multi-byte Unicode space is left as it is
/// rather than collapsed.
pub open spec fn is_wsx(b: u8) -> bool {
    b == 32 || b == 9 || b == 10 || b == 13 || b == 11 || b == 12
}

/// Whitespace normalization: every maximal run of whitespace collapses
/// into a single space.
pub open spec fn spec_collapse_ws(s: Seq<u8>) -> Seq<u8>
    decreases s.len(),
{
    if s.len() == 0 {
        Seq::<u8>::empty()
    } else if is_wsx(s[0]) {
        if s.len() >= 2 && is_wsx(s[1]) {
            spec_collapse_ws(s.skip(1))
        } else {
            seq![32u8] + spec_collapse_ws(s.skip(1))
        }
    } else {
        seq![s[0]] + spec_collapse_ws(s.skip(1))
    }
}

/// Normalizes whitespace: each maximal run of whitespace becomes one
/// space.
pub fn collapse_ws(s: &[u8]) -> (r: Vec<u8>)
    ensures
        r@ == spec_collapse_ws(s@),
{
    let mut i: usize = s.len();
    let mut tail: Vec<u8> = Vec::new();
    proof {
        assert(s@.skip(s@.len() as int) =~= Seq::<u8>::empty());
    }
    while i > 0
        invariant
            0 <= i <= s@.len(),
            tail@ == spec_collapse_ws(s@.skip(i as int)),
        decreases i,
    {
        let b = s[i - 1];
        let ws = b == 32 || b == 9 || b == 10 || b == 13 || b == 11 || b == 12;
        proof {
            assert(s@.skip(i as int - 1)[0] == s@[i as int - 1]);
            assert(s@.skip(i as int - 1).skip(1) =~= s@.skip(i as int));
            if s@.skip(i as int - 1).len() >= 2 {
                assert(s@.skip(i as int - 1)[1] == s@[i as int]);
            }
        }
        if ws {
            if i < s.len() && (s[i] == 32 || s[i] == 9 || s[i] == 10 || s[i] == 13 || s[i] == 11
                || s[i] == 12) {
            } else {
                tail.insert(0, 32);
                proof {
                    assert(tail@ =~= seq![32u8] + spec_collapse_ws(s@.skip(i as int)));
                }
            }
        } else {
            tail.insert(0, b);
            proof {
                assert(tail@ =~= seq![s@[i as int - 1]] + spec_collapse_ws(s@.skip(i as int)));
            }
        }
        i = i - 1;
    }
    proof {
        assert(s@.skip(0) =~= s@);
    }
    tail
}

/// Where the optional ` <URL>` part of a license string begins: the
/// smallest index from which the rest of the string has the URL shape,
/// or the length when no such index exists.
pub open spec fn spec_license_split_from(s: Seq<u8>, i: int) -> int
    decreases s.len() - i,
{
    if i < 0 || i >= s.len() {
        s.len() as int
    } else if spec_url_part_shape(s.skip(i)) {
        i
    } else {
        spec_license_split_from(s, i + 1)
    }
}

/// The shape of the URL part of a license: one whitespace byte, `<`, a
/// case-insensitive `http://` or `https://` start, anything further
/// short of a line feed, and a closing `>` as the last byte. Only the
/// leading whitespace byte may be a line feed.
pub open spec fn spec_url_part_shape(t: Seq<u8>) -> bool {
    &&& t.len() >= 2
    &&& is_wsx(t[0])
    &&& t[1] == 60
    &&& t.last() == 62
    &&& (forall|j: int| 1 <= j < t.len() ==> t[j] != 10)
    &&& {
        let inner = t.skip(2).drop_last();
        spec_url_scheme(inner)
    }
}

/// A case-insensitive `http://` or `https://` prefix.
pub open spec fn spec_url_scheme(u: Seq<u8>) -> bool {
    &&& u.len() >= 7
    &&& lower(u[0]) == 104
    &&& lower(u[1]) == 116
    &&& lower(u[2]) == 116
    &&& lower(u[3]) == 112
    &&& if lower(u[4]) == 115 {
        u.len() >= 8 && u[5] == 58 && u[6] == 47 && u[7] == 47
    } else {
        u[4] == 58 && u[5] == 47 && u[6] == 47
    }
}

/// What a license string denotes: the text before the optional ` <URL>`
/// part as the value and the normalized URL, when one parses; a license
/// with neither text nor URL denotes nothing. An empty text with a valid
/// URL takes the URL as its value. The text cannot span lines: a line
/// feed is consumable only as the whitespace before the `<URL>` part, so
/// a license whose line feed sits anywhere else denotes nothing.
pub open spec fn spec_license_of(s: Seq<u8>) -> Option<(Seq<u8>, Option<Seq<u8>>)> {
    let split = spec_license_split_from(s, 0);
    if split > crate::text::find_byte(s, 10) {
        None
    } else {
        spec_license_parts(s, split)
    }
}

/// The value and URL a license splits into at a given point.
pub open spec fn spec_license_parts(s: Seq<u8>, split: int) -> Option<(Seq<u8>, Option<Seq<u8>>)> {
    let value = s.take(split);
    let url = if split < s.len() {
        url_normalized_of(s.skip(split).skip(2).drop_last())
    } else {
        None
    };
    if value.len() == 0 {
        match url {
            Some(u) => Some((u, Some(u))),
            None => None,
        }
    } else {
        Some((value, url))
    }
}

/// Whether the rest of the input from `i` on has the URL-part shape.
#[verifier::loop_isolation(false)]
fn url_part_shape_at(s: &[u8], i: usize) -> (r: bool)
    requires
        0 <= i < s@.len(),
    ensures
        r == spec_url_part_shape(s@.skip(i as int)),
{
    let t = vstd::slice::slice_subrange(s, i, s.len());
    proof {
        assert(t@ =~= s@.skip(i as int));
    }
    let n = t.len();
    if n < 2 {
        return false;
    }
    let b0 = t[0];
    if !(b0 == 32 || b0 == 9 || b0 == 10 || b0 == 13 || b0 == 11 || b0 == 12) {
        return false;
    }
    if t[1] != 60 || t[n - 1] != 62 {
        return false;
    }
    let mut j: usize = 1;
    while j < n
        invariant
            1 <= j <= n,
            n == t@.len(),
            forall|k: int| 1 <= k < j ==> t@[k] != 10,
        decreases n - j,
    {
        if t[j] == 10 {
            proof {
                assert(t@[j as int] == 10);
            }
            return false;
        }
        j = j + 1;
    }
    let inner = vstd::slice::slice_subrange(t, 2, n - 1);
    proof {
        assert(inner@ =~= t@.skip(2).drop_last());
    }
    let m = inner.len();
    if m < 7 {
        return false;
    }
    if !(lower_is(inner[0], 104) && lower_is(inner[1], 116) && lower_is(inner[2], 116) && lower_is(
        inner[3],
        112,
    )) {
        return false;
    }
    if lower_is(inner[4], 115) {
        m >= 8 && inner[5] == 58 && inner[6] == 47 && inner[7] == 47
    } else {
        inner[4] == 58 && inner[5] == 47 && inner[6] == 47
    }
}

/// Whether a byte folds to the given lower-case letter.
fn lower_is(b: u8, target: u8) -> (r: bool)
    ensures
        r == (lower(b) == target),
{
    let lb: u8 = if 65 <= b && b <= 90 {
        b + 32
    } else {
        b
    };
    lb == target
}

impl License {
    /// Interprets a license string: the text before an optional ` <URL>`
    /// part, with the URL normalized; an empty text takes the URL as the
    /// value; neither text nor URL is no license.
    pub fn try_from(s: &[u8]) -> (r: Option<License>)
        ensures
            match r {
                Some(l) => spec_license_of(s@) == Some(
                    (
                        l.value@,
                        match l.url {
                            Some(ref u) => Some(u@),
                            None => None,
                        },
                    ),
                ),
                None => spec_license_of(s@) is None,
            },
    {
        let mut split: usize = 0;
        while split < s.len() && !url_part_shape_at(s, split)
            invariant
                0 <= split <= s@.len(),
                forall|j: int| 0 <= j < split ==> !spec_url_part_shape(s@.skip(j)),
                spec_license_split_from(s@, 0) == spec_license_split_from(s@, split as int),
            decreases s@.len() - split,
        {
            split = split + 1;
        }
        proof {
            assert(spec_license_split_from(s@, 0) == split as int);
        }
        let nl = crate::text::find_byte_at(s, 10);
        if split > nl {
            return None;
        }
        let value = vstd::slice::slice_subrange(s, 0, split);
        proof {
            assert(value@ =~= s@.take(split as int));
        }
        let url = if split < s.len() {
            let part = vstd::slice::slice_subrange(s, split, s.len());
            let inner = vstd::slice::slice_subrange(part, 2, part.len() - 1);
            proof {
                assert(part@ =~= s@.skip(split as int));
                assert(inner@ =~= s@.skip(split as int).skip(2).drop_last());
            }
            url_normalize(inner)
        } else {
            None
        };
        if value.len() == 0 {
            match url {
                Some(u) => {
                    let copy = vstd::slice::slice_to_vec(u.as_slice());
                    Some(License { value: copy, url: Some(u) })
                },
                None => None,
            }
        } else {
            Some(License { value: vstd::slice::slice_to_vec(value), url })
        }
    }
}

impl Compatibility {
    /// Interprets a compatibility version: a four-digit year from 2017
    /// through 2099, and nothing else.
    pub fn try_from(s: &[u8]) -> (r: Option<Compatibility>)
        ensures
            match r {
                Some(c) => spec_compat_year(s@) == Some(c.0),
                None => spec_compat_year(s@) is None,
            },
    {
        if s.len() != 4 || s[0] != 50 || s[1] != 48 {
            return None;
        }
        let d2 = s[2];
        let d3 = s[3];
        if d2 == 49 {
            if 55 <= d3 && d3 <= 57 {
                Some(Compatibility(2000 + 10 + (d3 - 48) as u16))
            } else {
                None
            }
        } else if 50 <= d2 && d2 <= 57 && 48 <= d3 && d3 <= 57 {
            Some(Compatibility(2000 + ((d2 - 48) as u16) * 10 + (d3 - 48) as u16))
        } else {
            None
        }
    }
}

/// What a compatibility string denotes: the year 2017 through 2019 or
/// 2020 through 2099, written as exactly four digits.
pub open spec fn spec_compat_year(s: Seq<u8>) -> Option<u16> {
    if s.len() == 4 && s[0] == 50 && s[1] == 48 && ((s[2] == 49 && 55 <= s[3] && s[3] <= 57) || (50
        <= s[2] && s[2] <= 57 && 48 <= s[3] && s[3] <= 57)) {
        Some((2000 + (s[2] - 48) * 10 + (s[3] - 48)) as u16)
    } else {
        None
    }
}

} // verus!
