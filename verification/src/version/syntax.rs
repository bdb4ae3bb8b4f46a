//! Parsing and rendering of versions.
//!
//! The accepted form is `MAJOR "." MINOR "." PATCH [ WS SUFFIX WS NUMBER ]`
//! with optional surrounding whitespace; a suffix token is one of
//! `alpha`, `a`, `beta`, `b`, `dev`, `d`, `rc`, `pl`, case-insensitively,
//! tried in that order. The URL form is `MAJOR.MINOR.PATCH[_KIND_NUMBER]`,
//! the display form `MAJOR.MINOR.PATCH[ KIND NUMBER]`.

use vstd::prelude::*;
use vstd::slice::slice_subrange;
use crate::text::{
    dec_digits, dec_format, is_digit, is_space, lemma_dec_digits_are_digits,
    lemma_numeric_of_dec_digits, lemma_skip_ws_no_space, numeric, spec_numeric, spec_skip_ws, ws,
};
use super::{Suffix, SuffixType, Version};

verus! {

/// ASCII upper-case letters folded to lower case; other bytes unchanged.
pub open spec fn lower(b: u8) -> u8 {
    if 65 <= b && b <= 90 {
        (b + 32) as u8
    } else {
        b
    }
}

/// The input starts with `t` when compared case-insensitively.
pub open spec fn nc_tag(s: Seq<u8>, t: Seq<u8>) -> bool {
    s.len() >= t.len() && forall|i: int| 0 <= i < t.len() ==> lower(s[i]) == t[i]
}

pub open spec fn tag_alpha() -> Seq<u8> {
    seq![97u8, 108u8, 112u8, 104u8, 97u8]
}

pub open spec fn tag_beta() -> Seq<u8> {
    seq![98u8, 101u8, 116u8, 97u8]
}

pub open spec fn tag_dev() -> Seq<u8> {
    seq![100u8, 101u8, 118u8]
}

pub open spec fn tag_rc() -> Seq<u8> {
    seq![114u8, 99u8]
}

pub open spec fn tag_pl() -> Seq<u8> {
    seq![112u8, 108u8]
}

/// What parsing a suffix kind yields: the first of the tags
/// `alpha`, `a`, `beta`, `b`, `dev`, `d`, `rc`, `pl` that starts the input
/// case-insensitively, and the input past that tag.
pub open spec fn spec_parse_suffix_type(s: Seq<u8>) -> Option<(SuffixType, Seq<u8>)> {
    if nc_tag(s, tag_alpha()) {
        Some((SuffixType::Alpha, s.skip(5)))
    } else if nc_tag(s, seq![97u8]) {
        Some((SuffixType::Alpha, s.skip(1)))
    } else if nc_tag(s, tag_beta()) {
        Some((SuffixType::Beta, s.skip(4)))
    } else if nc_tag(s, seq![98u8]) {
        Some((SuffixType::Beta, s.skip(1)))
    } else if nc_tag(s, tag_dev()) {
        Some((SuffixType::Dev, s.skip(3)))
    } else if nc_tag(s, seq![100u8]) {
        Some((SuffixType::Dev, s.skip(1)))
    } else if nc_tag(s, tag_rc()) {
        Some((SuffixType::ReleaseCandidate, s.skip(2)))
    } else if nc_tag(s, tag_pl()) {
        Some((SuffixType::PatchLevel, s.skip(2)))
    } else {
        None
    }
}

/// What parsing a suffix yields: a kind and a number, each surrounded by
/// optional whitespace, which is consumed.
pub open spec fn spec_parse_suffix(s: Seq<u8>) -> Option<(Suffix, Seq<u8>)> {
    let s1 = spec_skip_ws(s);
    match spec_parse_suffix_type(s1) {
        None => None,
        Some((ty, s2)) => {
            let s3 = spec_skip_ws(s2);
            match spec_numeric(s3) {
                None => None,
                Some((number, s4)) => Some((Suffix { ty, number }, spec_skip_ws(s4))),
            }
        },
    }
}

/// What parsing a version yields: three dot-separated numbers after
/// optional leading whitespace, whitespace after the third number, and an
/// optional suffix.
pub open spec fn spec_parse_version(s: Seq<u8>) -> Option<(Version, Seq<u8>)> {
    let s1 = spec_skip_ws(s);
    match spec_numeric(s1) {
        None => None,
        Some((major, s2)) => if s2.len() > 0 && s2[0] == 46 {
            match spec_numeric(s2.skip(1)) {
                None => None,
                Some((minor, s3)) => if s3.len() > 0 && s3[0] == 46 {
                    match spec_numeric(s3.skip(1)) {
                        None => None,
                        Some((patch, s4)) => {
                            let s5 = spec_skip_ws(s4);
                            match spec_parse_suffix(s5) {
                                Some((suffix, s6)) => Some(
                                    (Version { major, minor, patch, suffix: Some(suffix) }, s6),
                                ),
                                None => Some(
                                    (Version { major, minor, patch, suffix: None }, s5),
                                ),
                            }
                        },
                    }
                } else {
                    None
                },
            }
        } else {
            None
        },
    }
}

/// The URL rendering of a suffix kind: `alpha`, `beta`, `dev`, `rc`, `pl`.
pub open spec fn spec_url_kind(t: SuffixType) -> Seq<u8> {
    match t {
        SuffixType::Alpha => tag_alpha(),
        SuffixType::Beta => tag_beta(),
        SuffixType::Dev => tag_dev(),
        SuffixType::ReleaseCandidate => tag_rc(),
        SuffixType::PatchLevel => tag_pl(),
    }
}

/// The display rendering of a suffix kind: `Alpha`, `Beta`, `Dev`, `RC`,
/// `pl`.
pub open spec fn spec_display_kind(t: SuffixType) -> Seq<u8> {
    match t {
        SuffixType::Alpha => seq![65u8, 108u8, 112u8, 104u8, 97u8],
        SuffixType::Beta => seq![66u8, 101u8, 116u8, 97u8],
        SuffixType::Dev => seq![68u8, 101u8, 118u8],
        SuffixType::ReleaseCandidate => seq![82u8, 67u8],
        SuffixType::PatchLevel => seq![112u8, 108u8],
    }
}

/// The URL rendering of a suffix: `KIND_NUMBER`.
pub open spec fn spec_suffix_url(s: Suffix) -> Seq<u8> {
    spec_url_kind(s.ty) + seq![95u8] + dec_digits(s.number as int)
}

/// The display rendering of a suffix: `KIND NUMBER`.
pub open spec fn spec_suffix_display(s: Suffix) -> Seq<u8> {
    spec_display_kind(s.ty) + seq![32u8] + dec_digits(s.number as int)
}

/// The URL rendering of a version: `MAJOR.MINOR.PATCH[_KIND_NUMBER]`.
pub open spec fn spec_version_url(v: Version) -> Seq<u8> {
    dec_digits(v.major as int) + seq![46u8] + dec_digits(v.minor as int) + seq![46u8]
        + dec_digits(v.patch as int) + match v.suffix {
        Some(s) => seq![95u8] + spec_suffix_url(s),
        None => Seq::<u8>::empty(),
    }
}

/// The display rendering of a version: `MAJOR.MINOR.PATCH[ KIND NUMBER]`.
pub open spec fn spec_version_display(v: Version) -> Seq<u8> {
    dec_digits(v.major as int) + seq![46u8] + dec_digits(v.minor as int) + seq![46u8]
        + dec_digits(v.patch as int) + match v.suffix {
        Some(s) => seq![32u8] + spec_suffix_display(s),
        None => Seq::<u8>::empty(),
    }
}

/// Underscores replaced by spaces; how a URL-form version on disk is
/// prepared for the parser.
pub open spec fn spec_underscores_to_spaces(s: Seq<u8>) -> Seq<u8> {
    s.map_values(|b: u8| if b == 95 { 32u8 } else { b })
}

/// Case-insensitively matches the input against an expected lower-case
/// tag and hands back the input past it.
fn eat_tag_nc<'a>(input: &'a [u8], tag: &[u8]) -> (r: Option<&'a [u8]>)
    ensures
        match r {
            Some(rest) => nc_tag(input@, tag@) && rest@ == input@.skip(tag@.len() as int),
            None => !nc_tag(input@, tag@),
        },
{
    if input.len() < tag.len() {
        return None;
    }
    let mut i: usize = 0;
    while i < tag.len()
        invariant
            0 <= i <= tag@.len() <= input@.len(),
            forall|j: int| 0 <= j < i ==> lower(input@[j]) == tag@[j],
        decreases tag@.len() - i,
    {
        let b = input[i];
        let lb: u8 = if 65 <= b && b <= 90 {
            b + 32
        } else {
            b
        };
        if lb != tag[i] {
            return None;
        }
        i = i + 1;
    }
    Some(slice_subrange(input, tag.len(), input.len()))
}

impl SuffixType {
    /// Parses a suffix kind: the first matching of the tags `alpha`, `a`,
    /// `beta`, `b`, `dev`, `d`, `rc`, `pl`, case-insensitively.
    pub fn parser(input: &[u8]) -> (r: Option<(SuffixType, &[u8])>)
        ensures
            match r {
                Some((t, rest)) => spec_parse_suffix_type(input@) == Some((t, rest@)),
                None => spec_parse_suffix_type(input@) is None,
            },
    {
        let t_alpha: [u8; 5] = [97, 108, 112, 104, 97];
        let t_a: [u8; 1] = [97];
        let t_beta: [u8; 4] = [98, 101, 116, 97];
        let t_b: [u8; 1] = [98];
        let t_dev: [u8; 3] = [100, 101, 118];
        let t_d: [u8; 1] = [100];
        let t_rc: [u8; 2] = [114, 99];
        let t_pl: [u8; 2] = [112, 108];
        proof {
            assert(t_alpha@ =~= tag_alpha());
            assert(t_a@ =~= seq![97u8]);
            assert(t_beta@ =~= tag_beta());
            assert(t_b@ =~= seq![98u8]);
            assert(t_dev@ =~= tag_dev());
            assert(t_d@ =~= seq![100u8]);
            assert(t_rc@ =~= tag_rc());
            assert(t_pl@ =~= tag_pl());
        }
        if let Some(rest) = eat_tag_nc(input, &t_alpha) {
            return Some((SuffixType::Alpha, rest));
        }
        if let Some(rest) = eat_tag_nc(input, &t_a) {
            return Some((SuffixType::Alpha, rest));
        }
        if let Some(rest) = eat_tag_nc(input, &t_beta) {
            return Some((SuffixType::Beta, rest));
        }
        if let Some(rest) = eat_tag_nc(input, &t_b) {
            return Some((SuffixType::Beta, rest));
        }
        if let Some(rest) = eat_tag_nc(input, &t_dev) {
            return Some((SuffixType::Dev, rest));
        }
        if let Some(rest) = eat_tag_nc(input, &t_d) {
            return Some((SuffixType::Dev, rest));
        }
        if let Some(rest) = eat_tag_nc(input, &t_rc) {
            return Some((SuffixType::ReleaseCandidate, rest));
        }
        if let Some(rest) = eat_tag_nc(input, &t_pl) {
            return Some((SuffixType::PatchLevel, rest));
        }
        None
    }
}

impl Suffix {
    /// Parses a suffix: a kind and a number, each surrounded by optional
    /// whitespace.
    pub fn parser(input: &[u8]) -> (r: Option<(Suffix, &[u8])>)
        ensures
            match r {
                Some((s, rest)) => spec_parse_suffix(input@) == Some((s, rest@)),
                None => spec_parse_suffix(input@) is None,
            },
    {
        let s1 = ws(input);
        match SuffixType::parser(s1) {
            None => None,
            Some((ty, s2)) => {
                let s3 = ws(s2);
                match numeric(s3) {
                    None => None,
                    Some((number, s4)) => Some((Suffix::new(ty, number), ws(s4))),
                }
            },
        }
    }

    /// Renders the suffix in URL form: `KIND_NUMBER` with a lower-case
    /// kind.
    pub fn format_url(self) -> (r: Vec<u8>)
        ensures
            r@ == spec_suffix_url(self),
    {
        let mut out: Vec<u8> = match self.ty {
            SuffixType::Alpha => vec![97, 108, 112, 104, 97],
            SuffixType::Beta => vec![98, 101, 116, 97],
            SuffixType::Dev => vec![100, 101, 118],
            SuffixType::ReleaseCandidate => vec![114, 99],
            SuffixType::PatchLevel => vec![112, 108],
        };
        proof { assert(out@ =~= spec_url_kind(self.ty)); }
        out.push(95);
        let mut digits = dec_format(self.number);
        out.append(&mut digits);
        proof {
            assert(out@ =~= spec_suffix_url(self));
        }
        out
    }

    /// Renders the suffix in display form: `KIND NUMBER` with the display
    /// spelling of the kind.
    pub fn format_display(self) -> (r: Vec<u8>)
        ensures
            r@ == spec_suffix_display(self),
    {
        let mut out: Vec<u8> = match self.ty {
            SuffixType::Alpha => vec![65, 108, 112, 104, 97],
            SuffixType::Beta => vec![66, 101, 116, 97],
            SuffixType::Dev => vec![68, 101, 118],
            SuffixType::ReleaseCandidate => vec![82, 67],
            SuffixType::PatchLevel => vec![112, 108],
        };
        proof { assert(out@ =~= spec_display_kind(self.ty)); }
        out.push(32);
        let mut digits = dec_format(self.number);
        out.append(&mut digits);
        proof {
            assert(out@ =~= spec_suffix_display(self));
        }
        out
    }
}

impl Version {
    /// Parses a version: three dot-separated numbers and an optional
    /// suffix, leaving unconsumed input in the result.
    pub fn parser(input: &[u8]) -> (r: Option<(Version, &[u8])>)
        ensures
            match r {
                Some((v, rest)) => spec_parse_version(input@) == Some((v, rest@)),
                None => spec_parse_version(input@) is None,
            },
    {
        let s1 = ws(input);
        let (major, s2) = match numeric(s1) {
            None => { return None; },
            Some(p) => p,
        };
        if s2.len() == 0 || s2[0] != 46 {
            return None;
        }
        let (minor, s3) = match numeric(slice_subrange(s2, 1, s2.len())) {
            None => { return None; },
            Some(p) => p,
        };
        if s3.len() == 0 || s3[0] != 46 {
            return None;
        }
        let (patch, s4) = match numeric(slice_subrange(s3, 1, s3.len())) {
            None => { return None; },
            Some(p) => p,
        };
        proof {
            assert(s2@.subrange(1, s2@.len() as int) =~= s2@.skip(1));
            assert(s3@.subrange(1, s3@.len() as int) =~= s3@.skip(1));
        }
        let s5 = ws(s4);
        match Suffix::parser(s5) {
            Some((suffix, s6)) => Some((Version::new(major, minor, patch, Some(suffix)), s6)),
            None => Some((Version::new(major, minor, patch, None), s5)),
        }
    }

    /// Parses a version and accepts only when the whole input is
    /// consumed.
    pub fn try_from(input: &[u8]) -> (r: Option<Version>)
        ensures
            match r {
                Some(v) => spec_parse_version(input@) == Some((v, Seq::<u8>::empty())),
                None => forall|v: Version|
                    spec_parse_version(input@) != Some((v, Seq::<u8>::empty())),
            },
    {
        match Version::parser(input) {
            Some((v, rest)) => {
                if rest.len() == 0 {
                    proof { assert(rest@ =~= Seq::<u8>::empty()); }
                    Some(v)
                } else {
                    None
                }
            },
            None => None,
        }
    }

    /// Renders the version in URL form: `MAJOR.MINOR.PATCH[_KIND_NUMBER]`.
    pub fn format_url(&self) -> (r: Vec<u8>)
        ensures
            r@ == spec_version_url(*self),
    {
        let mut out = dec_format(self.major);
        out.push(46);
        let mut minor = dec_format(self.minor);
        out.append(&mut minor);
        out.push(46);
        let mut patch = dec_format(self.patch);
        out.append(&mut patch);
        match self.suffix {
            Some(s) => {
                out.push(95);
                let mut suf = s.format_url();
                out.append(&mut suf);
            },
            None => {},
        }
        proof {
            assert(out@ =~= spec_version_url(*self));
        }
        out
    }

    /// Renders the version in display form: `MAJOR.MINOR.PATCH[ KIND
    /// NUMBER]`.
    pub fn format_display(&self) -> (r: Vec<u8>)
        ensures
            r@ == spec_version_display(*self),
    {
        let mut out = dec_format(self.major);
        out.push(46);
        let mut minor = dec_format(self.minor);
        out.append(&mut minor);
        out.push(46);
        let mut patch = dec_format(self.patch);
        out.append(&mut patch);
        match self.suffix {
            Some(s) => {
                out.push(32);
                let mut suf = s.format_display();
                out.append(&mut suf);
            },
            None => {},
        }
        proof {
            assert(out@ =~= spec_version_display(*self));
        }
        out
    }
}

/// A single-byte tag does not match an input whose first byte folds to a
/// different letter.
proof fn lemma_not_nc_single(s: Seq<u8>, c: u8)
    requires
        s.len() >= 1,
        lower(s[0]) != c,
    ensures
        !nc_tag(s, seq![c]),
{
    if nc_tag(s, seq![c]) {
        assert(lower(s[0]) == seq![c][0]);
    }
}

/// No suffix kind starts at an input whose first byte folds to none of
/// the tags' first letters (or at an empty input).
pub proof fn lemma_suffix_type_none(s: Seq<u8>)
    requires
        s.len() == 0 || (lower(s[0]) != 97 && lower(s[0]) != 98 && lower(s[0]) != 100 && lower(
            s[0],
        ) != 114 && lower(s[0]) != 112),
    ensures
        spec_parse_suffix_type(s) is None,
{
    if s.len() == 0 {
        assert(!nc_tag(s, seq![97u8]));
    } else {
        if nc_tag(s, tag_alpha()) {
            assert(lower(s[0]) == tag_alpha()[0]);
        }
        lemma_not_nc_single(s, 97);
        if nc_tag(s, tag_beta()) {
            assert(lower(s[0]) == tag_beta()[0]);
        }
        lemma_not_nc_single(s, 98);
        if nc_tag(s, tag_dev()) {
            assert(lower(s[0]) == tag_dev()[0]);
        }
        lemma_not_nc_single(s, 100);
        if nc_tag(s, tag_rc()) {
            assert(lower(s[0]) == tag_rc()[0]);
        }
        if nc_tag(s, tag_pl()) {
            assert(lower(s[0]) == tag_pl()[0]);
        }
    }
}

/// Skipping whitespace is idempotent: the result carries no leading
/// whitespace.
pub proof fn lemma_skip_ws_idempotent(s: Seq<u8>)
    ensures
        spec_skip_ws(spec_skip_ws(s)) == spec_skip_ws(s),
    decreases s.len(),
{
    if s.len() > 0 && is_space(s[0]) {
        lemma_skip_ws_idempotent(s.skip(1));
    } else {
        lemma_skip_ws_no_space(s);
    }
}

/// A version written as three single digits with no suffix parses to
/// exactly those components, consuming the whitespace that follows; the
/// rest must not begin with a digit nor, after its whitespace, with a
/// suffix kind.
pub proof fn lemma_parse_plain_version(d1: u8, d2: u8, d3: u8, rest: Seq<u8>)
    requires
        d1 <= 9,
        d2 <= 9,
        d3 <= 9,
        rest.len() == 0 || !is_digit(rest[0]),
        spec_parse_suffix_type(spec_skip_ws(rest)) is None,
    ensures
        spec_parse_version(
            seq![(48 + d1) as u8, 46u8, (48 + d2) as u8, 46u8, (48 + d3) as u8] + rest,
        ) == Some(
            (
                Version {
                    major: d1 as u32,
                    minor: d2 as u32,
                    patch: d3 as u32,
                    suffix: None,
                },
                spec_skip_ws(rest),
            ),
        ),
{
    let a = seq![(48 + d1) as u8];
    let b = seq![(48 + d2) as u8];
    let c = seq![(48 + d3) as u8];
    let s = seq![(48 + d1) as u8, 46u8, (48 + d2) as u8, 46u8, (48 + d3) as u8] + rest;
    assert(a =~= dec_digits(d1 as int));
    assert(b =~= dec_digits(d2 as int));
    assert(c =~= dec_digits(d3 as int));
    assert(s[0] == (48 + d1) as u8);
    lemma_skip_ws_no_space(s);
    let r1 = seq![46u8, (48 + d2) as u8, 46u8, (48 + d3) as u8] + rest;
    assert(s =~= a + r1);
    lemma_numeric_of_dec_digits(d1 as u32, r1);
    assert(spec_numeric(s) == Some((d1 as u32, r1)));
    assert(r1[0] == 46);
    let r2 = seq![46u8, (48 + d3) as u8] + rest;
    assert(r1.skip(1) =~= b + r2);
    lemma_numeric_of_dec_digits(d2 as u32, r2);
    assert(r2[0] == 46);
    assert(r2.skip(1) =~= c + rest);
    lemma_numeric_of_dec_digits(d3 as u32, rest);
    assert(spec_numeric(c + rest) == Some((d3 as u32, rest)));
    let s5 = spec_skip_ws(rest);
    lemma_skip_ws_idempotent(rest);
    assert(spec_parse_suffix(s5) is None);
}

/// A suffix rendered as `KIND NUMBER` parses back to itself, whether the
/// kind is spelled in display form or in URL form.
proof fn lemma_suffix_part_parses(s: Suffix, k: Seq<u8>)
    requires
        k == spec_display_kind(s.ty) || k == spec_url_kind(s.ty),
    ensures
        spec_parse_suffix(k + seq![32u8] + dec_digits(s.number as int)) == Some(
            (s, Seq::<u8>::empty()),
        ),
{
    let d = dec_digits(s.number as int);
    let u = k + seq![32u8] + d;
    lemma_dec_digits_are_digits(s.number as int);
    lemma_skip_ws_no_space(u);
    let tail = seq![32u8] + d;
    assert(u.skip(k.len() as int) =~= tail);
    match s.ty {
        SuffixType::Alpha => {
            assert(nc_tag(u, tag_alpha())) by {
                assert forall|i: int| 0 <= i < 5 implies lower(u[i]) == tag_alpha()[i] by {
                    assert(u[i] == k[i]);
                }
            }
            assert(spec_parse_suffix_type(u) == Some((SuffixType::Alpha, u.skip(5))));
        },
        SuffixType::Beta => {
            assert(!nc_tag(u, tag_alpha())) by {
                assert(lower(u[0]) == 98);
            }
            lemma_not_nc_single(u, 97);
            assert(nc_tag(u, tag_beta())) by {
                assert forall|i: int| 0 <= i < 4 implies lower(u[i]) == tag_beta()[i] by {
                    assert(u[i] == k[i]);
                }
            }
            assert(spec_parse_suffix_type(u) == Some((SuffixType::Beta, u.skip(4))));
        },
        SuffixType::Dev => {
            assert(lower(u[0]) == 100);
            assert(!nc_tag(u, tag_alpha()));
            lemma_not_nc_single(u, 97);
            assert(!nc_tag(u, tag_beta()));
            lemma_not_nc_single(u, 98);
            assert(nc_tag(u, tag_dev())) by {
                assert forall|i: int| 0 <= i < 3 implies lower(u[i]) == tag_dev()[i] by {
                    assert(u[i] == k[i]);
                }
            }
            assert(spec_parse_suffix_type(u) == Some((SuffixType::Dev, u.skip(3))));
        },
        SuffixType::ReleaseCandidate => {
            assert(lower(u[0]) == 114);
            assert(!nc_tag(u, tag_alpha()));
            lemma_not_nc_single(u, 97);
            assert(!nc_tag(u, tag_beta()));
            lemma_not_nc_single(u, 98);
            assert(!nc_tag(u, tag_dev()));
            lemma_not_nc_single(u, 100);
            assert(nc_tag(u, tag_rc())) by {
                assert forall|i: int| 0 <= i < 2 implies lower(u[i]) == tag_rc()[i] by {
                    assert(u[i] == k[i]);
                }
            }
            assert(spec_parse_suffix_type(u) == Some((SuffixType::ReleaseCandidate, u.skip(2))));
        },
        SuffixType::PatchLevel => {
            assert(lower(u[0]) == 112);
            assert(!nc_tag(u, tag_alpha()));
            lemma_not_nc_single(u, 97);
            assert(!nc_tag(u, tag_beta()));
            lemma_not_nc_single(u, 98);
            assert(!nc_tag(u, tag_dev()));
            lemma_not_nc_single(u, 100);
            assert(!nc_tag(u, tag_rc())) by {
                assert(lower(u[1]) == 108);
            }
            assert(nc_tag(u, tag_pl())) by {
                assert forall|i: int| 0 <= i < 2 implies lower(u[i]) == tag_pl()[i] by {
                    assert(u[i] == k[i]);
                }
            }
            assert(spec_parse_suffix_type(u) == Some((SuffixType::PatchLevel, u.skip(2))));
        },
    }
    assert(spec_skip_ws(tail) == d) by {
        assert(tail.skip(1) =~= d);
        lemma_skip_ws_no_space(d);
    }
    assert(spec_numeric(d) == Some((s.number, Seq::<u8>::empty()))) by {
        assert(d + Seq::<u8>::empty() =~= d);
        lemma_numeric_of_dec_digits(s.number, Seq::<u8>::empty());
    }
    lemma_skip_ws_no_space(Seq::<u8>::empty());
    assert(spec_parse_suffix(u) == Some((Suffix { ty: s.ty, number: s.number }, Seq::<u8>::empty())));
    assert(Suffix { ty: s.ty, number: s.number } == s);
}

/// The version body `MAJOR.MINOR.PATCH` followed by a well-formed suffix
/// part (or by nothing) parses back to the version it renders.
#[verifier::rlimit(100)]
proof fn lemma_version_body_parses(v: Version, t: Seq<u8>)
    requires
        match v.suffix {
            None => t == Seq::<u8>::empty(),
            Some(s) => (t == seq![32u8] + spec_display_kind(s.ty) + seq![32u8] + dec_digits(
                s.number as int,
            ) || t == seq![32u8] + spec_url_kind(s.ty) + seq![32u8] + dec_digits(
                s.number as int,
            )),
        },
    ensures
        spec_parse_version(
            dec_digits(v.major as int) + seq![46u8] + dec_digits(v.minor as int) + seq![46u8]
                + dec_digits(v.patch as int) + t,
        ) == Some((v, Seq::<u8>::empty())),
{
    let a = dec_digits(v.major as int);
    let b = dec_digits(v.minor as int);
    let c = dec_digits(v.patch as int);
    let s = a + seq![46u8] + b + seq![46u8] + c + t;
    lemma_dec_digits_are_digits(v.major as int);
    lemma_dec_digits_are_digits(v.minor as int);
    lemma_dec_digits_are_digits(v.patch as int);
    assert(s[0] == a[0]);
    lemma_skip_ws_no_space(s);
    let r1 = seq![46u8] + b + seq![46u8] + c + t;
    assert(s =~= a + r1);
    lemma_numeric_of_dec_digits(v.major, r1);
    assert(spec_numeric(s) == Some((v.major, r1)));
    let r2 = seq![46u8] + c + t;
    assert(r1[0] == 46);
    assert(r1.skip(1) =~= b + r2);
    lemma_numeric_of_dec_digits(v.minor, r2);
    assert(r2[0] == 46);
    match v.suffix {
        None => {
            assert(r2.skip(1) =~= c + t);
            assert(c + t =~= c);
            assert(spec_numeric(c) == Some((v.patch, Seq::<u8>::empty()))) by {
                assert(c + Seq::<u8>::empty() =~= c);
                lemma_numeric_of_dec_digits(v.patch, Seq::<u8>::empty());
            }
            lemma_skip_ws_no_space(Seq::<u8>::empty());
            assert(spec_parse_suffix(Seq::<u8>::empty()) is None);
            assert(Version { major: v.major, minor: v.minor, patch: v.patch, suffix: None } == v);
        },
        Some(suf) => {
            let k = t.subrange(1, t.len() - 1 - dec_digits(suf.number as int).len() as int);
            let kk = if t == seq![32u8] + spec_display_kind(suf.ty) + seq![32u8] + dec_digits(
                suf.number as int,
            ) {
                spec_display_kind(suf.ty)
            } else {
                spec_url_kind(suf.ty)
            };
            let rest_after_patch = t;
            assert(r2.skip(1) =~= c + t);
            lemma_numeric_of_dec_digits(v.patch, t);
            assert(spec_numeric(c + t) == Some((v.patch, t)));
            let u = kk + seq![32u8] + dec_digits(suf.number as int);
            assert(t =~= seq![32u8] + u);
            assert(is_space(t[0]));
            assert(t.skip(1) =~= u);
            assert(u[0] == kk[0]);
            lemma_skip_ws_no_space(u);
            assert(spec_skip_ws(t) == u);
            lemma_suffix_part_parses(suf, kk);
            assert(spec_parse_suffix(u) == Some((suf, Seq::<u8>::empty())));
            assert(Version {
                major: v.major,
                minor: v.minor,
                patch: v.patch,
                suffix: Some(suf),
            } == v);
        },
    }
}

/// The display form of every version parses back to that version with
/// nothing left over.
pub proof fn lemma_display_round_trip(v: Version)
    ensures
        spec_parse_version(spec_version_display(v)) == Some((v, Seq::<u8>::empty())),
{
    match v.suffix {
        None => {
            assert(spec_version_display(v) =~= dec_digits(v.major as int) + seq![46u8]
                + dec_digits(v.minor as int) + seq![46u8] + dec_digits(v.patch as int)
                + Seq::<u8>::empty());
            lemma_version_body_parses(v, Seq::<u8>::empty());
        },
        Some(s) => {
            let t = seq![32u8] + spec_display_kind(s.ty) + seq![32u8] + dec_digits(
                s.number as int,
            );
            assert(spec_version_display(v) =~= dec_digits(v.major as int) + seq![46u8]
                + dec_digits(v.minor as int) + seq![46u8] + dec_digits(v.patch as int) + t);
            lemma_version_body_parses(v, t);
        },
    }
}

/// Mapping a byte function over a concatenation maps each part.
proof fn lemma_map_values_concat(a: Seq<u8>, b: Seq<u8>, f: spec_fn(u8) -> u8)
    ensures
        (a + b).map_values(f) =~= a.map_values(f) + b.map_values(f),
{
}

/// A sequence without underscores is unchanged by the underscore
/// replacement.
proof fn lemma_underscore_free_fixed(s: Seq<u8>)
    requires
        forall|i: int| 0 <= i < s.len() ==> s[i] != 95,
    ensures
        spec_underscores_to_spaces(s) =~= s,
{
}

/// The URL form of every version, with its underscores turned into
/// spaces, parses back to that version with nothing left over.
#[verifier::rlimit(100)]
pub proof fn lemma_url_round_trip(v: Version)
    ensures
        spec_parse_version(spec_underscores_to_spaces(spec_version_url(v))) == Some(
            (v, Seq::<u8>::empty()),
        ),
{
    let f = |x: u8| if x == 95 { 32u8 } else { x };
    let a = dec_digits(v.major as int);
    let b = dec_digits(v.minor as int);
    let c = dec_digits(v.patch as int);
    lemma_dec_digits_are_digits(v.major as int);
    lemma_dec_digits_are_digits(v.minor as int);
    lemma_dec_digits_are_digits(v.patch as int);
    match v.suffix {
        None => {
            let s = a + seq![46u8] + b + seq![46u8] + c;
            assert(spec_version_url(v) =~= s);
            assert(spec_underscores_to_spaces(s) =~= s) by {
                lemma_underscore_free_fixed(s);
            }
            assert(s =~= a + seq![46u8] + b + seq![46u8] + c + Seq::<u8>::empty());
            lemma_version_body_parses(v, Seq::<u8>::empty());
        },
        Some(suf) => {
            let k = spec_url_kind(suf.ty);
            let d = dec_digits(suf.number as int);
            lemma_dec_digits_are_digits(suf.number as int);
            let head = a + seq![46u8] + b + seq![46u8] + c;
            let s = head + seq![95u8] + k + seq![95u8] + d;
            assert(spec_version_url(v) =~= s);
            let t = seq![32u8] + k + seq![32u8] + d;
            assert(spec_underscores_to_spaces(s) =~= head + t) by {
                assert forall|i: int| 0 <= i < s.len() implies spec_underscores_to_spaces(s)[i]
                    == (head + t)[i] by {
                    assert(spec_underscores_to_spaces(s)[i] == f(s[i]));
                }
            }
            assert(head + t =~= a + seq![46u8] + b + seq![46u8] + c + t);
            lemma_version_body_parses(v, t);
        },
    }
}

/// Replaces underscores by spaces, as done to version strings taken from
/// file names before parsing.
pub fn underscores_to_spaces(input: &[u8]) -> (r: Vec<u8>)
    ensures
        r@ == spec_underscores_to_spaces(input@),
{
    let mut out: Vec<u8> = Vec::new();
    let mut i: usize = 0;
    while i < input.len()
        invariant
            0 <= i <= input@.len(),
            out@ == spec_underscores_to_spaces(input@.take(i as int)),
        decreases input@.len() - i,
    {
        let b = input[i];
        out.push(if b == 95 { 32 } else { b });
        proof {
            assert(input@.take(i as int + 1) =~= input@.take(i as int).push(input@[i as int]));
            assert(out@ =~= spec_underscores_to_spaces(input@.take(i as int + 1)));
        }
        i = i + 1;
    }
    proof {
        assert(input@.take(input@.len() as int) =~= input@);
    }
    out
}

} // verus!
