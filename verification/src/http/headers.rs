//! Cache validators and content negotiation: entity tags, conditional
//! requests, and the update-XML endpoint's accept check and cache key.

use vstd::prelude::*;
use crate::text::dec_digits;

verus! {

/// An entity tag: its weakness flag and its opaque tag.
#[derive(Debug)]
pub struct EntityTag {
    pub weak: bool,
    pub tag: Vec<u8>,
}

/// An `If-None-Match` header: any resource, or a list of tags.
#[derive(Debug)]
pub enum IfNoneMatch {
    Any,
    Items(Vec<EntityTag>),
}

/// Weak comparison of entity tags: only the opaque tags must agree.
pub open spec fn spec_weak_eq(a: EntityTag, b: EntityTag) -> bool {
    a.tag@ == b.tag@
}

/// Whether the request's `If-None-Match` header fails to match the
/// response's entity tag: `*` always matches; a list matches when some
/// item weakly equals the tag; a missing header never matches.
pub open spec fn spec_none_match(
    etag: Option<&EntityTag>,
    if_none_match: Option<&IfNoneMatch>,
) -> bool {
    match if_none_match {
        Some(h) => match h {
            IfNoneMatch::Any => false,
            IfNoneMatch::Items(items) => match etag {
                Some(t) => !(exists|i: int|
                    0 <= i < items@.len() && spec_weak_eq(#[trigger] items@[i], *t)),
                None => true,
            },
        },
        None => true,
    }
}

/// Decides whether the request's `If-None-Match` header fails to match
/// the entity tag.
#[verifier::loop_isolation(false)]
pub fn none_match(etag: Option<&EntityTag>, if_none_match: Option<&IfNoneMatch>) -> (r: bool)
    ensures
        r == spec_none_match(etag, if_none_match),
{
    match if_none_match {
        None => true,
        Some(h) => match h {
            IfNoneMatch::Any => false,
            IfNoneMatch::Items(items) => match etag {
                None => true,
                Some(t) => {
                    let mut i: usize = 0;
                    while i < items.len()
                        invariant
                            0 <= i <= items@.len(),
                            forall|j: int| 0 <= j < i ==> !spec_weak_eq(#[trigger] items@[j], *t),
                        decreases items@.len() - i,
                    {
                        if crate::auth::types::compare_bytes(
                            items[i].tag.as_slice(),
                            t.tag.as_slice(),
                        ) {
                            proof {
                                assert(spec_weak_eq(items@[i as int], *t));
                            }
                            return false;
                        }
                        i = i + 1;
                    }
                    true
                },
            },
        },
    }
}

/// Whether the resource counts as not modified: a matching
/// `If-None-Match` decides alone; with that header present but not
/// matching, the resource counts as modified; otherwise
/// `If-Modified-Since` accepts when the modification time is no later.
pub open spec fn spec_not_modified(
    etag: Option<&EntityTag>,
    if_none_match: Option<&IfNoneMatch>,
    last_modified: Option<u64>,
    if_modified_since: Option<u64>,
) -> bool {
    if !spec_none_match(etag, if_none_match) {
        true
    } else if if_none_match is Some {
        false
    } else {
        match (last_modified, if_modified_since) {
            (Some(m), Some(since)) => m <= since,
            _ => false,
        }
    }
}

/// Decides whether the resource counts as not modified. Times are
/// seconds since the epoch.
pub fn not_modified(
    etag: Option<&EntityTag>,
    if_none_match: Option<&IfNoneMatch>,
    last_modified: Option<u64>,
    if_modified_since: Option<u64>,
) -> (r: bool)
    ensures
        r == spec_not_modified(etag, if_none_match, last_modified, if_modified_since),
{
    if !none_match(etag, if_none_match) {
        return true;
    }
    if if_none_match.is_some() {
        return false;
    }
    match (last_modified, if_modified_since) {
        (Some(m), Some(since)) => m <= since,
        _ => false,
    }
}

/// What the URL-safe unpadded base64 encoding of a byte string is. The
/// result depends on the bytes alone.
pub uninterp spec fn base64url_of(s: Seq<u8>) -> Seq<u8>;

/// Relies on base64's URL_SAFE_NO_PAD engine: the URL-safe, unpadded
/// encoding of the input; deterministic in the bytes.
#[verifier::external_body]
pub fn base64url(s: &[u8]) -> (r: Vec<u8>)
    ensures
        r@ == base64url_of(s@),
{
    base64::Engine::encode(&base64::engine::general_purpose::URL_SAFE_NO_PAD, s).into_bytes()
}

/// The cache-key text of the update XML before encoding:
/// `<unixSeconds>,<lang>` followed by `,<user>` and `,<xmlLang>` parts;
/// with only an XML language, the user position stays empty.
pub open spec fn spec_etag_content(
    timestamp: u64,
    user_lang: Seq<u8>,
    username: Option<Seq<u8>>,
    xml_lang: Option<Seq<u8>>,
) -> Seq<u8> {
    let head = dec_digits(timestamp as int) + seq![44u8] + user_lang;
    match (username, xml_lang) {
        (Some(u), Some(x)) => head + seq![44u8] + u + seq![44u8] + x,
        (Some(u), None) => head + seq![44u8] + u + seq![44u8],
        (None, Some(x)) => head + seq![44u8] + seq![44u8] + x,
        (None, None) => head,
    }
}

/// Builds the cache-key text of the update XML.
pub fn etag_content(
    timestamp: u64,
    user_lang: &[u8],
    username: Option<&[u8]>,
    xml_lang: Option<&[u8]>,
) -> (r: Vec<u8>)
    ensures
        r@ == spec_etag_content(
            timestamp,
            user_lang@,
            match username {
                Some(u) => Some(u@),
                None => None,
            },
            match xml_lang {
                Some(x) => Some(x@),
                None => None,
            },
        ),
{
    let mut out = crate::package::counter::format_counter(timestamp);
    out.push(44);
    let mut lang = vstd::slice::slice_to_vec(user_lang);
    out.append(&mut lang);
    match (username, xml_lang) {
        (Some(u), Some(x)) => {
            out.push(44);
            let mut uv = vstd::slice::slice_to_vec(u);
            out.append(&mut uv);
            out.push(44);
            let mut xv = vstd::slice::slice_to_vec(x);
            out.append(&mut xv);
        },
        (Some(u), None) => {
            out.push(44);
            let mut uv = vstd::slice::slice_to_vec(u);
            out.append(&mut uv);
            out.push(44);
        },
        (None, Some(x)) => {
            out.push(44);
            out.push(44);
            let mut xv = vstd::slice::slice_to_vec(x);
            out.append(&mut xv);
        },
        (None, None) => {},
    }
    proof {
        assert(out@ =~= spec_etag_content(
            timestamp,
            user_lang@,
            match username {
                Some(u) => Some(u@),
                None => None,
            },
            match xml_lang {
                Some(x) => Some(x@),
                None => None,
            },
        ));
    }
    out
}

/// The scheme and authority this server is reached under, as configured
/// or taken from the connection; the base of every self-URL.
#[derive(Debug)]
pub struct Host(pub Vec<u8>);

impl Host {
    /// The scheme and authority as bytes.
    pub fn as_bytes(&self) -> (r: &[u8])
        ensures
            r@ == self.0@,
    {
        self.0.as_slice()
    }
}

/// The update-XML endpoint's request parameters, from the query or the
/// form.
#[derive(Debug)]
pub struct PackageUpdateXmlRequest {
    pub package_name: Option<Vec<u8>>,
    pub package_version: Option<Vec<u8>>,
}

impl PackageUpdateXmlRequest {
    /// Merges form parameters over query parameters: each form field,
    /// when present, wins.
    pub fn merge(form: PackageUpdateXmlRequest, query: PackageUpdateXmlRequest) -> (r:
        PackageUpdateXmlRequest)
        ensures
            r.package_name == (if form.package_name is Some {
                form.package_name
            } else {
                query.package_name
            }),
            r.package_version == (if form.package_version is Some {
                form.package_version
            } else {
                query.package_version
            }),
    {
        PackageUpdateXmlRequest {
            package_name: match form.package_name {
                Some(v) => Some(v),
                None => query.package_name,
            },
            package_version: match form.package_version {
                Some(v) => Some(v),
                None => query.package_version,
            },
        }
    }
}

/// A media range from an `Accept` header: its type and subtype, with
/// `*` for a wildcard.
#[derive(Debug)]
pub struct MediaRange {
    pub kind: Vec<u8>,
    pub subtype: Vec<u8>,
}

/// Whether the update XML can answer the request: an unreadable or
/// empty `Accept` header accepts; otherwise some range must be
/// `text/xml` or have a wildcard type.
pub open spec fn spec_xml_acceptable(ranked: Option<&Vec<MediaRange>>) -> bool {
    match ranked {
        None => true,
        Some(ranges) => if ranges@.len() == 0 {
            true
        } else {
            exists|i: int|
                0 <= i < ranges@.len() && (((#[trigger] ranges@[i]).kind@ == seq![
                    116u8, 101u8, 120u8, 116u8,
                ] && ranges@[i].subtype@ == seq![120u8, 109u8, 108u8]) || ranges@[i].kind@ == seq![
                    42u8,
                ])
        },
    }
}

/// Decides whether the update XML can answer the request's `Accept`
/// header, handed over as ranked media ranges (or nothing when the
/// header cannot be parsed).
#[verifier::loop_isolation(false)]
pub fn xml_acceptable(ranked: Option<&Vec<MediaRange>>) -> (r: bool)
    ensures
        r == spec_xml_acceptable(ranked),
{
    let ranges = match ranked {
        None => { return true; },
        Some(rs) => rs,
    };
    if ranges.len() == 0 {
        return true;
    }
    let text: [u8; 4] = [116, 101, 120, 116];
    let xml: [u8; 3] = [120, 109, 108];
    let star: [u8; 1] = [42];
    proof {
        assert(text@ =~= seq![116u8, 101u8, 120u8, 116u8]);
        assert(xml@ =~= seq![120u8, 109u8, 108u8]);
        assert(star@ =~= seq![42u8]);
    }
    let mut i: usize = 0;
    while i < ranges.len()
        invariant
            0 <= i <= ranges@.len(),
            text@ == seq![116u8, 101u8, 120u8, 116u8],
            xml@ == seq![120u8, 109u8, 108u8],
            star@ == seq![42u8],
            forall|j: int|
                0 <= j < i ==> !(((#[trigger] ranges@[j]).kind@ == seq![
                    116u8, 101u8, 120u8, 116u8,
                ] && ranges@[j].subtype@ == seq![120u8, 109u8, 108u8]) || ranges@[j].kind@
                    == seq![42u8]),
        decreases ranges@.len() - i,
    {
        let r = &ranges[i];
        if (crate::auth::types::compare_bytes(r.kind.as_slice(), &text)
            && crate::auth::types::compare_bytes(r.subtype.as_slice(), &xml))
            || crate::auth::types::compare_bytes(r.kind.as_slice(), &star) {
            proof {
                assert(((ranges@[i as int].kind@ == seq![116u8, 101u8, 120u8, 116u8]
                    && ranges@[i as int].subtype@ == seq![120u8, 109u8, 108u8])
                    || ranges@[i as int].kind@ == seq![42u8]));
            }
            return true;
        }
        i = i + 1;
    }
    false
}

} // verus!
