//! Stored password hashes: classification of the configured string and
//! verification of candidate passwords.
//!
//! A stored string is classified by inspection: `-` bans the user; a
//! `$2a$`-style prefix selects the legacy double-bcrypt scheme;
//! `bcrypt:<hash>` (case-insensitive name) selects plain bcrypt; anything
//! else never verifies.

use vstd::prelude::*;
use crate::text::{find_byte, find_byte_at, lemma_find_byte_bounds};
use crate::version::syntax::{lower, nc_tag};

verus! {

/// The shape of a legacy double-bcrypt hash: `$2a$`, `$2b$`, `$2x$` or
/// `$2y$` at the start.
pub open spec fn spec_is_legacy(s: Seq<u8>) -> bool {
    s.len() >= 4 && s[0] == 36 && s[1] == 50 && (s[2] == 97 || s[2] == 98 || s[2] == 120 || s[2]
        == 121) && s[3] == 36
}

/// The lower-case name before the first colon, when it is exactly
/// `bcrypt`.
pub open spec fn spec_has_bcrypt_name(s: Seq<u8>) -> bool {
    find_byte(s, 58) == 6 && 6 < s.len() && nc_tag(s, seq![98u8, 99u8, 114u8, 121u8, 112u8, 116u8])
}

/// The bcrypt version tag of a stored hash: the second `$`-separated
/// segment when it is exactly `2a`, `2b`, `2x` or `2y`.
pub open spec fn spec_version_tag(s: Seq<u8>) -> Option<u8> {
    let i0 = find_byte(s, 36);
    if i0 == s.len() {
        None
    } else {
        let rest = s.skip(i0 + 1);
        let seg = rest.take(find_byte(rest, 36));
        if seg.len() == 2 && seg[0] == 50 && (seg[1] == 97 || seg[1] == 98 || seg[1] == 120
            || seg[1] == 121) {
            Some(seg[1])
        } else {
            None
        }
    }
}

/// What `bcrypt::verify` decides for a password and a stored hash;
/// an undecodable hash gives no verdict. The result depends on the two
/// arguments alone.
pub uninterp spec fn bcrypt_verify_of(password: Seq<u8>, hash: Seq<u8>) -> Option<bool>;

/// What re-hashing a password with the cost and salt taken from a stored
/// hash yields, rendered for the bcrypt version the tag names; nothing
/// when the stored hash does not carry a well-formed cost and salt. The
/// result depends on the arguments alone.
pub uninterp spec fn bcrypt_salted_of(password: Seq<u8>, hash: Seq<u8>, tag: u8) -> Option<
    Seq<u8>,
>;

/// Relies on bcrypt::verify: it extracts cost and salt from the hash,
/// re-hashes the password and compares; deterministic in its arguments.
/// An error (malformed hash, non-UTF-8 bytes) yields no verdict.
#[verifier::external_body]
fn bcrypt_verify(password: &[u8], hash: &[u8]) -> (r: Option<bool>)
    ensures
        r == bcrypt_verify_of(password@, hash@),
{
    bcrypt::verify(password, core::str::from_utf8(hash).ok()?).ok()
}

/// Relies on bcrypt: the stored hash is parsed into its parts
/// (str::parse::<bcrypt::HashParts>), the password re-hashed with that
/// cost and salt (bcrypt::hash_with_salt), and the result rendered for
/// the version the tag names (HashParts::format_for_version); all
/// deterministic in the arguments.
#[verifier::external_body]
fn bcrypt_salted(password: &[u8], hash: &[u8], tag: u8) -> (r: Option<Vec<u8>>)
    requires
        tag == 97 || tag == 98 || tag == 120 || tag == 121,
    ensures
        match r {
            Some(s) => bcrypt_salted_of(password@, hash@, tag) == Some(s@),
            None => bcrypt_salted_of(password@, hash@, tag) is None,
        },
{
    let version = match tag {
        97 => bcrypt::Version::TwoA,
        120 => bcrypt::Version::TwoX,
        121 => bcrypt::Version::TwoY,
        _ => bcrypt::Version::TwoB,
    };
    let parts: bcrypt::HashParts = core::str::from_utf8(hash).ok()?.parse().ok()?;
    let rehashed = bcrypt::hash_with_salt(password, parts.get_cost(), parts.get_salt_raw()).ok()?;
    Some(rehashed.format_for_version(version).into_bytes())
}

/// A verification strategy for one kind of stored password hash.
pub trait PasswordHash {
    /// Whether the strategy accepts the candidate password.
    spec fn spec_verify(&self, password: Seq<u8>) -> bool;

    /// Verifies a candidate password.
    fn verify(&self, password: &[u8]) -> (r: bool)
        ensures
            r == self.spec_verify(password@),
    ;
}

/// The stored string `-`: verification always refuses.
#[derive(Debug)]
pub struct BannedUser;

/// A plain bcrypt hash, stored after a `bcrypt:` prefix.
#[derive(Debug)]
pub struct Bcrypt(pub Vec<u8>);

/// A legacy double-bcrypt hash: the candidate is re-hashed with the
/// stored cost and salt, and that rendering is fed as the plaintext into
/// a standard bcrypt verification against the stored hash.
#[derive(Debug)]
pub struct DoubleBcrypt(pub Vec<u8>);

/// A stored string of no recognized shape: verification always refuses.
#[derive(Debug)]
pub struct UnknownHash(pub Vec<u8>);

/// What plain bcrypt verification decides: a positive verdict of
/// `bcrypt::verify`, and nothing else, accepts.
pub open spec fn spec_bcrypt_accepts(hash: Seq<u8>, password: Seq<u8>) -> bool {
    bcrypt_verify_of(password, hash) == Some(true)
}

/// What double-bcrypt verification decides: the version tag must be
/// readable, the re-hash must succeed, and its rendering must verify as
/// the plaintext against the stored hash.
pub open spec fn spec_double_bcrypt_accepts(hash: Seq<u8>, password: Seq<u8>) -> bool {
    match spec_version_tag(hash) {
        None => false,
        Some(tag) => match bcrypt_salted_of(password, hash, tag) {
            None => false,
            Some(salted) => bcrypt_verify_of(salted, hash) == Some(true),
        },
    }
}

/// Verifies a password against a plain bcrypt hash.
fn verify_bcrypt(hash: &[u8], password: &[u8]) -> (r: bool)
    ensures
        r == spec_bcrypt_accepts(hash@, password@),
{
    match bcrypt_verify(password, hash) {
        Some(b) => b,
        None => false,
    }
}

/// Reads the bcrypt version tag of a stored hash: the second
/// `$`-separated segment, which must be `2a`, `2b`, `2x` or `2y`.
fn version_tag(hash: &[u8]) -> (r: Option<u8>)
    ensures
        r == spec_version_tag(hash@),
{
    proof {
        lemma_find_byte_bounds(hash@, 36);
    }
    let i0 = find_byte_at(hash, 36);
    if i0 == hash.len() {
        return None;
    }
    let rest = vstd::slice::slice_subrange(hash, i0 + 1, hash.len());
    proof {
        assert(rest@ =~= hash@.skip(i0 as int + 1));
        lemma_find_byte_bounds(rest@, 36);
    }
    let i1 = find_byte_at(rest, 36);
    if i1 == 2 && rest[0] == 50 && (rest[1] == 97 || rest[1] == 98 || rest[1] == 120 || rest[1]
        == 121) {
        proof {
            let seg = rest@.take(find_byte(rest@, 36));
            assert(seg[0] == rest@[0]);
            assert(seg[1] == rest@[1]);
        }
        Some(rest[1])
    } else {
        proof {
            let seg = rest@.take(find_byte(rest@, 36));
            if seg.len() == 2 {
                assert(seg[0] == rest@[0]);
                assert(seg[1] == rest@[1]);
            }
        }
        None
    }
}

/// Verifies a password against a legacy double-bcrypt hash.
fn verify_double_bcrypt(hash: &[u8], password: &[u8]) -> (r: bool)
    ensures
        r == spec_double_bcrypt_accepts(hash@, password@),
{
    let tag = match version_tag(hash) {
        Some(t) => t,
        None => { return false; },
    };
    let salted = match bcrypt_salted(password, hash, tag) {
        Some(s) => s,
        None => { return false; },
    };
    match bcrypt_verify(&salted, hash) {
        Some(b) => b,
        None => false,
    }
}

impl PasswordHash for BannedUser {
    open spec fn spec_verify(&self, password: Seq<u8>) -> bool {
        false
    }

    fn verify(&self, password: &[u8]) -> (r: bool) {
        false
    }
}

impl PasswordHash for UnknownHash {
    open spec fn spec_verify(&self, password: Seq<u8>) -> bool {
        false
    }

    fn verify(&self, password: &[u8]) -> (r: bool) {
        false
    }
}

impl PasswordHash for Bcrypt {
    open spec fn spec_verify(&self, password: Seq<u8>) -> bool {
        spec_bcrypt_accepts(self.0@, password)
    }

    fn verify(&self, password: &[u8]) -> (r: bool) {
        verify_bcrypt(self.0.as_slice(), password)
    }
}

impl PasswordHash for DoubleBcrypt {
    open spec fn spec_verify(&self, password: Seq<u8>) -> bool {
        spec_double_bcrypt_accepts(self.0@, password)
    }

    fn verify(&self, password: &[u8]) -> (r: bool) {
        verify_double_bcrypt(self.0.as_slice(), password)
    }
}

/// How a configured password string classifies: `-` bans; a
/// `$2a$`/`$2b$`/`$2x$`/`$2y$` prefix selects double bcrypt; a `bcrypt:`
/// name prefix (case-insensitive) selects plain bcrypt with the rest as
/// the hash; anything else never verifies.
pub open spec fn spec_classified(s: Seq<u8>, r: StoredPassword) -> bool {
    match r {
        StoredPassword::Banned => s == seq![45u8],
        StoredPassword::DoubleBcrypt(h) => s != seq![45u8] && spec_is_legacy(s) && h@ == s,
        StoredPassword::Bcrypt(h) => s != seq![45u8] && !spec_is_legacy(s)
            && spec_has_bcrypt_name(s) && h@ == s.skip(7),
        StoredPassword::Unknown(h) => s != seq![45u8] && !spec_is_legacy(s)
            && !spec_has_bcrypt_name(s) && h@ == s,
    }
}

/// A classified stored password.
#[derive(Debug)]
pub enum StoredPassword {
    Banned,
    Bcrypt(Vec<u8>),
    DoubleBcrypt(Vec<u8>),
    Unknown(Vec<u8>),
}

impl StoredPassword {
    /// Whether the stored password accepts the candidate.
    pub open spec fn spec_verify(&self, password: Seq<u8>) -> bool {
        match *self {
            StoredPassword::Banned => false,
            StoredPassword::Bcrypt(ref h) => spec_bcrypt_accepts(h@, password),
            StoredPassword::DoubleBcrypt(ref h) => spec_double_bcrypt_accepts(h@, password),
            StoredPassword::Unknown(_) => false,
        }
    }

    /// Verifies a candidate password against the stored password.
    pub fn verify(&self, password: &[u8]) -> (r: bool)
        ensures
            r == self.spec_verify(password@),
    {
        match self {
            StoredPassword::Banned => false,
            StoredPassword::Bcrypt(h) => verify_bcrypt(h.as_slice(), password),
            StoredPassword::DoubleBcrypt(h) => verify_double_bcrypt(h.as_slice(), password),
            StoredPassword::Unknown(_) => false,
        }
    }

    /// Classifies a configured password string: `-` bans; a
    /// `$2a$`/`$2b$`/`$2x$`/`$2y$` prefix selects double bcrypt; a
    /// `bcrypt:` name prefix (case-insensitive) selects plain bcrypt with
    /// the rest as the hash; anything else never verifies.
    pub fn classify(s: &[u8]) -> (r: StoredPassword)
        ensures
            spec_classified(s@, r),
    {
        if s.len() == 1 && s[0] == 45 {
            proof {
                assert(s@ =~= seq![45u8]);
            }
            return StoredPassword::Banned;
        }
        proof {
            if s@ == seq![45u8] {
                assert(s@.len() == 1 && s@[0] == 45);
            }
        }
        if s.len() >= 4 && s[0] == 36 && s[1] == 50 && (s[2] == 97 || s[2] == 98 || s[2] == 120
            || s[2] == 121) && s[3] == 36 {
            return StoredPassword::DoubleBcrypt(vstd::slice::slice_to_vec(s));
        }
        proof {
            lemma_find_byte_bounds(s@, 58);
        }
        let colon = find_byte_at(s, 58);
        if colon == 6 && s.len() > 6 {
            let name_ok = {
                let b0 = s[0];
                let b1 = s[1];
                let b2 = s[2];
                let b3 = s[3];
                let b4 = s[4];
                let b5 = s[5];
                lower_eq(b0, 98) && lower_eq(b1, 99) && lower_eq(b2, 114) && lower_eq(b3, 121)
                    && lower_eq(b4, 112) && lower_eq(b5, 116)
            };
            if name_ok {
                proof {
                    assert(nc_tag(s@, seq![98u8, 99u8, 114u8, 121u8, 112u8, 116u8])) by {
                        let t = seq![98u8, 99u8, 114u8, 121u8, 112u8, 116u8];
                        assert forall|i: int| 0 <= i < t.len() implies lower(s@[i]) == t[i] by {
                            if i == 0 {
                            } else if i == 1 {
                            } else if i == 2 {
                            } else if i == 3 {
                            } else if i == 4 {
                            } else {
                                assert(i == 5);
                            }
                        }
                    }
                }
                let rest = vstd::slice::slice_subrange(s, 7, s.len());
                proof {
                    assert(rest@ =~= s@.skip(7));
                }
                return StoredPassword::Bcrypt(vstd::slice::slice_to_vec(rest));
            }
            proof {
                if nc_tag(s@, seq![98u8, 99u8, 114u8, 121u8, 112u8, 116u8]) {
                    assert(lower(s@[0]) == 98);
                    assert(lower(s@[1]) == 99);
                    assert(lower(s@[2]) == 114);
                    assert(lower(s@[3]) == 121);
                    assert(lower(s@[4]) == 112);
                    assert(lower(s@[5]) == 116);
                }
            }
        }
        StoredPassword::Unknown(vstd::slice::slice_to_vec(s))
    }
}

/// Whether a byte folds to the given lower-case letter.
fn lower_eq(b: u8, target: u8) -> (r: bool)
    ensures
        r == (lower(b) == target),
{
    let lb: u8 = if 65 <= b && b <= 90 {
        b + 32
    } else {
        b
    };
    lb == target
}

} // verus!
