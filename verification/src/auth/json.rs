//! The authorization configuration read from a JSON document.
//!
//! The document holds optional top-level objects `users`, `groups` and
//! `packages`; missing keys default to empty maps. Every ruleset string
//! must parse, and parsed rulesets must be well-formed; a document that
//! breaks either rule is rejected whole.

use vstd::prelude::*;
use crate::acl::{spec_parse_ruleset, Ruleset};
use crate::auth::password::{spec_classified, StoredPassword};
use crate::auth::types::{AuthData, PackageName, Permissions, UserInfo};

verus! {

/// A JSON document modeled as a tree of plain values. Object entries
/// keep the document's order; numbers keep their rendered form.
#[derive(Debug)]
pub enum JsonValue {
    Null,
    Bool(bool),
    Number(Vec<u8>),
    String(Vec<u8>),
    Array(Vec<JsonValue>),
    Object(Vec<(Vec<u8>, JsonValue)>),
}

/// Reading the configuration can fail only one way: the document does
/// not have the expected shape.
#[derive(Debug, PartialEq, Eq, Structural)]
pub enum AuthParseError {
    UnableToParse,
}

pub open spec fn key_users() -> Seq<u8> {
    seq![117u8, 115u8, 101u8, 114u8, 115u8]
}

pub open spec fn key_groups() -> Seq<u8> {
    seq![103u8, 114u8, 111u8, 117u8, 112u8, 115u8]
}

pub open spec fn key_packages() -> Seq<u8> {
    seq![112u8, 97u8, 99u8, 107u8, 97u8, 103u8, 101u8, 115u8]
}

pub open spec fn key_passwd() -> Seq<u8> {
    seq![112u8, 97u8, 115u8, 115u8, 119u8, 100u8]
}

/// No two entries share one of the given keys; later duplicates of
/// recognized keys are what the reader rejects.
pub open spec fn spec_no_dup_key(entries: Seq<(Vec<u8>, JsonValue)>, keys: Seq<Seq<u8>>) -> bool {
    forall|i: int, j: int|
        0 <= i < j < entries.len() ==> !((#[trigger] entries[i]).0@ == (#[trigger] entries[j]).0@
            && keys.contains(entries[i].0@))
}

/// A valid permission object: every value is a string that parses to a
/// well-formed ruleset.
pub open spec fn spec_permissions_valid(entries: Seq<(Vec<u8>, JsonValue)>) -> bool {
    forall|i: int|
        0 <= i < entries.len() ==> match (#[trigger] entries[i]).1 {
            JsonValue::String(s) => match spec_parse_ruleset(s@) {
                Some(rs) => rs.wf(),
                None => false,
            },
            _ => false,
        }
}

/// The permission map built from a valid permission object: same order,
/// patterns from the keys, rulesets parsed from the values.
pub open spec fn spec_permissions_match(
    entries: Seq<(Vec<u8>, JsonValue)>,
    out: Seq<(PackageName, Ruleset)>,
) -> bool {
    &&& out.len() == entries.len()
    &&& forall|i: int|
        0 <= i < entries.len() ==> {
            &&& (#[trigger] out[i]).0.pattern@ == (#[trigger] entries[i]).0@
            &&& match entries[i].1 {
                JsonValue::String(s) => spec_parse_ruleset(s@) == Some(out[i].1),
                _ => false,
            }
        }
}

/// A valid group-name array: every item is a string.
pub open spec fn spec_group_names_valid(items: Seq<JsonValue>) -> bool {
    forall|i: int| 0 <= i < items.len() ==> (#[trigger] items[i]) is String
}

/// The group names taken from a valid array, in order.
pub open spec fn spec_group_names_match(items: Seq<JsonValue>, out: Seq<Vec<u8>>) -> bool {
    &&& out.len() == items.len()
    &&& forall|i: int|
        0 <= i < items.len() ==> match #[trigger] items[i] {
            JsonValue::String(s) => (#[trigger] out[i])@ == s@,
            _ => false,
        }
}

/// A valid user object: a required `passwd` string; an optional `groups`
/// array of strings; an optional `packages` permission object; no
/// recognized key twice. Unknown keys are ignored.
pub open spec fn spec_user_valid(entries: Seq<(Vec<u8>, JsonValue)>) -> bool {
    &&& spec_no_dup_key(entries, seq![key_passwd(), key_groups(), key_packages()])
    &&& exists|i: int|
        0 <= i < entries.len() && (#[trigger] entries[i]).0@ == key_passwd() && entries[i].1
            is String
    &&& forall|i: int|
        0 <= i < entries.len() ==> {
            &&& ((#[trigger] entries[i]).0@ == key_passwd() ==> entries[i].1 is String)
            &&& (entries[i].0@ == key_groups() ==> match entries[i].1 {
                JsonValue::Array(items) => spec_group_names_valid(items@),
                _ => false,
            })
            &&& (entries[i].0@ == key_packages() ==> match entries[i].1 {
                JsonValue::Object(obj) => spec_permissions_valid(obj@),
                _ => false,
            })
        }
}

/// The user record built from a valid user object.
pub open spec fn spec_user_match(entries: Seq<(Vec<u8>, JsonValue)>, out: UserInfo) -> bool {
    &&& exists|i: int|
        0 <= i < entries.len() && (#[trigger] entries[i]).0@ == key_passwd() && match entries[i].1 {
            JsonValue::String(s) => spec_classified(s@, out.passwd),
            _ => false,
        }
    &&& if exists|i: int| 0 <= i < entries.len() && (#[trigger] entries[i]).0@ == key_groups() {
        exists|i: int|
            0 <= i < entries.len() && (#[trigger] entries[i]).0@ == key_groups() && match entries[i].1 {
                JsonValue::Array(items) => spec_group_names_match(items@, out.groups@),
                _ => false,
            }
    } else {
        out.groups@.len() == 0
    }
    &&& if exists|i: int| 0 <= i < entries.len() && (#[trigger] entries[i]).0@ == key_packages() {
        exists|i: int|
            0 <= i < entries.len() && (#[trigger] entries[i]).0@ == key_packages() && match entries[i].1 {
                JsonValue::Object(obj) => spec_permissions_match(obj@, out.packages@),
                _ => false,
            }
    } else {
        out.packages@.len() == 0
    }
}

/// A valid users object: every value is a valid user object.
pub open spec fn spec_users_valid(entries: Seq<(Vec<u8>, JsonValue)>) -> bool {
    forall|i: int|
        0 <= i < entries.len() ==> match (#[trigger] entries[i]).1 {
            JsonValue::Object(obj) => spec_user_valid(obj@),
            _ => false,
        }
}

/// The user records built from a valid users object, in order.
pub open spec fn spec_users_match(
    entries: Seq<(Vec<u8>, JsonValue)>,
    out: Seq<(Vec<u8>, UserInfo)>,
) -> bool {
    &&& out.len() == entries.len()
    &&& forall|i: int|
        0 <= i < entries.len() ==> {
            &&& (#[trigger] out[i]).0@ == (#[trigger] entries[i]).0@
            &&& match entries[i].1 {
                JsonValue::Object(obj) => spec_user_match(obj@, out[i].1),
                _ => false,
            }
        }
}

/// A valid groups object: every value is a valid permission object.
pub open spec fn spec_groups_valid(entries: Seq<(Vec<u8>, JsonValue)>) -> bool {
    forall|i: int|
        0 <= i < entries.len() ==> match (#[trigger] entries[i]).1 {
            JsonValue::Object(obj) => spec_permissions_valid(obj@),
            _ => false,
        }
}

/// The group records built from a valid groups object, in order.
pub open spec fn spec_groups_match(
    entries: Seq<(Vec<u8>, JsonValue)>,
    out: Seq<(Vec<u8>, Permissions)>,
) -> bool {
    &&& out.len() == entries.len()
    &&& forall|i: int|
        0 <= i < entries.len() ==> {
            &&& (#[trigger] out[i]).0@ == (#[trigger] entries[i]).0@
            &&& match entries[i].1 {
                JsonValue::Object(obj) => spec_permissions_match(obj@, out[i].1@),
                _ => false,
            }
        }
}

/// A valid configuration document: an object whose recognized keys
/// `users`, `groups` and `packages`, each present at most once, hold
/// valid objects of their kind.
pub open spec fn spec_auth_valid(tree: JsonValue) -> bool {
    match tree {
        JsonValue::Object(entries) => {
            &&& spec_no_dup_key(entries@, seq![key_users(), key_groups(), key_packages()])
            &&& forall|i: int|
                0 <= i < entries@.len() ==> {
                    &&& ((#[trigger] entries@[i]).0@ == key_users() ==> match entries@[i].1 {
                        JsonValue::Object(obj) => spec_users_valid(obj@),
                        _ => false,
                    })
                    &&& (entries@[i].0@ == key_groups() ==> match entries@[i].1 {
                        JsonValue::Object(obj) => spec_groups_valid(obj@),
                        _ => false,
                    })
                    &&& (entries@[i].0@ == key_packages() ==> match entries@[i].1 {
                        JsonValue::Object(obj) => spec_permissions_valid(obj@),
                        _ => false,
                    })
                }
        },
        _ => false,
    }
}

/// The configuration built from a valid document.
pub open spec fn spec_auth_match(tree: JsonValue, out: AuthData) -> bool {
    match tree {
        JsonValue::Object(entries) => {
            &&& if exists|i: int| 0 <= i < entries@.len() && (#[trigger] entries@[i]).0@ == key_users() {
                exists|i: int|
                    0 <= i < entries@.len() && (#[trigger] entries@[i]).0@ == key_users()
                        && match entries@[i].1 {
                        JsonValue::Object(obj) => spec_users_match(obj@, out.users@),
                        _ => false,
                    }
            } else {
                out.users@.len() == 0
            }
            &&& if exists|i: int| 0 <= i < entries@.len() && (#[trigger] entries@[i]).0@ == key_groups() {
                exists|i: int|
                    0 <= i < entries@.len() && (#[trigger] entries@[i]).0@ == key_groups()
                        && match entries@[i].1 {
                        JsonValue::Object(obj) => spec_groups_match(obj@, out.groups@),
                        _ => false,
                    }
            } else {
                out.groups@.len() == 0
            }
            &&& if exists|i: int| 0 <= i < entries@.len() && (#[trigger] entries@[i]).0@ == key_packages() {
                exists|i: int|
                    0 <= i < entries@.len() && (#[trigger] entries@[i]).0@ == key_packages()
                        && match entries@[i].1 {
                        JsonValue::Object(obj) => spec_permissions_match(obj@, out.packages@),
                        _ => false,
                    }
            } else {
                out.packages@.len() == 0
            }
        },
        _ => false,
    }
}

/// A permission map built from a valid permission object has only
/// well-formed rulesets.
pub proof fn lemma_permissions_wf(entries: Seq<(Vec<u8>, JsonValue)>, out: Seq<(PackageName, Ruleset)>)
    requires
        spec_permissions_valid(entries),
        spec_permissions_match(entries, out),
    ensures
        crate::auth::types::spec_permissions_wf(out),
{
    assert forall|i: int| 0 <= i < out.len() implies (#[trigger] out[i].1).wf() by {
        assert(match entries[i].1 {
            JsonValue::String(s) => spec_parse_ruleset(s@) == Some(out[i].1),
            _ => false,
        });
    }
}

/// A configuration built from a valid document has only well-formed
/// rulesets everywhere.
pub proof fn lemma_auth_wf(tree: JsonValue, out: AuthData)
    requires
        spec_auth_valid(tree),
        spec_auth_match(tree, out),
    ensures
        out.wf(),
{
    let entries = tree->Object_0;
    if exists|i: int| 0 <= i < entries@.len() && (#[trigger] entries@[i]).0@ == key_packages() {
        let i = choose|i: int|
            0 <= i < entries@.len() && (#[trigger] entries@[i]).0@ == key_packages()
                && match entries@[i].1 {
                JsonValue::Object(obj) => spec_permissions_match(obj@, out.packages@),
                _ => false,
            };
        lemma_permissions_wf(entries@[i].1->Object_0@, out.packages@);
    }
    if exists|i: int| 0 <= i < entries@.len() && (#[trigger] entries@[i]).0@ == key_users() {
        let i = choose|i: int|
            0 <= i < entries@.len() && (#[trigger] entries@[i]).0@ == key_users()
                && match entries@[i].1 {
                JsonValue::Object(obj) => spec_users_match(obj@, out.users@),
                _ => false,
            };
        let uobj = entries@[i].1->Object_0@;
        assert forall|u: int|
            0 <= u < out.users@.len() implies crate::auth::types::spec_permissions_wf(
            (#[trigger] out.users@[u]).1.packages@,
        ) by {
            assert(match uobj[u].1 {
                JsonValue::Object(obj) => spec_user_match(obj@, out.users@[u].1),
                _ => false,
            });
            let fields = uobj[u].1->Object_0@;
            let rec = out.users@[u].1;
            if exists|k: int| 0 <= k < fields.len() && (#[trigger] fields[k]).0@
                == key_packages() {
                let k = choose|k: int|
                    0 <= k < fields.len() && (#[trigger] fields[k]).0@ == key_packages()
                        && match fields[k].1 {
                        JsonValue::Object(obj) => spec_permissions_match(obj@, rec.packages@),
                        _ => false,
                    };
                assert(match fields[k].1 {
                    JsonValue::Object(obj) => spec_permissions_valid(obj@),
                    _ => false,
                });
                lemma_permissions_wf(fields[k].1->Object_0@, rec.packages@);
            }
        }
    }
    if exists|i: int| 0 <= i < entries@.len() && (#[trigger] entries@[i]).0@ == key_groups() {
        let i = choose|i: int|
            0 <= i < entries@.len() && (#[trigger] entries@[i]).0@ == key_groups()
                && match entries@[i].1 {
                JsonValue::Object(obj) => spec_groups_match(obj@, out.groups@),
                _ => false,
            };
        let gobj = entries@[i].1->Object_0@;
        assert forall|g: int|
            0 <= g < out.groups@.len() implies crate::auth::types::spec_permissions_wf(
            (#[trigger] out.groups@[g]).1@,
        ) by {
            assert(match gobj[g].1 {
                JsonValue::Object(obj) => spec_permissions_match(obj@, out.groups@[g].1@),
                _ => false,
            });
            lemma_permissions_wf(gobj[g].1->Object_0@, out.groups@[g].1@);
        }
    }
}

/// Copies a byte string.
fn copy_bytes(v: &Vec<u8>) -> (r: Vec<u8>)
    ensures
        r@ == v@,
{
    vstd::slice::slice_to_vec(v.as_slice())
}

/// Builds a permission map from a permission object.
fn permissions_from(entries: &Vec<(Vec<u8>, JsonValue)>) -> (r: Result<Permissions, AuthParseError>)
    ensures
        match r {
            Ok(p) => spec_permissions_valid(entries@) && spec_permissions_match(entries@, p@),
            Err(_) => !spec_permissions_valid(entries@),
        },
{
    let mut out: Permissions = Vec::new();
    let mut i: usize = 0;
    while i < entries.len()
        invariant
            0 <= i <= entries@.len(),
            out@.len() == i,
            forall|j: int|
                0 <= j < i ==> match (#[trigger] entries@[j]).1 {
                    JsonValue::String(s) => match spec_parse_ruleset(s@) {
                        Some(rs) => rs.wf(),
                        None => false,
                    },
                    _ => false,
                },
            forall|j: int|
                0 <= j < i ==> {
                    &&& (#[trigger] out@[j]).0.pattern@ == (#[trigger] entries@[j]).0@
                    &&& match entries@[j].1 {
                        JsonValue::String(s) => spec_parse_ruleset(s@) == Some(out@[j].1),
                        _ => false,
                    }
                },
        decreases entries@.len() - i,
    {
        let value_ok = match &entries[i].1 {
            JsonValue::String(s) => match Ruleset::parser(s.as_slice()) {
                Some(rs) => {
                    if rs.check_wf() {
                        Some(rs)
                    } else {
                        None
                    }
                },
                None => None,
            },
            _ => None,
        };
        match value_ok {
            Some(rs) => {
                out.push((PackageName::new(copy_bytes(&entries[i].0)), rs));
            },
            None => {
                return Err(AuthParseError::UnableToParse);
            },
        }
        i = i + 1;
    }
    Ok(out)
}

/// Builds the list of group names from a group-name array.
fn group_names_from(items: &Vec<JsonValue>) -> (r: Result<Vec<Vec<u8>>, AuthParseError>)
    ensures
        match r {
            Ok(names) => spec_group_names_valid(items@) && spec_group_names_match(
                items@,
                names@,
            ),
            Err(_) => !spec_group_names_valid(items@),
        },
{
    let mut out: Vec<Vec<u8>> = Vec::new();
    let mut i: usize = 0;
    while i < items.len()
        invariant
            0 <= i <= items@.len(),
            out@.len() == i,
            forall|j: int| 0 <= j < i ==> (#[trigger] items@[j]) is String,
            forall|j: int|
                0 <= j < i ==> match #[trigger] items@[j] {
                    JsonValue::String(s) => (#[trigger] out@[j])@ == s@,
                    _ => false,
                },
        decreases items@.len() - i,
    {
        match &items[i] {
            JsonValue::String(s) => {
                out.push(copy_bytes(s));
            },
            _ => {
                return Err(AuthParseError::UnableToParse);
            },
        }
        i = i + 1;
    }
    Ok(out)
}

/// Builds one user record from a user object.
fn user_from(entries: &Vec<(Vec<u8>, JsonValue)>) -> (r: Result<UserInfo, AuthParseError>)
    ensures
        match r {
            Ok(u) => spec_user_valid(entries@) && spec_user_match(entries@, u),
            Err(_) => !spec_user_valid(entries@),
        },
{
    let ghost keys = seq![key_passwd(), key_groups(), key_packages()];
    proof {
        assert(keys[0] == key_passwd());
        assert(keys[1] == key_groups());
        assert(keys[2] == key_packages());
        assert(keys.contains(key_passwd()));
        assert(keys.contains(key_groups()));
        assert(keys.contains(key_packages()));
    }
    let k_passwd: [u8; 6] = [112, 97, 115, 115, 119, 100];
    let k_groups: [u8; 6] = [103, 114, 111, 117, 112, 115];
    let k_packages: [u8; 8] = [112, 97, 99, 107, 97, 103, 101, 115];
    proof {
        assert(k_passwd@ =~= key_passwd());
        assert(k_groups@ =~= key_groups());
        assert(k_packages@ =~= key_packages());
    }
    let mut passwd: Option<StoredPassword> = None;
    let ghost mut pix: int = 0;
    let mut groups: Option<Vec<Vec<u8>>> = None;
    let ghost mut gix: int = 0;
    let mut packages: Option<Permissions> = None;
    let ghost mut kix: int = 0;
    let mut i: usize = 0;
    while i < entries.len()
        invariant
            0 <= i <= entries@.len(),
            keys == seq![key_passwd(), key_groups(), key_packages()],
            k_passwd@ == key_passwd(),
            k_groups@ == key_groups(),
            k_packages@ == key_packages(),
            match passwd {
                None => forall|j: int| 0 <= j < i ==> (#[trigger] entries@[j]).0@ != key_passwd(),
                Some(pw) => {
                    &&& 0 <= pix < i
                    &&& entries@[pix].0@ == key_passwd()
                    &&& match entries@[pix].1 {
                        JsonValue::String(s) => spec_classified(s@, pw),
                        _ => false,
                    }
                    &&& forall|j: int|
                        0 <= j < i && j != pix ==> (#[trigger] entries@[j]).0@ != key_passwd()
                },
            },
            match groups {
                None => forall|j: int| 0 <= j < i ==> (#[trigger] entries@[j]).0@ != key_groups(),
                Some(ref gs) => {
                    &&& 0 <= gix < i
                    &&& entries@[gix].0@ == key_groups()
                    &&& match entries@[gix].1 {
                        JsonValue::Array(items) => spec_group_names_match(items@, gs@),
                        _ => false,
                    }
                    &&& forall|j: int|
                        0 <= j < i && j != gix ==> (#[trigger] entries@[j]).0@ != key_groups()
                },
            },
            match packages {
                None => forall|j: int|
                    0 <= j < i ==> (#[trigger] entries@[j]).0@ != key_packages(),
                Some(ref ps) => {
                    &&& 0 <= kix < i
                    &&& entries@[kix].0@ == key_packages()
                    &&& match entries@[kix].1 {
                        JsonValue::Object(obj) => spec_permissions_match(obj@, ps@),
                        _ => false,
                    }
                    &&& forall|j: int|
                        0 <= j < i && j != kix ==> (#[trigger] entries@[j]).0@ != key_packages()
                },
            },
            forall|j: int|
                0 <= j < i ==> {
                    &&& ((#[trigger] entries@[j]).0@ == key_passwd() ==> entries@[j].1 is String)
                    &&& (entries@[j].0@ == key_groups() ==> match entries@[j].1 {
                        JsonValue::Array(items) => spec_group_names_valid(items@),
                        _ => false,
                    })
                    &&& (entries@[j].0@ == key_packages() ==> match entries@[j].1 {
                        JsonValue::Object(obj) => spec_permissions_valid(obj@),
                        _ => false,
                    })
                },
        decreases entries@.len() - i,
    {
        let entry = &entries[i];
        if crate::auth::types::compare_bytes(entry.0.as_slice(), &k_passwd) {
            if passwd.is_some() {
                proof {
                    assert(entries@[pix].0@ == entries@[i as int].0@);
                    assert(!spec_no_dup_key(entries@, keys));
                }
                return Err(AuthParseError::UnableToParse);
            }
            match &entry.1 {
                JsonValue::String(s) => {
                    passwd = Some(StoredPassword::classify(s.as_slice()));
                    proof {
                        pix = i as int;
                    }
                },
                _ => {
                    return Err(AuthParseError::UnableToParse);
                },
            }
        } else if crate::auth::types::compare_bytes(entry.0.as_slice(), &k_groups) {
            if groups.is_some() {
                proof {
                    assert(entries@[gix].0@ == entries@[i as int].0@);
                    assert(!spec_no_dup_key(entries@, keys));
                }
                return Err(AuthParseError::UnableToParse);
            }
            match &entry.1 {
                JsonValue::Array(items) => match group_names_from(items) {
                    Ok(names) => {
                        groups = Some(names);
                        proof {
                            gix = i as int;
                        }
                    },
                    Err(e) => {
                        return Err(e);
                    },
                },
                _ => {
                    return Err(AuthParseError::UnableToParse);
                },
            }
        } else if crate::auth::types::compare_bytes(entry.0.as_slice(), &k_packages) {
            if packages.is_some() {
                proof {
                    assert(entries@[kix].0@ == entries@[i as int].0@);
                    assert(!spec_no_dup_key(entries@, keys));
                }
                return Err(AuthParseError::UnableToParse);
            }
            match &entry.1 {
                JsonValue::Object(obj) => match permissions_from(obj) {
                    Ok(perms) => {
                        packages = Some(perms);
                        proof {
                            kix = i as int;
                        }
                    },
                    Err(e) => {
                        return Err(e);
                    },
                },
                _ => {
                    return Err(AuthParseError::UnableToParse);
                },
            }
        }
        i = i + 1;
    }
    let passwd = match passwd {
        Some(pw) => pw,
        None => {
            return Err(AuthParseError::UnableToParse);
        },
    };
    let groups = match groups {
        Some(gs) => gs,
        None => Vec::new(),
    };
    let packages = match packages {
        Some(ps) => ps,
        None => Vec::new(),
    };
    Ok(UserInfo { passwd, groups, packages })
}

/// Builds the user records from a users object.
fn users_from(entries: &Vec<(Vec<u8>, JsonValue)>) -> (r: Result<
    Vec<(Vec<u8>, UserInfo)>,
    AuthParseError,
>)
    ensures
        match r {
            Ok(us) => spec_users_valid(entries@) && spec_users_match(entries@, us@),
            Err(_) => !spec_users_valid(entries@),
        },
{
    let mut out: Vec<(Vec<u8>, UserInfo)> = Vec::new();
    let mut i: usize = 0;
    while i < entries.len()
        invariant
            0 <= i <= entries@.len(),
            out@.len() == i,
            forall|j: int|
                0 <= j < i ==> match (#[trigger] entries@[j]).1 {
                    JsonValue::Object(obj) => spec_user_valid(obj@),
                    _ => false,
                },
            forall|j: int|
                0 <= j < i ==> {
                    &&& (#[trigger] out@[j]).0@ == (#[trigger] entries@[j]).0@
                    &&& match entries@[j].1 {
                        JsonValue::Object(obj) => spec_user_match(obj@, out@[j].1),
                        _ => false,
                    }
                },
        decreases entries@.len() - i,
    {
        match &entries[i].1 {
            JsonValue::Object(obj) => match user_from(obj) {
                Ok(u) => {
                    out.push((copy_bytes(&entries[i].0), u));
                },
                Err(e) => {
                    return Err(e);
                },
            },
            _ => {
                return Err(AuthParseError::UnableToParse);
            },
        }
        i = i + 1;
    }
    Ok(out)
}

/// Builds the group records from a groups object.
fn groups_from(entries: &Vec<(Vec<u8>, JsonValue)>) -> (r: Result<
    Vec<(Vec<u8>, Permissions)>,
    AuthParseError,
>)
    ensures
        match r {
            Ok(gs) => spec_groups_valid(entries@) && spec_groups_match(entries@, gs@),
            Err(_) => !spec_groups_valid(entries@),
        },
{
    let mut out: Vec<(Vec<u8>, Permissions)> = Vec::new();
    let mut i: usize = 0;
    while i < entries.len()
        invariant
            0 <= i <= entries@.len(),
            out@.len() == i,
            forall|j: int|
                0 <= j < i ==> match (#[trigger] entries@[j]).1 {
                    JsonValue::Object(obj) => spec_permissions_valid(obj@),
                    _ => false,
                },
            forall|j: int|
                0 <= j < i ==> {
                    &&& (#[trigger] out@[j]).0@ == (#[trigger] entries@[j]).0@
                    &&& match entries@[j].1 {
                        JsonValue::Object(obj) => spec_permissions_match(obj@, out@[j].1@),
                        _ => false,
                    }
                },
        decreases entries@.len() - i,
    {
        match &entries[i].1 {
            JsonValue::Object(obj) => match permissions_from(obj) {
                Ok(p) => {
                    out.push((copy_bytes(&entries[i].0), p));
                },
                Err(e) => {
                    return Err(e);
                },
            },
            _ => {
                return Err(AuthParseError::UnableToParse);
            },
        }
        i = i + 1;
    }
    Ok(out)
}

/// Builds the authorization data from a parsed configuration document.
pub fn auth_from_json(tree: &JsonValue) -> (r: Result<AuthData, AuthParseError>)
    ensures
        match r {
            Ok(a) => spec_auth_valid(*tree) && spec_auth_match(*tree, a),
            Err(_) => !spec_auth_valid(*tree),
        },
{
    let ghost keys = seq![key_users(), key_groups(), key_packages()];
    proof {
        assert(keys[0] == key_users());
        assert(keys[1] == key_groups());
        assert(keys[2] == key_packages());
    }
    let k_users: [u8; 5] = [117, 115, 101, 114, 115];
    let k_groups: [u8; 6] = [103, 114, 111, 117, 112, 115];
    let k_packages: [u8; 8] = [112, 97, 99, 107, 97, 103, 101, 115];
    proof {
        assert(k_users@ =~= key_users());
        assert(k_groups@ =~= key_groups());
        assert(k_packages@ =~= key_packages());
    }
    let entries = match tree {
        JsonValue::Object(entries) => entries,
        _ => {
            return Err(AuthParseError::UnableToParse);
        },
    };
    let mut users: Option<Vec<(Vec<u8>, UserInfo)>> = None;
    let ghost mut uix: int = 0;
    let mut groups: Option<Vec<(Vec<u8>, Permissions)>> = None;
    let ghost mut gix: int = 0;
    let mut packages: Option<Permissions> = None;
    let ghost mut kix: int = 0;
    let mut i: usize = 0;
    while i < entries.len()
        invariant
            0 <= i <= entries@.len(),
            *tree matches JsonValue::Object(e) && e == *entries,
            keys == seq![key_users(), key_groups(), key_packages()],
            k_users@ == key_users(),
            k_groups@ == key_groups(),
            k_packages@ == key_packages(),
            match users {
                None => forall|j: int| 0 <= j < i ==> (#[trigger] entries@[j]).0@ != key_users(),
                Some(ref us) => {
                    &&& 0 <= uix < i
                    &&& entries@[uix].0@ == key_users()
                    &&& match entries@[uix].1 {
                        JsonValue::Object(obj) => spec_users_match(obj@, us@),
                        _ => false,
                    }
                    &&& forall|j: int|
                        0 <= j < i && j != uix ==> (#[trigger] entries@[j]).0@ != key_users()
                },
            },
            match groups {
                None => forall|j: int| 0 <= j < i ==> (#[trigger] entries@[j]).0@ != key_groups(),
                Some(ref gs) => {
                    &&& 0 <= gix < i
                    &&& entries@[gix].0@ == key_groups()
                    &&& match entries@[gix].1 {
                        JsonValue::Object(obj) => spec_groups_match(obj@, gs@),
                        _ => false,
                    }
                    &&& forall|j: int|
                        0 <= j < i && j != gix ==> (#[trigger] entries@[j]).0@ != key_groups()
                },
            },
            match packages {
                None => forall|j: int|
                    0 <= j < i ==> (#[trigger] entries@[j]).0@ != key_packages(),
                Some(ref ps) => {
                    &&& 0 <= kix < i
                    &&& entries@[kix].0@ == key_packages()
                    &&& match entries@[kix].1 {
                        JsonValue::Object(obj) => spec_permissions_match(obj@, ps@),
                        _ => false,
                    }
                    &&& forall|j: int|
                        0 <= j < i && j != kix ==> (#[trigger] entries@[j]).0@ != key_packages()
                },
            },
            forall|j: int|
                0 <= j < i ==> {
                    &&& ((#[trigger] entries@[j]).0@ == key_users() ==> match entries@[j].1 {
                        JsonValue::Object(obj) => spec_users_valid(obj@),
                        _ => false,
                    })
                    &&& (entries@[j].0@ == key_groups() ==> match entries@[j].1 {
                        JsonValue::Object(obj) => spec_groups_valid(obj@),
                        _ => false,
                    })
                    &&& (entries@[j].0@ == key_packages() ==> match entries@[j].1 {
                        JsonValue::Object(obj) => spec_permissions_valid(obj@),
                        _ => false,
                    })
                },
        decreases entries@.len() - i,
    {
        let entry = &entries[i];
        if crate::auth::types::compare_bytes(entry.0.as_slice(), &k_users) {
            if users.is_some() {
                proof {
                    assert(entries@[uix].0@ == entries@[i as int].0@);
                    assert(!spec_no_dup_key(entries@, keys));
                }
                return Err(AuthParseError::UnableToParse);
            }
            match &entry.1 {
                JsonValue::Object(obj) => match users_from(obj) {
                    Ok(us) => {
                        users = Some(us);
                        proof {
                            uix = i as int;
                        }
                    },
                    Err(e) => {
                        return Err(e);
                    },
                },
                _ => {
                    return Err(AuthParseError::UnableToParse);
                },
            }
        } else if crate::auth::types::compare_bytes(entry.0.as_slice(), &k_groups) {
            if groups.is_some() {
                proof {
                    assert(entries@[gix].0@ == entries@[i as int].0@);
                    assert(!spec_no_dup_key(entries@, keys));
                }
                return Err(AuthParseError::UnableToParse);
            }
            match &entry.1 {
                JsonValue::Object(obj) => match groups_from(obj) {
                    Ok(gs) => {
                        groups = Some(gs);
                        proof {
                            gix = i as int;
                        }
                    },
                    Err(e) => {
                        return Err(e);
                    },
                },
                _ => {
                    return Err(AuthParseError::UnableToParse);
                },
            }
        } else if crate::auth::types::compare_bytes(entry.0.as_slice(), &k_packages) {
            if packages.is_some() {
                proof {
                    assert(entries@[kix].0@ == entries@[i as int].0@);
                    assert(!spec_no_dup_key(entries@, keys));
                }
                return Err(AuthParseError::UnableToParse);
            }
            match &entry.1 {
                JsonValue::Object(obj) => match permissions_from(obj) {
                    Ok(ps) => {
                        packages = Some(ps);
                        proof {
                            kix = i as int;
                        }
                    },
                    Err(e) => {
                        return Err(e);
                    },
                },
                _ => {
                    return Err(AuthParseError::UnableToParse);
                },
            }
        }
        i = i + 1;
    }
    let users = match users {
        Some(us) => us,
        None => Vec::new(),
    };
    let groups = match groups {
        Some(gs) => gs,
        None => Vec::new(),
    };
    let packages = match packages {
        Some(ps) => ps,
        None => Vec::new(),
    };
    Ok(AuthData { users, groups, packages })
}

#[verifier::external_type_specification]
#[verifier::external_body]
pub struct ExJsonValue(serde_json::Value);

/// Relies on serde_json::Value: each node of the parsed document is
/// moved into the library's own tree, one for one; object entries keep
/// the document's order (serde_json preserves it), numbers keep
/// serde_json's rendering.
#[verifier::external_body]
fn json_of_value(v: serde_json::Value) -> JsonValue {
    match v {
        serde_json::Value::Null => JsonValue::Null,
        serde_json::Value::Bool(b) => JsonValue::Bool(b),
        serde_json::Value::Number(n) => JsonValue::Number(n.to_string().into_bytes()),
        serde_json::Value::String(s) => JsonValue::String(s.into_bytes()),
        serde_json::Value::Array(a) => JsonValue::Array(a.into_iter().map(json_of_value).collect()),
        serde_json::Value::Object(o) => JsonValue::Object(
            o.into_iter().map(|(k, x)| (k.into_bytes(), json_of_value(x))).collect(),
        ),
    }
}

/// What parsing the bytes as a JSON document yields: the document as
/// the library's own tree, or nothing when the bytes are not valid
/// JSON. The result depends on the bytes alone.
pub uninterp spec fn json_doc_of(bytes: Seq<u8>) -> Option<JsonValue>;

/// Relies on serde_json::from_slice to parse the document; a document
/// that is not valid JSON yields nothing. Deterministic in the bytes.
#[verifier::external_body]
fn parse_json(bytes: &[u8]) -> (r: Option<JsonValue>)
    ensures
        match r {
            Some(t) => json_doc_of(bytes@) == Some(t),
            None => json_doc_of(bytes@) is None,
        },
{
    serde_json::from_slice::<serde_json::Value>(bytes).ok().map(json_of_value)
}

/// Reads the authorization configuration from the bytes of a JSON
/// document: a configuration is returned exactly when the bytes parse
/// as a JSON document that is a valid configuration; it is then built
/// from that document, and every ruleset in it is well-formed.
pub fn read_auth_json(bytes: &[u8]) -> (r: Result<AuthData, AuthParseError>)
    ensures
        match r {
            Ok(a) => json_doc_of(bytes@) matches Some(doc) && spec_auth_valid(doc)
                && spec_auth_match(doc, a) && a.wf(),
            Err(_) => match json_doc_of(bytes@) {
                None => true,
                Some(doc) => !spec_auth_valid(doc),
            },
        },
{
    let tree = match parse_json(bytes) {
        Some(t) => t,
        None => {
            return Err(AuthParseError::UnableToParse);
        },
    };
    match auth_from_json(&tree) {
        Ok(a) => {
            proof {
                lemma_auth_wf(tree, a);
            }
            Ok(a)
        },
        Err(e) => Err(e),
    }
}

} // verus!
