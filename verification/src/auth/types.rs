//! Package name patterns, permission maps, and the authorization data.

use vstd::prelude::*;
use crate::acl::Ruleset;
use crate::auth::password::StoredPassword;

verus! {

/// Whether the pattern matches the whole subject: a literal byte matches
/// itself and `*` matches any run of bytes.
pub open spec fn glob_match(p: Seq<u8>, s: Seq<u8>) -> bool
    decreases p.len() + s.len(),
{
    if p.len() == 0 {
        s.len() == 0
    } else if p[0] == 42 {
        glob_match(p.skip(1), s) || (s.len() > 0 && glob_match(p, s.skip(1)))
    } else {
        s.len() > 0 && s[0] == p[0] && glob_match(p.skip(1), s.skip(1))
    }
}

/// The pattern consisting of a single `*` matches every subject.
pub proof fn lemma_star_matches_all(s: Seq<u8>)
    ensures
        glob_match(seq![42u8], s),
    decreases s.len(),
{
    let p = seq![42u8];
    assert(p[0] == 42);
    if s.len() == 0 {
        assert(p.skip(1) =~= Seq::<u8>::empty());
        assert(glob_match(p.skip(1), s));
    } else {
        lemma_star_matches_all(s.skip(1));
        assert(glob_match(p, s.skip(1)));
    }
}

/// A package name pattern: literal characters and `*` wildcards, matched
/// against whole package identifiers. Patterns are compared by their
/// source text.
#[derive(Debug)]
pub struct PackageName {
    pub pattern: Vec<u8>,
}

impl PackageName {
    /// Builds a pattern from its source text.
    pub fn new(pattern: Vec<u8>) -> (r: PackageName)
        ensures
            r.pattern == pattern,
    {
        PackageName { pattern }
    }

    /// Decides whether the pattern matches a whole package identifier.
    pub fn matches(&self, subject: &[u8]) -> (r: bool)
        ensures
            r == glob_match(self.pattern@, subject@),
    {
        glob_exec(self.pattern.as_slice(), subject)
    }
}

/// Decides `glob_match` by direct recursion.
fn glob_exec(p: &[u8], s: &[u8]) -> (r: bool)
    ensures
        r == glob_match(p@, s@),
    decreases p@.len() + s@.len(),
{
    if p.len() == 0 {
        return s.len() == 0;
    }
    let pt = vstd::slice::slice_subrange(p, 1, p.len());
    proof {
        assert(pt@ =~= p@.skip(1));
    }
    if p[0] == 42 {
        if glob_exec(pt, s) {
            return true;
        }
        if s.len() > 0 {
            let st = vstd::slice::slice_subrange(s, 1, s.len());
            proof {
                assert(st@ =~= s@.skip(1));
            }
            return glob_exec(p, st);
        }
        return false;
    }
    if s.len() > 0 && s[0] == p[0] {
        let st = vstd::slice::slice_subrange(s, 1, s.len());
        proof {
            assert(st@ =~= s@.skip(1));
        }
        glob_exec(pt, st)
    } else {
        false
    }
}

/// An ordered permission map: patterns with their rulesets, in the
/// configuration file's order.
pub type Permissions = Vec<(PackageName, Ruleset)>;

/// Whether every ruleset of a permission map is well-formed.
pub open spec fn spec_permissions_wf(perms: Seq<(PackageName, Ruleset)>) -> bool {
    forall|i: int| 0 <= i < perms.len() ==> (#[trigger] perms[i].1).wf()
}

/// Whether some pattern of the permission map matches the package and its
/// ruleset passes the version.
pub open spec fn spec_check_permissions(
    perms: Seq<(PackageName, Ruleset)>,
    package_id: Seq<u8>,
    version: crate::version::Version,
) -> bool {
    exists|i: int|
        0 <= i < perms.len() && glob_match((#[trigger] perms[i]).0.pattern@, package_id)
            && perms[i].1.spec_eval(version)
}

/// Scans a permission map: grants when some pattern matches the package
/// and its ruleset passes the version. A matching pattern whose ruleset
/// refuses does not end the scan.
pub fn check_permissions(
    perms: &Permissions,
    package_id: &[u8],
    version: &crate::version::Version,
) -> (r: bool)
    requires
        spec_permissions_wf(perms@),
    ensures
        r == spec_check_permissions(perms@, package_id@, *version),
{
    let mut i: usize = 0;
    while i < perms.len()
        invariant
            0 <= i <= perms@.len(),
            spec_permissions_wf(perms@),
            !spec_check_permissions(perms@.take(i as int), package_id@, *version),
        decreases perms@.len() - i,
    {
        let entry = &perms[i];
        if entry.0.matches(package_id) && entry.1.evaluate(version) {
            return true;
        }
        proof {
            assert forall|j: int|
                0 <= j < i + 1 implies !(glob_match(
                (#[trigger] perms@[j]).0.pattern@,
                package_id@,
            ) && perms@[j].1.spec_eval(*version)) by {
                if j < i {
                    assert(perms@.take(i as int)[j] == perms@[j]);
                }
            }
            assert forall|j: int| 0 <= j < i + 1 implies perms@.take(i as int + 1)[j] == perms@[j]
                by {}
        }
        i = i + 1;
    }
    proof {
        assert(perms@.take(perms@.len() as int) =~= perms@);
    }
    false
}

/// One user's record: the stored password, group memberships, and the
/// user's own package permissions.
#[derive(Debug)]
pub struct UserInfo {
    pub passwd: StoredPassword,
    pub groups: Vec<Vec<u8>>,
    pub packages: Permissions,
}

/// The authorization data: users, groups and global package permissions.
#[derive(Debug)]
pub struct AuthData {
    pub users: Vec<(Vec<u8>, UserInfo)>,
    pub groups: Vec<(Vec<u8>, Permissions)>,
    pub packages: Permissions,
}

impl AuthData {
    /// An empty configuration: no users, no groups, no permissions.
    pub fn new() -> (r: AuthData)
        ensures
            r.users@.len() == 0,
            r.groups@.len() == 0,
            r.packages@.len() == 0,
    {
        AuthData { users: Vec::new(), groups: Vec::new(), packages: Vec::new() }
    }

    /// Every ruleset anywhere in the configuration is well-formed.
    pub open spec fn wf(self) -> bool {
        &&& spec_permissions_wf(self.packages@)
        &&& forall|i: int|
            0 <= i < self.users@.len() ==> spec_permissions_wf(
                (#[trigger] self.users@[i]).1.packages@,
            )
        &&& forall|i: int|
            0 <= i < self.groups@.len() ==> spec_permissions_wf((#[trigger] self.groups@[i]).1@)
    }

    /// The first record stored under the user name, if any.
    pub open spec fn spec_user(self, name: Seq<u8>) -> Option<int> {
        if exists|i: int| 0 <= i < self.users@.len() && (#[trigger] self.users@[i]).0@ == name {
            Some(
                choose|i: int|
                    0 <= i < self.users@.len() && (#[trigger] self.users@[i]).0@ == name && forall|
                        j: int,
                    | 0 <= j < i ==> (#[trigger] self.users@[j]).0@ != name,
            )
        } else {
            None
        }
    }

    /// Looks up a user by name; the first record wins.
    pub fn lookup_user(&self, name: &[u8]) -> (r: Option<&UserInfo>)
        ensures
            match r {
                Some(u) => {
                    &&& self.spec_user(name@) is Some
                    &&& {
                        let i = self.spec_user(name@).unwrap();
                        0 <= i < self.users@.len() && self.users@[i].0@ == name@ && *u
                            == self.users@[i].1
                    }
                },
                None => self.spec_user(name@) is None,
            },
    {
        let mut i: usize = 0;
        while i < self.users.len()
            invariant
                0 <= i <= self.users@.len(),
                forall|j: int| 0 <= j < i ==> (#[trigger] self.users@[j]).0@ != name@,
            decreases self.users@.len() - i,
        {
            let entry = &self.users[i];
            if compare_bytes(entry.0.as_slice(), name) {
                proof {
                    let w = choose|k: int|
                        0 <= k < self.users@.len() && (#[trigger] self.users@[k]).0@ == name@
                            && forall|j: int| 0 <= j < k ==> (#[trigger] self.users@[j]).0@
                            != name@;
                    assert(self.users@[i as int].0@ == name@);
                    if w != i {
                        if w < i {
                            assert(self.users@[w].0@ != name@);
                        } else {
                            assert(self.users@[i as int].0@ != name@);
                        }
                    }
                }
                return Some(&self.users[i].1);
            }
            i = i + 1;
        }
        None
    }

    /// The first permission map stored under the group name, if any.
    pub open spec fn spec_group(self, name: Seq<u8>) -> Option<int> {
        if exists|i: int| 0 <= i < self.groups@.len() && (#[trigger] self.groups@[i]).0@ == name {
            Some(
                choose|i: int|
                    0 <= i < self.groups@.len() && (#[trigger] self.groups@[i]).0@ == name
                        && forall|j: int| 0 <= j < i ==> (#[trigger] self.groups@[j]).0@ != name,
            )
        } else {
            None
        }
    }

    /// Looks up a group by name; the first record wins.
    pub fn lookup_group(&self, name: &[u8]) -> (r: Option<&Permissions>)
        ensures
            match r {
                Some(p) => {
                    &&& self.spec_group(name@) is Some
                    &&& {
                        let i = self.spec_group(name@).unwrap();
                        0 <= i < self.groups@.len() && self.groups@[i].0@ == name@ && *p
                            == self.groups@[i].1
                    }
                },
                None => self.spec_group(name@) is None,
            },
    {
        let mut i: usize = 0;
        while i < self.groups.len()
            invariant
                0 <= i <= self.groups@.len(),
                forall|j: int| 0 <= j < i ==> (#[trigger] self.groups@[j]).0@ != name@,
            decreases self.groups@.len() - i,
        {
            let entry = &self.groups[i];
            if compare_bytes(entry.0.as_slice(), name) {
                proof {
                    let w = choose|k: int|
                        0 <= k < self.groups@.len() && (#[trigger] self.groups@[k]).0@ == name@
                            && forall|j: int| 0 <= j < k ==> (#[trigger] self.groups@[j]).0@
                            != name@;
                    assert(self.groups@[i as int].0@ == name@);
                    if w != i {
                        if w < i {
                            assert(self.groups@[w].0@ != name@);
                        } else {
                            assert(self.groups@[i as int].0@ != name@);
                        }
                    }
                }
                return Some(&self.groups[i].1);
            }
            i = i + 1;
        }
        None
    }
}

/// Byte-for-byte equality of two byte strings.
pub fn compare_bytes(a: &[u8], b: &[u8]) -> (r: bool)
    ensures
        r == (a@ == b@),
{
    if a.len() != b.len() {
        proof {
            if a@ == b@ {
                assert(a@.len() == b@.len());
            }
        }
        return false;
    }
    let mut i: usize = 0;
    while i < a.len()
        invariant
            0 <= i <= a@.len(),
            a@.len() == b@.len(),
            forall|j: int| 0 <= j < i ==> a@[j] == b@[j],
        decreases a@.len() - i,
    {
        if a[i] != b[i] {
            return false;
        }
        i = i + 1;
    }
    proof {
        assert(a@ =~= b@);
    }
    true
}

} // verus!
