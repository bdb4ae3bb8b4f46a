//! Request identity and the authorization decision for one package
//! version.

use vstd::prelude::*;
use crate::auth::types::{check_permissions, spec_check_permissions, AuthData};
use crate::version::Version;

verus! {

/// The identity a request carries: the verified user name, or anonymous.
#[derive(Debug)]
pub struct AuthInfo {
    pub username: Option<Vec<u8>>,
}

/// Whether the user's own or group permissions grant access.
pub open spec fn spec_user_scopes_grant(
    auth: AuthData,
    name: Seq<u8>,
    package_id: Seq<u8>,
    version: Version,
) -> bool {
    match auth.spec_user(name) {
        None => false,
        Some(i) => {
            let user = auth.users@[i].1;
            ||| spec_check_permissions(user.packages@, package_id, version)
            ||| exists|g: int|
                0 <= g < user.groups@.len() && match auth.spec_group(
                    (#[trigger] user.groups@[g])@,
                ) {
                    Some(gi) => spec_check_permissions(auth.groups@[gi].1@, package_id, version),
                    None => false,
                }
        },
    }
}

/// Whether the request may access the package version: the global
/// package rules are consulted first, then the authenticated user's own
/// permissions, then each of the user's groups. A scope that refuses
/// never blocks a later scope.
pub open spec fn spec_is_accessible(
    package_id: Seq<u8>,
    version: Version,
    username: Option<Vec<u8>>,
    auth: AuthData,
) -> bool {
    ||| spec_check_permissions(auth.packages@, package_id, version)
    ||| match username {
        Some(name) => spec_user_scopes_grant(auth, name@, package_id, version),
        None => false,
    }
}

/// Decides access to one package version for the request's identity.
pub fn is_accessible(
    package_id: &[u8],
    version: &Version,
    auth_info: &AuthInfo,
    auth_data: &AuthData,
) -> (r: bool)
    requires
        auth_data.wf(),
    ensures
        r == spec_is_accessible(package_id@, *version, auth_info.username, *auth_data),
{
    if check_permissions(&auth_data.packages, package_id, version) {
        return true;
    }
    let name = match &auth_info.username {
        Some(n) => n,
        None => { return false; },
    };
    let user = match auth_data.lookup_user(name.as_slice()) {
        Some(u) => u,
        None => { return false; },
    };
    if check_permissions(&user.packages, package_id, version) {
        return true;
    }
    let ghost auth = *auth_data;
    let ghost uix = auth.spec_user(name@).unwrap();
    let mut g: usize = 0;
    while g < user.groups.len()
        invariant
            auth == *auth_data,
            auth.wf(),
            auth_info.username == Some(*name),
            auth.spec_user(name@) == Some(uix),
            0 <= uix < auth.users@.len(),
            *user == auth.users@[uix].1,
            0 <= g <= user.groups@.len(),
            forall|j: int|
                0 <= j < g ==> match auth.spec_group((#[trigger] user.groups@[j])@) {
                    Some(gi) => !spec_check_permissions(
                        auth.groups@[gi].1@,
                        package_id@,
                        *version,
                    ),
                    None => true,
                },
        decreases user.groups@.len() - g,
    {
        let group_name = &user.groups[g];
        if let Some(perms) = auth_data.lookup_group(group_name.as_slice()) {
            if check_permissions(perms, package_id, version) {
                proof {
                    let gj = g as int;
                    assert(0 <= gj < user.groups@.len() && match auth.spec_group(
                        (user.groups@[gj])@,
                    ) {
                        Some(gi) => spec_check_permissions(
                            auth.groups@[gi].1@,
                            package_id@,
                            *version,
                        ),
                        None => false,
                    });
                }
                return true;
            }
        }
        g = g + 1;
    }
    false
}

/// Resolves the request's identity: the user name of supplied Basic
/// credentials whose password verifies against the stored hash;
/// otherwise anonymous. A missing password, an unknown user, or a
/// refused password all resolve to anonymous.
pub fn get_auth_info(
    auth_data: &AuthData,
    auth: Option<(&[u8], Option<&[u8]>)>,
) -> (r: AuthInfo)
    ensures
        match r.username {
            Some(name) => {
                &&& auth is Some
                &&& auth.unwrap().0@ == name@
                &&& auth.unwrap().1 is Some
                &&& {
                    let uix = auth_data.spec_user(name@);
                    uix is Some && auth_data.users@[uix.unwrap()].1.passwd.spec_verify(
                        auth.unwrap().1.unwrap()@,
                    )
                }
            },
            None => match auth {
                None => true,
                Some((user_id, password)) => match password {
                    None => true,
                    Some(p) => match auth_data.spec_user(user_id@) {
                        None => true,
                        Some(uix) => !auth_data.users@[uix].1.passwd.spec_verify(p@),
                    },
                },
            },
        },
{
    let (user_id, password) = match auth {
        Some(c) => c,
        None => { return AuthInfo { username: None }; },
    };
    let password = match password {
        Some(p) => p,
        None => { return AuthInfo { username: None }; },
    };
    let user = match auth_data.lookup_user(user_id) {
        Some(u) => u,
        None => { return AuthInfo { username: None }; },
    };
    if user.passwd.verify(password) {
        AuthInfo { username: Some(vstd::slice::slice_to_vec(user_id)) }
    } else {
        AuthInfo { username: None }
    }
}

/// A redirect: the kind picks the status code, the payload is the target
/// location.
#[derive(Debug)]
pub enum RedirectType {
    Temporary(Vec<u8>),
    Permanent(Vec<u8>),
    Moved(Vec<u8>),
    Found(Vec<u8>),
    Other(Vec<u8>),
}

impl RedirectType {
    /// The target location of the redirect.
    pub open spec fn spec_to(self) -> Seq<u8> {
        match self {
            RedirectType::Temporary(t) => t@,
            RedirectType::Permanent(t) => t@,
            RedirectType::Moved(t) => t@,
            RedirectType::Found(t) => t@,
            RedirectType::Other(t) => t@,
        }
    }

    /// Takes the target location out of the redirect.
    pub fn to(self) -> (r: Vec<u8>)
        ensures
            r@ == self.spec_to(),
    {
        match self {
            RedirectType::Temporary(t) => t,
            RedirectType::Permanent(t) => t,
            RedirectType::Moved(t) => t,
            RedirectType::Found(t) => t,
            RedirectType::Other(t) => t,
        }
    }

    /// The HTTP status code of the redirect kind.
    pub fn status_code(&self) -> (r: u16)
        ensures
            r == match *self {
                RedirectType::Temporary(_) => 307u16,
                RedirectType::Permanent(_) => 308u16,
                RedirectType::Moved(_) => 301u16,
                RedirectType::Found(_) => 302u16,
                RedirectType::Other(_) => 303u16,
            },
    {
        match self {
            RedirectType::Temporary(_) => 307,
            RedirectType::Permanent(_) => 308,
            RedirectType::Moved(_) => 301,
            RedirectType::Found(_) => 302,
            RedirectType::Other(_) => 303,
        }
    }
}

/// The global scope alone can grant: whatever the identity, a grant by
/// the global package rules makes the version accessible.
pub proof fn lemma_global_scope_grants(
    package_id: Seq<u8>,
    version: Version,
    username: Option<Vec<u8>>,
    auth: AuthData,
)
    requires
        spec_check_permissions(auth.packages@, package_id, version),
    ensures
        spec_is_accessible(package_id, version, username, auth),
{
}

/// A refusal in one scope never blocks another: access holds exactly
/// when the global scope grants, or the identified user's own
/// permissions grant, or some group of that user grants.
pub proof fn lemma_scope_union(
    package_id: Seq<u8>,
    version: Version,
    name: Vec<u8>,
    auth: AuthData,
)
    requires
        auth.spec_user(name@) is Some,
    ensures
        spec_is_accessible(package_id, version, Some(name), auth) == {
            let user = auth.users@[auth.spec_user(name@).unwrap()].1;
            ||| spec_check_permissions(auth.packages@, package_id, version)
            ||| spec_check_permissions(user.packages@, package_id, version)
            ||| exists|g: int|
                0 <= g < user.groups@.len() && match auth.spec_group(
                    (#[trigger] user.groups@[g])@,
                ) {
                    Some(gi) => spec_check_permissions(auth.groups@[gi].1@, package_id, version),
                    None => false,
                }
        },
{
}

} // verus!
