//! The download route's decisions: merging request parameters, finding
//! the package and its latest accessible version, the outcome of one
//! download request, and the redirect locations.

use vstd::prelude::*;
use crate::auth::types::AuthData;
use crate::http::helpers::{is_accessible, spec_is_accessible, AuthInfo};
use crate::package::list::PackageInfo;
use crate::version::Version;
use crate::version::syntax::spec_version_url;

verus! {

/// The download request parameters taken from the query or the form.
#[derive(Debug)]
pub struct DownloadRequest {
    pub api_version: Option<Vec<u8>>,
    pub package_name: Option<Vec<u8>>,
    pub package_version: Option<Vec<u8>>,
}

impl DownloadRequest {
    /// Merges form parameters over query parameters: each form field,
    /// when present, wins.
    pub fn merge(form: DownloadRequest, query: DownloadRequest) -> (r: DownloadRequest)
        ensures
            r.api_version == (if form.api_version is Some {
                form.api_version
            } else {
                query.api_version
            }),
            r.package_name == (if form.package_name is Some {
                form.package_name
            } else {
                query.package_name
            }),
            r.package_version == (if form.package_version is Some {
                form.package_version
            } else {
                query.package_version
            }),
    {
        DownloadRequest {
            api_version: match form.api_version {
                Some(v) => Some(v),
                None => query.api_version,
            },
            package_name: match form.package_name {
                Some(v) => Some(v),
                None => query.package_name,
            },
            package_version: match form.package_version {
                Some(v) => Some(v),
                None => query.package_version,
            },
        }
    }
}

/// How opening the package file went, as the filesystem reports it.
#[derive(Debug, Eq, PartialEq, Clone, Copy, Structural)]
pub enum FileOpen {
    Opened,
    NotFound,
    Failed,
}

/// The outcome of one download request.
#[derive(Debug, Eq, PartialEq, Clone, Copy, Structural)]
pub enum DownloadOutcome {
    /// Stream the file; count the download exactly when statistics are
    /// enabled.
    Serve { count: bool },
    /// The version is unknown: the requester may access it, but there is
    /// no file.
    UnknownPackageVersion,
    /// The file exists but cannot be read.
    PackageReadFailed,
    /// Access is denied and the requester announced API version 2.1 for
    /// a file that exists.
    PaymentRequired,
    /// Access is denied.
    AccessDenied,
    /// Nothing here: no access and no file.
    UnknownPackage,
}

/// The version tag clients announce to receive payment-required
/// answers.
pub open spec fn api_version_21() -> Seq<u8> {
    seq![50u8, 46u8, 49u8]
}

/// What one download request comes to: an accessible version serves the
/// file (counting when statistics are on), is unknown without a file,
/// or fails when the file cannot be read; an inaccessible existing file
/// yields payment-required exactly for API version 2.1 and access
/// denied otherwise; anything else is an unknown package.
pub open spec fn spec_download_outcome(
    accessible: bool,
    open_result: FileOpen,
    file_exists: bool,
    api_version: Option<Seq<u8>>,
    enable_statistics: bool,
) -> DownloadOutcome {
    if accessible {
        match open_result {
            FileOpen::Opened => DownloadOutcome::Serve { count: enable_statistics },
            FileOpen::NotFound => DownloadOutcome::UnknownPackageVersion,
            FileOpen::Failed => DownloadOutcome::PackageReadFailed,
        }
    } else if file_exists {
        if api_version == Some(api_version_21()) {
            DownloadOutcome::PaymentRequired
        } else {
            DownloadOutcome::AccessDenied
        }
    } else {
        DownloadOutcome::UnknownPackage
    }
}

/// Decides the outcome of one download request.
pub fn download_outcome(
    accessible: bool,
    open_result: FileOpen,
    file_exists: bool,
    api_version: Option<&Vec<u8>>,
    enable_statistics: bool,
) -> (r: DownloadOutcome)
    ensures
        r == spec_download_outcome(
            accessible,
            open_result,
            file_exists,
            match api_version {
                Some(v) => Some(v@),
                None => None,
            },
            enable_statistics,
        ),
{
    if accessible {
        match open_result {
            FileOpen::Opened => DownloadOutcome::Serve { count: enable_statistics },
            FileOpen::NotFound => DownloadOutcome::UnknownPackageVersion,
            FileOpen::Failed => DownloadOutcome::PackageReadFailed,
        }
    } else if file_exists {
        let v21: [u8; 3] = [50, 46, 49];
        proof {
            assert(v21@ =~= api_version_21());
        }
        let is21 = match api_version {
            Some(v) => crate::auth::types::compare_bytes(v.as_slice(), &v21),
            None => false,
        };
        proof {
            match api_version {
                Some(v) => {
                    if v@ == api_version_21() {
                        assert(is21);
                    }
                },
                None => {},
            }
        }
        if is21 {
            DownloadOutcome::PaymentRequired
        } else {
            DownloadOutcome::AccessDenied
        }
    } else {
        DownloadOutcome::UnknownPackage
    }
}

/// Finds the package whose first version carries the identifier; the
/// first match wins.
pub fn find_package<'a>(
    packages: &'a Vec<Vec<PackageInfo>>,
    package_id: &[u8],
) -> (r: Option<&'a Vec<PackageInfo>>)
    requires
        crate::package::list::spec_packages_wf(packages@),
    ensures
        match r {
            Some(p) => exists|i: int|
                0 <= i < packages@.len() && *p == #[trigger] packages@[i] && p@[0].data.name@
                    == package_id@,
            None => forall|i: int|
                0 <= i < packages@.len() ==> (#[trigger] packages@[i])@[0].data.name@
                    != package_id@,
        },
{
    let mut i: usize = 0;
    while i < packages.len()
        invariant
            0 <= i <= packages@.len(),
            crate::package::list::spec_packages_wf(packages@),
            forall|j: int|
                0 <= j < i ==> (#[trigger] packages@[j])@[0].data.name@ != package_id@,
        decreases packages@.len() - i,
    {
        let pkg = &packages[i];
        proof {
            assert(packages@[i as int]@.len() >= 1);
        }
        if crate::auth::types::compare_bytes(pkg[0].data.name.as_slice(), package_id) {
            proof {
                assert(*pkg == packages@[i as int]);
            }
            return Some(pkg);
        }
        i = i + 1;
    }
    None
}

/// Finds the latest accessible version of one package: the list is
/// ascending by version and scanned from the newest down, so the first
/// accessible one is the greatest accessible version.
pub fn latest_accessible(
    versions: &Vec<PackageInfo>,
    package_id: &[u8],
    auth_info: &AuthInfo,
    auth_data: &AuthData,
) -> (r: Option<usize>)
    requires
        auth_data.wf(),
        crate::package::list::spec_sorted_by_version(versions@),
    ensures
        match r {
            Some(i) => 0 <= i < versions@.len() && spec_is_accessible(
                package_id@,
                versions@[i as int].data.package_information.version,
                auth_info.username,
                *auth_data,
            ) && (forall|j: int|
                i < j < versions@.len() ==> !spec_is_accessible(
                    package_id@,
                    (#[trigger] versions@[j]).data.package_information.version,
                    auth_info.username,
                    *auth_data,
                )) && (forall|j: int|
                0 <= j < versions@.len() && spec_is_accessible(
                    package_id@,
                    (#[trigger] versions@[j]).data.package_information.version,
                    auth_info.username,
                    *auth_data,
                ) ==> !versions@[i as int].data.package_information.version.spec_lt(
                    versions@[j].data.package_information.version,
                )),
            None => forall|j: int|
                0 <= j < versions@.len() ==> !spec_is_accessible(
                    package_id@,
                    (#[trigger] versions@[j]).data.package_information.version,
                    auth_info.username,
                    *auth_data,
                ),
        },
{
    let ghost sorted = versions@;
    let mut i: usize = versions.len();
    while i > 0
        invariant
            0 <= i <= versions@.len(),
            auth_data.wf(),
            crate::package::list::spec_sorted_by_version(versions@),
            forall|j: int|
                i <= j < versions@.len() ==> !spec_is_accessible(
                    package_id@,
                    (#[trigger] versions@[j]).data.package_information.version,
                    auth_info.username,
                    *auth_data,
                ),
        decreases i,
    {
        let v = versions[i - 1].data.package_information.version;
        if is_accessible(package_id, &v, auth_info, auth_data) {
            proof {
                assert forall|j: int|
                    0 <= j < versions@.len() && spec_is_accessible(
                        package_id@,
                        (#[trigger] versions@[j]).data.package_information.version,
                        auth_info.username,
                        *auth_data,
                    ) implies !versions@[i as int - 1].data.package_information.version.spec_lt(
                    versions@[j].data.package_information.version,
                ) by {
                    if j < i - 1 {
                        assert(!versions@[i as int - 1].data.package_information.version.spec_lt(
                            versions@[j].data.package_information.version,
                        ));
                    } else if j == i - 1 {
                        crate::version::lemma_lt_irreflexive(
                            versions@[j].data.package_information.version,
                        );
                    }
                }
            }
            return Some(i - 1);
        }
        i = i - 1;
    }
    None
}

/// The file name a served package download announces:
/// `<id>_v<version>.tar`.
pub open spec fn spec_download_filename(package_id: Seq<u8>, version: Seq<u8>) -> Seq<u8> {
    package_id + seq![95u8, 118u8] + version + seq![46u8, 116u8, 97u8, 114u8]
}

/// Builds the file name a served package download announces.
pub fn download_filename(package_id: &[u8], version: &[u8]) -> (r: Vec<u8>)
    ensures
        r@ == spec_download_filename(package_id@, version@),
{
    let mut out = vstd::slice::slice_to_vec(package_id);
    out.push(95);
    out.push(118);
    let mut v = vstd::slice::slice_to_vec(version);
    out.append(&mut v);
    out.push(46);
    out.push(116);
    out.push(97);
    out.push(114);
    proof {
        assert(out@ =~= spec_download_filename(package_id@, version@));
    }
    out
}

/// The location of one package version's download:
/// `<host>/<id>/<urlVersion>/`.
pub open spec fn spec_download_location(host: Seq<u8>, id: Seq<u8>, v: Version) -> Seq<u8> {
    host + seq![47u8] + id + seq![47u8] + spec_version_url(v) + seq![47u8]
}

/// Builds the location of one package version's download.
pub fn download_location(host: &[u8], package_id: &[u8], v: &Version) -> (r: Vec<u8>)
    ensures
        r@ == spec_download_location(host@, package_id@, *v),
{
    let mut out = vstd::slice::slice_to_vec(host);
    out.push(47);
    let mut id = vstd::slice::slice_to_vec(package_id);
    out.append(&mut id);
    out.push(47);
    let mut ver = v.format_url();
    out.append(&mut ver);
    out.push(47);
    proof {
        assert(out@ =~= spec_download_location(host@, package_id@, *v));
    }
    out
}

/// The location a `packageName` form parameter redirects to:
/// `<host>/<name>/` with the version segment when one was passed.
pub open spec fn spec_package_location(
    host: Seq<u8>,
    name: Seq<u8>,
    version: Option<Seq<u8>>,
) -> Seq<u8> {
    match version {
        Some(v) => host + seq![47u8] + name + seq![47u8] + v + seq![47u8],
        None => host + seq![47u8] + name + seq![47u8],
    }
}

/// Builds the location a `packageName` form parameter redirects to.
pub fn package_location(host: &[u8], name: &[u8], version: Option<&Vec<u8>>) -> (r: Vec<u8>)
    ensures
        r@ == spec_package_location(
            host@,
            name@,
            match version {
                Some(v) => Some(v@),
                None => None,
            },
        ),
{
    let mut out = vstd::slice::slice_to_vec(host);
    out.push(47);
    let mut n = vstd::slice::slice_to_vec(name);
    out.append(&mut n);
    out.push(47);
    match version {
        Some(v) => {
            let mut ver = vstd::slice::slice_to_vec(v.as_slice());
            out.append(&mut ver);
            out.push(47);
        },
        None => {},
    }
    proof {
        assert(out@ =~= spec_package_location(
            host@,
            name@,
            match version {
                Some(v) => Some(v@),
                None => None,
            },
        ));
    }
    out
}

} // verus!
