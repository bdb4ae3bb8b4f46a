//! The error taxonomy surfaced to the HTTP layer, and the status code
//! each error answers with.

use vstd::prelude::*;
use crate::http::download::DownloadOutcome;
use crate::version::Version;

verus! {

/// An error as the HTTP layer reports it. The transport wrapper around
/// an I/O failure has no fixed status of its own and stays with the
/// adapter.
#[derive(Debug)]
pub enum Error {
    AccessDenied,
    FileNotFound(Vec<u8>),
    NotAcceptable(Vec<u8>),
    UnknownPackage(Vec<u8>),
    UnknownPackageVersion(Vec<u8>, Version),
    PackageReadFailed(Vec<u8>),
    PaymentRequired(Vec<u8>, Version),
    PackageListUnavailable,
}

impl Error {
    /// The status code of the error: denied access challenges with 401,
    /// anything missing is 404, an unacceptable accept header 406, a
    /// read failure 500, a payment-required upgrade 402, and an absent
    /// inventory 503.
    pub fn status_code(&self) -> (r: u16)
        ensures
            r == match *self {
                Error::AccessDenied => 401u16,
                Error::FileNotFound(_) => 404u16,
                Error::NotAcceptable(_) => 406u16,
                Error::UnknownPackage(_) => 404u16,
                Error::UnknownPackageVersion(_, _) => 404u16,
                Error::PackageReadFailed(_) => 500u16,
                Error::PaymentRequired(_, _) => 402u16,
                Error::PackageListUnavailable => 503u16,
            },
    {
        match self {
            Error::AccessDenied => 401,
            Error::FileNotFound(_) => 404,
            Error::NotAcceptable(_) => 406,
            Error::UnknownPackage(_) => 404,
            Error::UnknownPackageVersion(_, _) => 404,
            Error::PackageReadFailed(_) => 500,
            Error::PaymentRequired(_, _) => 402,
            Error::PackageListUnavailable => 503,
        }
    }
}

/// The error a refused download outcome surfaces, carrying the package
/// and version it concerns; a served outcome surfaces none.
pub fn download_error(
    outcome: &DownloadOutcome,
    package_id: &[u8],
    version: &Version,
) -> (r: Option<Error>)
    ensures
        match *outcome {
            DownloadOutcome::Serve { .. } => r is None,
            DownloadOutcome::UnknownPackageVersion => r matches Some(e) && e matches
                Error::UnknownPackageVersion(id, v) && id@ == package_id@ && v == *version,
            DownloadOutcome::PackageReadFailed => r matches Some(e) && e matches
                Error::PackageReadFailed(id) && id@ == package_id@,
            DownloadOutcome::PaymentRequired => r matches Some(e) && e matches
                Error::PaymentRequired(id, v) && id@ == package_id@ && v == *version,
            DownloadOutcome::AccessDenied => r matches Some(e) && e is AccessDenied,
            DownloadOutcome::UnknownPackage => r matches Some(e) && e matches
                Error::UnknownPackage(id) && id@ == package_id@,
        },
{
    match outcome {
        DownloadOutcome::Serve { .. } => None,
        DownloadOutcome::UnknownPackageVersion => Some(
            Error::UnknownPackageVersion(vstd::slice::slice_to_vec(package_id), *version),
        ),
        DownloadOutcome::PackageReadFailed => Some(
            Error::PackageReadFailed(vstd::slice::slice_to_vec(package_id)),
        ),
        DownloadOutcome::PaymentRequired => Some(
            Error::PaymentRequired(vstd::slice::slice_to_vec(package_id), *version),
        ),
        DownloadOutcome::AccessDenied => Some(Error::AccessDenied),
        DownloadOutcome::UnknownPackage => Some(
            Error::UnknownPackage(vstd::slice::slice_to_vec(package_id)),
        ),
    }
}

} // verus!
