//! Name and version of a package, for the release types that support them.
use vstd::prelude::*;
use crate::config::ReleaseType;

verus! {

/// Name and version of a package.
pub struct PackageInfo {
    pub name: String,
    pub version: String,
}

/// Why package information cannot be had.
pub enum PackageError {
    /// This release type is not supported yet.
    Unsupported,
    /// The manifest names no package.
    MissingName,
}

/// Bumps the version of a package; only Cargo packages are supported, and
/// for them there is nothing to change yet.
pub fn bump_package_version(release_type: ReleaseType) -> (r: Result<(), PackageError>)
    ensures
        r is Ok <==> release_type == ReleaseType::Cargo,
        r is Err ==> (r matches Err(PackageError::Unsupported)),
{
    match release_type {
        ReleaseType::Cargo => Ok(()),
        ReleaseType::Node => Err(PackageError::Unsupported),
    }
}

/// Package information from the `package.name` and `package.version` entries
/// of a manifest: the name is required, a missing version counts as empty.
/// Only Cargo packages are supported.
pub fn get_package_info(release_type: ReleaseType, name: Option<&str>, version: Option<&str>) -> (r: Result<
    PackageInfo,
    PackageError,
>)
    ensures
        release_type == ReleaseType::Node ==> (r matches Err(PackageError::Unsupported)),
        release_type == ReleaseType::Cargo && name is None ==> (r matches Err(PackageError::MissingName)),
        release_type == ReleaseType::Cargo && name is Some ==> (r matches Ok(info) && info.name@
            == name->0@ && (version matches Some(v) ==> info.version@ == v@) && (version is None
            ==> info.version@.len() == 0)),
{
    match release_type {
        ReleaseType::Node => Err(PackageError::Unsupported),
        ReleaseType::Cargo => match name {
            None => Err(PackageError::MissingName),
            Some(n) => {
                let v = match version {
                    Some(v) => v.to_owned(),
                    None => String::new(),
                };
                Ok(PackageInfo { name: n.to_owned(), version: v })
            },
        },
    }
}

} // verus!
