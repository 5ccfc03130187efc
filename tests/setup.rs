use releaser::config::{Config, Package, ReleaseType};
use releaser::package::{bump_package_version, get_package_info, PackageError};
use releaser::repo::{get_owner_repo, RepoIdError};

#[test]
fn owner_repo_split() {
    match get_owner_repo("tmayoff/releaser") {
        Ok((owner, repo)) => {
            assert_eq!(owner, "tmayoff");
            assert_eq!(repo, "releaser");
        }
        Err(_) => panic!("expected owner and repo"),
    }
    assert!(matches!(get_owner_repo("releaser"), Err(RepoIdError::NotOwnerRepo)));
    assert!(matches!(get_owner_repo("a/b/c"), Err(RepoIdError::NotOwnerRepo)));
}

#[test]
fn default_config_is_empty() {
    let mut c = Config::default();
    assert_eq!(c.packages.len(), 0);
    c.packages.insert(".".to_string(), Package { release_type: ReleaseType::Node });
    assert!(matches!(c.packages.get(".").map(|p| p.release_type), Some(ReleaseType::Node)));
}

#[test]
fn package_info_for_cargo() {
    match get_package_info(ReleaseType::Cargo, Some("releaser"), Some("0.1.0")) {
        Ok(info) => {
            assert_eq!(info.name, "releaser");
            assert_eq!(info.version, "0.1.0");
        }
        Err(_) => panic!("expected package info"),
    }
    match get_package_info(ReleaseType::Cargo, Some("releaser"), None) {
        Ok(info) => assert_eq!(info.version, ""),
        Err(_) => panic!("expected package info"),
    }
    assert!(matches!(get_package_info(ReleaseType::Cargo, None, None), Err(PackageError::MissingName)));
    assert!(matches!(get_package_info(ReleaseType::Node, Some("x"), None), Err(PackageError::Unsupported)));
}

#[test]
fn bump_supports_cargo_only() {
    assert!(bump_package_version(ReleaseType::Cargo).is_ok());
    assert!(matches!(bump_package_version(ReleaseType::Node), Err(PackageError::Unsupported)));
}
