use std::cmp::Ordering;

use dsh_desktop::manifest::{
    compare_versions, is_safe_relative_path, validate_asset, validate_release, validate_target, AssetRef, Bootstrap,
    CatalogRelease, DoctorSpec, ManifestError, ReleaseCatalog, ReleaseManifest, RuntimeComponent, ARCH, PLATFORM,
    PRODUCT_ID, SHA256_HEX_LENGTH,
};

fn asset() -> AssetRef {
    AssetRef {
        object_key: "releases/0.1.0/windows-x64/runtime.zip".into(),
        bytes: 1,
        sha256: "a".repeat(SHA256_HEX_LENGTH),
    }
}

fn component(id: &str) -> RuntimeComponent {
    RuntimeComponent {
        id: id.into(),
        version: "0.1.0".into(),
        asset: asset(),
        archive: "zip".into(),
        install_root: String::new(),
        doctor: DoctorSpec {
            program: "node.exe".into(),
            args: vec!["--version".into()],
            timeout_seconds: 30,
        },
        licenses: vec!["THIRD_PARTY_NOTICES.md".into()],
    }
}

fn manifest() -> ReleaseManifest {
    ReleaseManifest {
        schema: 1,
        product: PRODUCT_ID.into(),
        release: "0.1.0".into(),
        platform: PLATFORM.into(),
        arch: ARCH.into(),
        minimum_launcher: "0.1.0".into(),
        components: vec![component("runtime")],
    }
}

fn bootstrap() -> Bootstrap {
    Bootstrap {
        schema: 1,
        product: PRODUCT_ID.into(),
        platform: PLATFORM.into(),
        arch: ARCH.into(),
        release: "0.1.0".into(),
        minimum_launcher: "0.1.0".into(),
        manifest: asset(),
        catalog: None,
    }
}

#[test]
fn rejects_unsafe_object_keys() {
    for object_key in ["../runtime.zip", "C:/runtime.zip", "/runtime.zip", "runtime/../file.zip"] {
        let mut candidate = asset();
        candidate.object_key = object_key.into();
        assert!(validate_asset(&candidate, "test").is_err(), "{object_key}");
    }
}

#[test]
fn validates_exact_platform_closure() {
    assert!(manifest().validate().is_ok());
}

#[test]
fn compares_versions_semantically() {
    assert_eq!(compare_versions("0.10.0", "0.9.0").expect("version"), Ordering::Greater);
    assert_eq!(compare_versions("1.0.0-alpha", "1.0.0").expect("version"), Ordering::Less);
    assert!(compare_versions("1.0", "1.0.0").is_err());
    assert_eq!(compare_versions("1.0.0-alpha.10", "1.0.0-alpha.2").expect("version"), Ordering::Greater);
    assert!(compare_versions("1.0.0-alpha..1", "1.0.0").is_err());
}

#[test]
fn version_comparison_is_antisymmetric_and_reflexive_on_examples() {
    for (left, right) in [("1.0.0", "1.0.1"), ("1.0.0-beta", "1.0.0-alpha"), ("2.0.0-rc.1", "2.0.0-rc.1.1")] {
        let forward = compare_versions(left, right).expect("version");
        let backward = compare_versions(right, left).expect("version");
        assert_eq!(forward, backward.reverse());
        assert_eq!(compare_versions(left, left).expect("version"), Ordering::Equal);
    }
    assert_eq!(compare_versions("1.0.0-alpha", "1.0.0-1").expect("version"), Ordering::Greater);
    assert_eq!(compare_versions("1.0.0-alpha", "1.0.0-alpha.1").expect("version"), Ordering::Less);
    assert_eq!(compare_versions("1.0.0-alpha", "1.0.0-beta").expect("version"), Ordering::Less);
}

#[test]
fn version_comparison_chains_on_examples() {
    let chain = ["1.0.0-1", "1.0.0-2", "1.0.0-alpha", "1.0.0-alpha.1", "1.0.0", "1.0.1", "1.10.0", "2.0.0"];
    for (i, left) in chain.iter().enumerate() {
        for right in &chain[i + 1..] {
            assert_eq!(compare_versions(left, right).expect("version"), Ordering::Less, "{left} < {right}");
        }
    }
    assert_eq!(compare_versions("1.0.0-01", "1.0.0-1").expect("version"), Ordering::Equal);
}

#[test]
fn invalid_versions_are_reported_with_the_text() {
    assert_eq!(compare_versions("1.0", "1.0.0"), Err("invalid version 1.0".to_string()));
    assert_eq!(compare_versions("1.0.0", "x.0.0"), Err("invalid version x.0.0".to_string()));
    assert!(compare_versions("1.0.0-", "1.0.0").is_err());
    assert!(compare_versions("1.0.0.0", "1.0.0").is_err());
}

#[test]
fn asset_rules_cover_size_digest_and_key() {
    assert!(validate_asset(&asset(), "manifest").is_ok());
    let mut empty = asset();
    empty.bytes = 0;
    assert!(validate_asset(&empty, "manifest").is_err());
    let mut short = asset();
    short.sha256 = "a".repeat(SHA256_HEX_LENGTH - 1);
    assert!(validate_asset(&short, "manifest").is_err());
    let mut upper = asset();
    upper.sha256 = "A".repeat(SHA256_HEX_LENGTH);
    assert!(validate_asset(&upper, "manifest").is_ok());
    let mut not_hex = asset();
    not_hex.sha256 = "g".repeat(SHA256_HEX_LENGTH);
    assert!(validate_asset(&not_hex, "manifest").is_err());
    let mut backslash = asset();
    backslash.object_key = "runtime\\file.zip".into();
    assert!(validate_asset(&backslash, "manifest").is_ok());
}

#[test]
fn relative_paths_stay_inside() {
    assert!(is_safe_relative_path("runtime/node.exe"));
    assert!(!is_safe_relative_path("../node.exe"));
    assert!(!is_safe_relative_path("/node.exe"));
    assert!(!is_safe_relative_path("C:/node.exe"));
    assert!(is_safe_relative_path("runtime/./node.exe"));
    assert!(!is_safe_relative_path("./node.exe"));
    assert!(!is_safe_relative_path(""));
    assert!(!is_safe_relative_path("a\0b"));
}

#[test]
fn target_and_release_rules() {
    assert!(validate_target(PRODUCT_ID, PLATFORM, ARCH).is_ok());
    assert_eq!(validate_target("other", PLATFORM, ARCH), Err(ManifestError::WrongTarget { field: "product" }));
    assert_eq!(validate_target(PRODUCT_ID, "linux", ARCH), Err(ManifestError::WrongTarget { field: "platform" }));
    assert_eq!(validate_target(PRODUCT_ID, PLATFORM, "arm64"), Err(ManifestError::WrongTarget { field: "arch" }));
    assert!(validate_release("0.1.0").is_ok());
    assert_eq!(validate_release(""), Err(ManifestError::EmptyRelease));
    assert_eq!(validate_release("  "), Err(ManifestError::EmptyRelease));
}

#[test]
fn manifest_errors_cover_each_rule() {
    let mut wrong_schema = manifest();
    wrong_schema.schema = 2;
    assert_eq!(wrong_schema.validate(), Err(ManifestError::UnsupportedManifestSchema(2)));
    let mut empty = manifest();
    empty.components.clear();
    assert_eq!(empty.validate(), Err(ManifestError::EmptyComponents));
    let mut duplicate = manifest();
    duplicate.components.push(component("runtime"));
    assert_eq!(duplicate.validate(), Err(ManifestError::DuplicateComponent("runtime".into())));
    let mut bad_component = manifest();
    bad_component.components[0].install_root = "../outside".into();
    assert_eq!(bad_component.validate(), Err(ManifestError::InvalidComponent("runtime".into())));
    let mut no_doctor = manifest();
    no_doctor.components[0].doctor.timeout_seconds = 0;
    assert_eq!(no_doctor.validate(), Err(ManifestError::InvalidComponent("runtime".into())));
}

#[test]
fn bootstrap_and_catalog_validation() {
    assert!(bootstrap().validate().is_ok());
    let mut wrong = bootstrap();
    wrong.schema = 3;
    assert_eq!(wrong.validate(), Err(ManifestError::UnsupportedBootstrapSchema(3)));
    let mut with_catalog = bootstrap();
    let mut bad = asset();
    bad.object_key = "../catalog.json".into();
    with_catalog.catalog = Some(bad);
    assert!(with_catalog.validate().is_err());

    let mut placeholder = bootstrap();
    placeholder.manifest.bytes = 0;
    placeholder.manifest.sha256 = "0".repeat(SHA256_HEX_LENGTH);
    assert!(placeholder.is_placeholder());
    assert!(!bootstrap().is_placeholder());

    let catalog = ReleaseCatalog {
        schema: 1,
        product: PRODUCT_ID.into(),
        platform: PLATFORM.into(),
        arch: ARCH.into(),
        releases: vec![CatalogRelease { release: "0.1.0".into(), minimum_launcher: "0.1.0".into(), manifest: asset() }],
    };
    assert!(catalog.validate().is_ok());
    let mut twice = catalog.clone();
    twice.releases.push(twice.releases[0].clone());
    assert_eq!(twice.validate(), Err(ManifestError::DuplicateComponent("0.1.0".into())));
    let mut none = catalog.clone();
    none.releases.clear();
    assert_eq!(none.validate(), Err(ManifestError::EmptyComponents));
}

#[test]
fn error_messages_match_each_variant() {
    assert_eq!(ManifestError::UnsupportedBootstrapSchema(3).message(), "bootstrap schema 3 is not supported");
    assert_eq!(ManifestError::UnsupportedManifestSchema(12).message(), "manifest schema 12 is not supported");
    assert_eq!(ManifestError::WrongTarget { field: "arch" }.message(), "arch does not match this client");
    assert_eq!(ManifestError::EmptyRelease.message(), "release is empty");
    assert_eq!(
        ManifestError::InvalidAsset { field: "manifest", reason: "bad".into() }.message(),
        "asset manifest is invalid: bad"
    );
    assert_eq!(ManifestError::InvalidComponent("x".into()).message(), "component x is invalid");
    assert_eq!(ManifestError::DuplicateComponent("x".into()).message(), "duplicate component id x");
    assert_eq!(ManifestError::EmptyComponents.message(), "manifest has no components");
}
