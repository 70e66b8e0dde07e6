use dsh_desktop::bootstrap::{
    accept_remote, accept_seed, bootstrap_address, check_body_size, check_declared_size, fallback_to_seed,
    release_origin, DEFAULT_ORIGIN, MAX_BOOTSTRAP_BYTES,
};
use dsh_desktop::manifest::{AssetRef, Bootstrap, ARCH, PLATFORM, PRODUCT_ID, SHA256_HEX_LENGTH};

fn seed(unpublished: bool) -> Bootstrap {
    Bootstrap {
        schema: 1,
        product: PRODUCT_ID.into(),
        platform: PLATFORM.into(),
        arch: ARCH.into(),
        release: "0.1.0".into(),
        minimum_launcher: "0.1.0".into(),
        manifest: AssetRef {
            object_key: "releases/0.1.0/windows-x64/release-index.json".into(),
            bytes: if unpublished { 0 } else { 10 },
            sha256: if unpublished { "0".repeat(SHA256_HEX_LENGTH) } else { "b".repeat(SHA256_HEX_LENGTH) },
        },
        catalog: None,
    }
}

#[test]
fn origin_keeps_the_single_project_prefix() {
    let origin = release_origin().expect("origin");
    assert_eq!(origin.text, DEFAULT_ORIGIN);
    assert_eq!(
        bootstrap_address(&origin.text).expect("URL").path,
        "/atlas-dsh-desktop/bootstrap/windows-x64.json"
    );
    assert_eq!(origin.host.as_deref(), Some("shared-public-assets.oss-cn-beijing.aliyuncs.com"));
    assert_eq!(
        bootstrap_address(DEFAULT_ORIGIN).expect("URL").text,
        "https://shared-public-assets.oss-cn-beijing.aliyuncs.com/atlas-dsh-desktop/bootstrap/windows-x64.json"
    );
    assert_eq!(bootstrap_address("not a url").err(), Some("cannot resolve bootstrap URL".to_string()));
}

#[test]
fn bootstrap_size_limits() {
    assert!(check_declared_size(None).is_ok());
    assert!(check_declared_size(Some(MAX_BOOTSTRAP_BYTES)).is_ok());
    assert_eq!(
        check_declared_size(Some(MAX_BOOTSTRAP_BYTES + 1)).err(),
        Some("bootstrap exceeds the client maximum size".to_string())
    );
    assert!(check_body_size(1024 * 1024).is_ok());
    assert!(check_body_size(1024 * 1024 + 1).is_err());
}

#[test]
fn remote_and_seed_acceptance() {
    assert_eq!(accept_remote(seed(false)), Ok(seed(false)));
    let mut broken = seed(false);
    broken.schema = 2;
    assert_eq!(accept_remote(broken.clone()).err(), Some("bootstrap is invalid".to_string()));
    assert_eq!(accept_seed(seed(true)), Ok(seed(true)));
    assert_eq!(accept_seed(broken).err(), Some("embedded bootstrap is invalid".to_string()));
}

#[test]
fn seed_stands_in_only_for_a_real_release() {
    assert_eq!(
        fallback_to_seed("cannot download bootstrap", Ok(seed(true))).err(),
        Some("runtime bootstrap is unavailable: cannot download bootstrap".to_string())
    );
    assert_eq!(fallback_to_seed("x", Ok(seed(false))), Ok(seed(false)));
    let mut broken = seed(false);
    broken.release = String::new();
    assert_eq!(fallback_to_seed("x", Ok(broken)).err(), Some("embedded seed is invalid".to_string()));
    assert_eq!(fallback_to_seed("x", Err("embedded bootstrap is invalid".into())).err(), Some("embedded bootstrap is invalid".to_string()));
}
