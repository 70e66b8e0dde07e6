use std::cmp::Ordering;

use dsh_desktop::official::{
    check_download_size, check_install_version, check_metadata_size, node_archive_dir, packument_url,
    MAX_DOWNLOAD_BYTES, MAX_METADATA_BYTES,
};
use dsh_desktop::official::{
    compare_versions, package_at, packument_address, versions, EntryAction, ZipEntryInfo, ZipGuard,
    MAX_ARCHIVE_ENTRIES, MAX_EXTRACTED_BYTES, MAX_EXTRACTED_FILE_BYTES, PACKAGE,
};

fn file(name: &str, size: u64) -> ZipEntryInfo {
    ZipEntryInfo { name: name.into(), unix_mode: None, is_dir: false, size }
}

#[test]
fn semantic_order_of_registry_versions() {
    assert_eq!(compare_versions("1.10.0", "1.9.0"), Ordering::Greater);
    assert_eq!(compare_versions("1.0.0-alpha", "1.0.0"), Ordering::Less);
    assert_eq!(compare_versions("2.0.0", "2.0.0"), Ordering::Equal);
    assert_eq!(compare_versions("junk", "0.0.1"), Ordering::Less);
    assert_eq!(compare_versions("junk", "other junk"), Ordering::Equal);
}

#[test]
fn registry_versions_are_filtered_and_sorted_newest_first() {
    let keys = vec![
        "0.9.0".to_string(),
        "1.0.0-beta.1".to_string(),
        "1.0.0".to_string(),
        "latest".to_string(),
        "1.10.0".to_string(),
        "1.2".to_string(),
    ];
    assert_eq!(versions(keys), vec!["1.10.0", "1.0.0", "1.0.0-beta.1", "0.9.0"]);
    assert!(versions(Vec::new()).is_empty());
}

#[test]
fn registry_document_address() {
    assert_eq!(packument_address("https://registry.npmjs.org/"), "https://registry.npmjs.org/@deepseek-ai%2fdsh");
    assert_eq!(packument_address("https://r.example//"), "https://r.example/@deepseek-ai%2fdsh");
    assert_eq!(packument_address("https://r.example"), "https://r.example/@deepseek-ai%2fdsh");
    assert_eq!(package_at("1.2.3"), format!("{PACKAGE}@1.2.3"));
}

#[test]
fn zip_guard_accepts_safe_entries_and_tracks_size() {
    assert!(ZipGuard::archive_size_ok(MAX_ARCHIVE_ENTRIES).is_ok());
    assert_eq!(
        ZipGuard::archive_size_ok(MAX_ARCHIVE_ENTRIES + 1).err(),
        Some("runtime archive has too many entries".to_string())
    );
    let mut guard = ZipGuard::new();
    assert_eq!(
        guard.accept(ZipEntryInfo { name: "node/".into(), unix_mode: None, is_dir: true, size: 0 }),
        Ok(EntryAction::CreateDir("node/".into()))
    );
    assert_eq!(guard.accept(file("node/node.exe", 10)), Ok(EntryAction::WriteFile("node/node.exe".into(), 10)));
    assert_eq!(guard.extracted_bytes, 10);
    assert_eq!(guard.accept(file("node/node.exe", 10)).err(), Some("duplicate ZIP entry node/node.exe".to_string()));
    assert_eq!(guard.accept(file("../evil", 1)).err(), Some("unsafe ZIP entry ../evil".to_string()));
    assert_eq!(guard.accept(file("C:/evil", 1)).err(), Some("unsafe ZIP entry C:/evil".to_string()));
    assert_eq!(guard.accept(file("/evil", 1)).err(), Some("unsafe ZIP entry /evil".to_string()));
    assert_eq!(
        guard.accept(ZipEntryInfo { name: "link".into(), unix_mode: Some(0o120777), is_dir: false, size: 1 }).err(),
        Some("symbolic links are not accepted in runtime archives".to_string())
    );
    assert_eq!(
        guard.accept(file("big", MAX_EXTRACTED_FILE_BYTES + 1)).err(),
        Some("ZIP entry exceeds per-file limit".to_string())
    );
    assert_eq!(guard.names.len(), 2);
}

#[test]
fn zip_guard_limits_the_total() {
    let mut guard = ZipGuard::new();
    let mut index = 0;
    while guard.extracted_bytes + MAX_EXTRACTED_FILE_BYTES <= MAX_EXTRACTED_BYTES {
        assert!(guard.accept(file(&format!("part{index}"), MAX_EXTRACTED_FILE_BYTES)).is_ok());
        index += 1;
    }
    assert_eq!(guard.extracted_bytes, MAX_EXTRACTED_BYTES);
    assert_eq!(
        guard.accept(file("one-more", 1)).err(),
        Some("runtime archive exceeds extracted size limit".to_string())
    );
    assert!(ZipGuard::check_copied(5, 5).is_ok());
    assert_eq!(ZipGuard::check_copied(4, 5).err(), Some("ZIP entry size mismatch".to_string()));
}

#[test]
fn registry_url_and_download_limits() {
    let url = packument_url("https://registry.npmjs.org/").expect("url");
    assert_eq!(url.text, "https://registry.npmjs.org/@deepseek-ai%2fdsh");
    assert_eq!(url.host.as_deref(), Some("registry.npmjs.org"));
    assert_eq!(packument_url("nonsense").err(), Some("官方版本来源地址无效".to_string()));
    assert!(check_metadata_size(MAX_METADATA_BYTES as usize).is_ok());
    assert_eq!(check_metadata_size(MAX_METADATA_BYTES as usize + 1).err(), Some("版本列表过大".to_string()));
    assert!(check_download_size(MAX_DOWNLOAD_BYTES as usize).is_ok());
    assert!(check_download_size(MAX_DOWNLOAD_BYTES as usize + 1).is_err());
    assert_eq!(node_archive_dir(), "node-v24.19.0-win-x64");
}

#[test]
fn install_version_must_be_semantic() {
    assert!(check_install_version("1.2.3").is_ok());
    assert!(check_install_version("1.2.3-beta.1").is_ok());
    assert_eq!(
        check_install_version("1.2").err(),
        Some(format!("指定的 Harness 版本无效: {}", semver::Version::parse("1.2").unwrap_err()))
    );
}
