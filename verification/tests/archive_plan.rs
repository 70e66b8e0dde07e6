use std::io::{Cursor, Write};

use dsh_desktop::official::{plan_extraction, registry_versions, EntryAction, MAX_METADATA_BYTES};
use zip::write::SimpleFileOptions;
use zip::{CompressionMethod, ZipWriter};

fn options() -> SimpleFileOptions {
    SimpleFileOptions::default().compression_method(CompressionMethod::Stored)
}

fn archive(build: impl FnOnce(&mut ZipWriter<Cursor<Vec<u8>>>)) -> Vec<u8> {
    let mut writer = ZipWriter::new(Cursor::new(Vec::new()));
    build(&mut writer);
    writer.finish().expect("archive").into_inner()
}

#[test]
fn archive_entries_are_planned_in_order() {
    let bytes = archive(|writer| {
        writer.add_directory("node/", options()).expect("dir");
        writer.start_file("node/node.exe", options()).expect("file");
        writer.write_all(b"0123456789").expect("data");
    });
    assert_eq!(
        plan_extraction(&bytes),
        Ok(vec![EntryAction::CreateDir("node/".into()), EntryAction::WriteFile("node/node.exe".into(), 10)])
    );
}

#[test]
fn archive_refusals_come_before_any_write() {
    let escaping = archive(|writer| {
        writer.start_file("ok.txt", options()).expect("file");
        writer.write_all(b"x").expect("data");
        writer.start_file("../evil", options()).expect("file");
        writer.write_all(b"x").expect("data");
    });
    assert_eq!(plan_extraction(&escaping), Err("unsafe ZIP entry ../evil".to_string()));
    let linked = archive(|writer| {
        writer.add_symlink("link", "target", options()).expect("link");
    });
    assert_eq!(plan_extraction(&linked), Err("symbolic links are not accepted in runtime archives".to_string()));
}

#[test]
fn unreadable_archive_carries_the_zip_reason() {
    let garbage = b"not a zip archive at all";
    let reason = zip::ZipArchive::new(Cursor::new(&garbage[..])).unwrap_err();
    assert_eq!(plan_extraction(garbage), Err(format!("invalid ZIP archive: {reason}")));
}

#[test]
fn registry_document_versions() {
    let document = br#"{"name":"@deepseek-ai/dsh","versions":{"1.0.0":{},"latest":{},"2.0.0-beta.1":{},"2.0.0":{}}}"#;
    assert_eq!(registry_versions(document), Ok(vec!["2.0.0".to_string(), "2.0.0-beta.1".to_string(), "1.0.0".to_string()]));
    assert_eq!(registry_versions(b"{not json"), Err("官方版本列表格式无效".to_string()));
    assert_eq!(registry_versions(br#"{"name":"x"}"#), Err("官方版本列表格式无效".to_string()));
    assert_eq!(registry_versions(br#"{"versions":[]}"#), Err("官方版本列表格式无效".to_string()));
    let oversized = vec![b' '; MAX_METADATA_BYTES as usize + 1];
    assert_eq!(registry_versions(&oversized), Err("版本列表过大".to_string()));
}
