use depotgamedl::archive::first_zip_member;
use depotgamedl::parser::{
    bundle_unopenable, import_failure, import_success, parse_lua, scan_bundle, script_missing,
    script_unreadable, unsupported_import, game_name_from_details,
};
use depotgamedl::json::Json;
use std::io::{Cursor, Write};
use zip::write::SimpleFileOptions;

fn zip_of(members: &[(&str, &[u8])]) -> Vec<u8> {
    let mut w = zip::ZipWriter::new(Cursor::new(Vec::new()));
    for (name, data) in members {
        w.start_file(*name, SimpleFileOptions::default()).unwrap();
        w.write_all(data).unwrap();
    }
    w.finish().unwrap().into_inner()
}

#[test]
fn first_member_of_a_manifest_archive() {
    let data = zip_of(&[("z", b"manifest bytes"), ("y", b"other")]);
    assert_eq!(first_zip_member(data), Some((b"manifest bytes".to_vec(), true)));
    assert_eq!(first_zip_member(zip_of(&[])), None);
    assert_eq!(first_zip_member(b"not a zip".to_vec()), None);
}

#[test]
fn bundle_contents() {
    let data = zip_of(&[
        ("__MACOSX/._a.lua", b"junk"),
        ("a.lua", b"addappid(1, 0, \"k\")"),
        ("1_2.manifest", b"M1"),
        ("readme.txt", b"hello"),
        ("b.lua", &[0xff, 0xfe]),
        ("c.lua", b"addappid(3, 0, \"z\")"),
        ("__MACOSX/1_3.manifest", b"junk"),
        ("3_4.manifest", b"M2"),
    ]);
    let b = scan_bundle(data).unwrap();
    assert_eq!(b.lua_content.as_deref(), Some("addappid(3, 0, \"z\")"));
    assert_eq!(
        b.manifests,
        vec![
            ("1_2.manifest".to_string(), b"M1".to_vec(), true),
            ("3_4.manifest".to_string(), b"M2".to_vec(), true)
        ]
    );
}

#[test]
fn broken_bundle_reports_parse_failure() {
    let e = scan_bundle(b"PK garbage".to_vec()).err().unwrap();
    let reason = zip::ZipArchive::new(Cursor::new(b"PK garbage".to_vec())).err().unwrap();
    assert_eq!(e, format!("无法解析 zip: {}", reason));
}

#[test]
fn import_failures() {
    let r = script_unreadable("denied");
    assert!(!r.success);
    assert_eq!(r.message, "无法读取文件: denied");
    assert_eq!(bundle_unopenable("gone").message, "无法打开 zip: gone");
    assert_eq!(unsupported_import().message, "不支持的格式");
    assert_eq!(script_missing().message, "未找到 lua 文件");
    let f = import_failure("x".to_string());
    assert!(f.game_info.is_none() && f.game_name.is_empty() && !f.has_previous_cache && !f.has_local_manifests);
}

#[test]
fn import_success_result() {
    let info = parse_lua("addappid(480, 1, \"k\")").unwrap();
    let r = import_success(info, "file name".to_string(), Some("Spacewar".to_string()), true, false);
    assert!(r.success);
    assert_eq!(r.game_name, "Spacewar");
    assert_eq!(r.message, "清单已就绪，AppID: Some(480)");
    assert!(r.has_previous_cache && !r.has_local_manifests);
    assert_eq!(r.game_info.unwrap().appid, Some(480));
    let empty = parse_lua("").unwrap();
    let r2 = import_success(empty, "file name".to_string(), Some(String::new()), false, true);
    assert_eq!(r2.game_name, "file name");
    assert_eq!(r2.message, "清单已就绪，AppID: None");
}

#[test]
fn store_names() {
    let reply = Json::Object(vec![(
        "480".to_string(),
        Json::Object(vec![(
            "data".to_string(),
            Json::Object(vec![("name".to_string(), Json::Str("Spacewar".to_string()))]),
        )]),
    )]);
    assert_eq!(game_name_from_details(480, &reply), Some("Spacewar".to_string()));
    assert_eq!(game_name_from_details(481, &reply), None);
}

/// A zip whose stored members are written uncompressed, with one byte of
/// the member `bad` changed so that its checksum no longer matches.
fn zip_with_corrupt(members: &[(&str, &[u8])], bad: &str) -> Vec<u8> {
    let mut w = zip::ZipWriter::new(Cursor::new(Vec::new()));
    let opts = SimpleFileOptions::default().compression_method(zip::CompressionMethod::Stored);
    for (name, data) in members {
        w.start_file(*name, opts).unwrap();
        w.write_all(data).unwrap();
    }
    let mut bytes = w.finish().unwrap().into_inner();
    let content = members.iter().find(|(n, _)| *n == bad).unwrap().1;
    let at = bytes.windows(content.len()).position(|win| win == content).unwrap();
    bytes[at] ^= 0x01;
    bytes
}

#[test]
fn member_failing_part_way_is_still_stored() {
    let data = zip_with_corrupt(
        &[("5_6.manifest", b"BROKEN-MANIFEST"), ("7_8.manifest", b"GOOD")],
        "5_6.manifest",
    );
    let b = scan_bundle(data.clone()).unwrap();
    assert_eq!(b.manifests.len(), 2);
    assert_eq!(b.manifests[0].0, "5_6.manifest");
    assert!(!b.manifests[0].2);
    assert_eq!(b.manifests[1], ("7_8.manifest".to_string(), b"GOOD".to_vec(), true));
    match first_zip_member(data) {
        Some((_, complete)) => assert!(!complete),
        None => panic!("the first member opens"),
    }
}
