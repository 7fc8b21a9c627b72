use depotgamedl::downloader::session_document;
use depotgamedl::downloader::{
    announce_decision, any_manifest_file, attempt_exit_code, cache_present, cached_game_name,
    cached_ids, download_args, download_hosts, download_readiness, download_should_stop,
    extract_depot_id_from_completed, is_c_drive, line_event, needs_forced_kill, LineAssembler,
    LineEvent,
};
use depotgamedl::json::Json;

#[test]
fn c_drive_paths() {
    assert!(is_c_drive("C:\\Program Files\\App"));
    assert!(is_c_drive("c:/games"));
    assert!(!is_c_drive("D:\\Games"));
    assert!(!is_c_drive("/opt/app"));
    assert!(!is_c_drive(""));
    assert!(!is_c_drive("cd"));
    assert!(!is_c_drive("./C:/games"));
    assert!(is_c_drive("C:"));
}

#[test]
fn completed_depot_lines() {
    assert_eq!(extract_depot_id_from_completed("Depot 228989 - download completed"), Some(228989));
    assert_eq!(extract_depot_id_from_completed("Depot 228989 completed"), Some(228989));
    assert_eq!(extract_depot_id_from_completed("completed Depot 12abc"), Some(12));
    assert_eq!(extract_depot_id_from_completed("Depot 228989 - downloading"), None);
    assert_eq!(extract_depot_id_from_completed("completed depot 5"), None);
    assert_eq!(extract_depot_id_from_completed("Depot x completed"), None);
    assert_eq!(extract_depot_id_from_completed("Depot 99999999999 completed"), None);
    assert_eq!(extract_depot_id_from_completed("Depot 7 Depot 8 completed"), Some(7));
}

#[test]
fn completed_line_round_trip() {
    for id in [0u32, 1, 730, 228989, u32::MAX] {
        let line = format!("Depot {} completed", id);
        assert_eq!(extract_depot_id_from_completed(&line), Some(id));
    }
}

#[test]
fn output_is_cut_at_line_ends_and_trimmed() {
    let mut a = LineAssembler::new();
    let mut lines = Vec::new();
    for &b in b"  first line \r\nsecond\rthird  " {
        if let Some(l) = a.push_byte(b) {
            lines.push(l);
        }
    }
    assert_eq!(lines, vec!["first line".to_string(), "".to_string(), "second".to_string()]);
    assert_eq!(a.finish(), "third");
}

#[test]
fn output_bytes_are_latin1() {
    let mut a = LineAssembler::new();
    for &b in &[0x41u8, 0xe9, 0x42] {
        assert!(a.push_byte(b).is_none());
    }
    assert_eq!(a.finish(), "A\u{e9}B");
}

#[test]
fn line_meanings() {
    assert!(matches!(line_event(""), LineEvent::Nothing));
    assert!(matches!(line_event("Depot 5 completed"), LineEvent::DepotCompleted(5)));
    match line_event("Downloading 10%") {
        LineEvent::Log(l) => assert_eq!(l, "Downloading 10%"),
        _ => panic!("expected a log line"),
    }
}

#[test]
fn server_is_announced_once() {
    assert_eq!(announce_decision(" 12%|#####", false), (true, true));
    assert_eq!(announce_decision(" 13%|#####", true), (false, true));
    assert_eq!(announce_decision("no progress", false), (false, false));
}

#[test]
fn readiness_errors_in_order() {
    assert_eq!(
        download_readiness(false, false, false, "x"),
        Err("depot 目录中没有 manifest 文件，请先导入清单并选择版本".to_string())
    );
    assert_eq!(
        download_readiness(true, false, false, "x"),
        Err("depot 目录中没有 config.vdf 文件".to_string())
    );
    assert_eq!(
        download_readiness(true, true, false, "C:\\tool\\DepotDownloader.exe"),
        Err("找不到 DepotDownloader.exe: C:\\tool\\DepotDownloader.exe".to_string())
    );
    assert_eq!(download_readiness(true, true, true, "x"), Ok(()));
}

#[test]
fn hosts_and_arguments() {
    assert_eq!(download_hosts(true), vec!["China", "Public"]);
    assert_eq!(download_hosts(false), vec!["Public"]);
    assert_eq!(
        download_args("Public", "D:\\Games\\X", "C:\\cache\\depot"),
        vec!["-l", "-u", "Public", "-o", "D:\\Games\\X", "app", "-p", "C:\\cache\\depot"]
    );
    assert!(download_should_stop(0, false));
    assert!(download_should_stop(1, true));
    assert!(!download_should_stop(1, false));
    assert_eq!(attempt_exit_code(true, Some(3)), 3);
    assert_eq!(attempt_exit_code(true, None), 1);
    assert_eq!(attempt_exit_code(false, Some(0)), 1);
    assert!(needs_forced_kill(true, false));
    assert!(needs_forced_kill(false, false));
    assert!(!needs_forced_kill(false, true));
}

fn names(v: &[&str]) -> Vec<String> {
    v.iter().map(|s| s.to_string()).collect()
}

#[test]
fn cache_detection() {
    assert!(any_manifest_file(&names(&["config.vdf", "1_2.manifest"])));
    assert!(!any_manifest_file(&names(&["config.vdf", "manifest"])));
    assert!(cache_present(true, true, &names(&["1_2.manifest"])));
    assert!(!cache_present(true, false, &names(&["1_2.manifest"])));
    assert!(!cache_present(false, true, &names(&["1_2.manifest"])));
}

#[test]
fn saved_session_fields() {
    let doc = Json::Object(vec![
        ("game_name".to_string(), Json::Str("Portal".to_string())),
        (
            "prepared_depot_ids".to_string(),
            Json::Array(vec![
                Json::Number(Some(401)),
                Json::Str("x".to_string()),
                Json::Number(None),
                Json::Number(Some(4294967297)),
            ]),
        ),
    ]);
    assert_eq!(cached_game_name(&doc), "Portal");
    assert_eq!(cached_ids(&doc, &"prepared_depot_ids".to_string()), vec![401, 1]);
    assert_eq!(cached_ids(&doc, &"completed_depot_ids".to_string()), Vec::<u32>::new());
    assert_eq!(cached_game_name(&Json::Null), "");
    let doc2 = Json::Object(vec![("game_name".to_string(), Json::Number(Some(3)))]);
    assert_eq!(cached_game_name(&doc2), "");
}

#[test]
fn lines_never_hold_line_ends() {
    let mut a = LineAssembler::new();
    for &b in b"a\r\n\n\rb c\n \r" {
        if let Some(l) = a.push_byte(b) {
            assert!(!l.contains('\r') && !l.contains('\n'));
            assert_eq!(l.trim(), l);
        }
    }
    let last = a.finish();
    assert_eq!(last, "");
}

#[test]
fn saved_session_reads_back() {
    let info = Json::Object(vec![("appid".to_string(), Json::Number(Some(480)))]);
    let doc = session_document("Spacewar".to_string(), info, &vec![481, 482], &vec![]);
    assert_eq!(cached_game_name(&doc), "Spacewar");
    assert_eq!(cached_ids(&doc, &"prepared_depot_ids".to_string()), vec![481, 482]);
    assert_eq!(cached_ids(&doc, &"completed_depot_ids".to_string()), Vec::<u32>::new());
    match doc.get(&"game_info".to_string()) {
        Some(Json::Object(m)) => assert_eq!(m.len(), 1),
        _ => panic!("game_info is kept"),
    }
}
