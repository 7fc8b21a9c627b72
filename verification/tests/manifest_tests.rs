use depotgamedl::json::Json;
use depotgamedl::manifest::{
    app_info_url, check_manifests_found, collect_prepared_depot_ids_in_order, config_vdf_content,
    extract_manifest_gid, fetch_progress, find_manifest_in_data, has_local_manifest_exec,
    known_manifests_exec, local_progress, manifest_file_name, manifest_url, missing_depots,
    prepare_outcome, request_code_from_reply, request_code_sources, request_code_url, FetchAction,
    ManifestFetch, NeighborLookup,
};
use depotgamedl::downloader::any_manifest_file;
use depotgamedl::parser::{parse_lua, DepotInfo, GameInfo};
use std::collections::HashMap;

fn obj(members: Vec<(&str, Json)>) -> Json {
    Json::Object(members.into_iter().map(|(k, v)| (k.to_string(), v)).collect())
}

fn s(x: &str) -> Json {
    Json::Str(x.to_string())
}

fn depot_with_public(gid: Json) -> Json {
    obj(vec![("manifests", obj(vec![("public", obj(vec![("gid", gid)]))]))])
}

fn game(depots: &[u32], dlcs: &[u32], pinned: &[(u32, u64)], appid: Option<u32>) -> GameInfo {
    GameInfo {
        appid,
        depots: depots
            .iter()
            .map(|&id| DepotInfo { id, sha: "k".to_string(), name: None })
            .collect(),
        dlc_depots: dlcs.to_vec(),
        tokens: HashMap::new(),
        manifest_ids: pinned.iter().cloned().collect(),
    }
}

#[test]
fn gid_of_public_branch() {
    assert_eq!(extract_manifest_gid(&depot_with_public(s("123456789"))), Some(123456789));
    assert_eq!(extract_manifest_gid(&depot_with_public(Json::Number(Some(42)))), Some(42));
    assert_eq!(extract_manifest_gid(&Json::Null), None);
}

#[test]
fn gid_of_first_readable_branch() {
    let d = obj(vec![(
        "manifests",
        obj(vec![
            ("beta", obj(vec![("gid", s("not a number"))])),
            ("public", obj(vec![("size", s("1"))])),
            ("zeta", obj(vec![("gid", s("77"))])),
        ]),
    )]);
    assert_eq!(extract_manifest_gid(&d), Some(77));
    let unreadable = obj(vec![("manifests", obj(vec![("public", obj(vec![("gid", s("x"))]))]))]);
    assert_eq!(extract_manifest_gid(&unreadable), None);
}

#[test]
fn search_finds_nested_depot_and_skips_branches() {
    let data = obj(vec![
        ("branches", obj(vec![("500", depot_with_public(s("1")))])),
        ("data", obj(vec![("x", Json::Array(vec![obj(vec![("500", depot_with_public(s("2")))])]))])),
    ]);
    assert_eq!(find_manifest_in_data(&data, 500), Some(2));
    assert_eq!(find_manifest_in_data(&data, 501), None);
    assert_eq!(find_manifest_in_data(&obj(vec![("500", depot_with_public(s("9")))]), 500), Some(9));
}

#[test]
fn search_stops_below_depth_five() {
    let mut v = obj(vec![("7", depot_with_public(s("5")))]);
    for _ in 0..5 {
        v = obj(vec![("a", v)]);
    }
    assert_eq!(find_manifest_in_data(&v, 7), Some(5));
    let w = obj(vec![("a", v)]);
    assert_eq!(find_manifest_in_data(&w, 7), None);
}

fn app_reply(appid: &str, root: Json) -> Json {
    obj(vec![("data", obj(vec![(appid, root)]))])
}

#[test]
fn known_manifests_from_listings_dlc_and_script() {
    let root = obj(vec![
        ("depots", obj(vec![("11", depot_with_public(s("111"))), ("12", obj(vec![]))])),
        (
            "branches",
            obj(vec![("public", obj(vec![("depots", obj(vec![("12", depot_with_public(s("122"))), ("13", depot_with_public(s("133")))]))]))]),
        ),
        ("hasdepotsindlc", obj(vec![("14", depot_with_public(s("144")))])),
    ]);
    let reply = app_reply("10", root);
    let info = game(&[11, 12, 13, 14, 15, 16], &[], &[(15, 155), (11, 999)], Some(10));
    let found = known_manifests_exec(&info, Some(&reply));
    let mut expected = HashMap::new();
    expected.insert(11, 111);
    expected.insert(13, 133);
    expected.insert(14, 144);
    expected.insert(15, 155);
    // depot 12 is listed in the app's own depots without a manifest: that listing decides.
    assert_eq!(found, expected);
    assert_eq!(missing_depots(&info, &found), vec![12, 16]);
}

#[test]
fn known_manifests_without_reply_use_script() {
    let info = game(&[11, 12], &[], &[(12, 5)], Some(10));
    let found = known_manifests_exec(&info, None);
    assert_eq!(found.len(), 1);
    assert_eq!(found.get(&12), Some(&5));
}

#[test]
fn neighbor_search_asks_above_then_below() {
    let mut found = HashMap::new();
    found.insert(1, 1u64);
    let mut st = NeighborLookup::new(101, found, vec![100, 200]);
    // 100 + 1 is the app itself and is skipped.
    assert_eq!(st.next_app(), Some(99));
    st.on_reply(None);
    assert_eq!(st.next_app(), Some(201));
    let reply = obj(vec![("200", depot_with_public(s("2000")))]);
    st.on_reply(Some(&reply));
    assert_eq!(st.next_app(), None);
    let found = st.into_found();
    assert_eq!(found.get(&200), Some(&2000));
    assert_eq!(found.get(&1), Some(&1));
    assert_eq!(found.len(), 2);
}

#[test]
fn neighbor_below_zero_wraps() {
    let mut st = NeighborLookup::new(1, HashMap::new(), vec![0]);
    assert_eq!(st.next_app(), Some(u32::MAX));
    st.on_reply(None);
    assert_eq!(st.next_app(), None);
}

#[test]
fn request_code_services() {
    let srcs = request_code_sources();
    assert_eq!(srcs.len(), 4);
    assert_eq!(srcs[1].user_agent, Some("OpenSteamTool/1.0"));
    assert!(srcs[3].json_content);
    assert_eq!(request_code_url(&srcs[0], 987), "https://manifest.steam.ooo/987");
    assert_eq!(request_code_from_reply(false, "  123456 \n", None), Some("123456".to_string()));
    assert_eq!(request_code_from_reply(false, "error", None), None);
    assert_eq!(request_code_from_reply(false, "+5", None), Some("+5".to_string()));
    let reply = obj(vec![("content", s("4242"))]);
    assert_eq!(request_code_from_reply(true, "ignored", Some(&reply)), Some("4242".to_string()));
    assert_eq!(request_code_from_reply(true, "4242", None), None);
    let bad = obj(vec![("content", s(" 4242"))]);
    assert_eq!(request_code_from_reply(true, "", Some(&bad)), None);
}

#[test]
fn addresses_and_file_names() {
    assert_eq!(app_info_url(730), "https://api.steamcmd.net/v1/info/730");
    assert_eq!(
        manifest_url(731, 12345, "999"),
        "http://steamcdn-a.akamaihd.net/depot/731/manifest/12345/5/999"
    );
    assert_eq!(manifest_file_name(731, 12345), "731_12345.manifest");
}

#[test]
fn config_vdf_text() {
    let info = parse_lua("addappid(1, 0, \"aa\")\naddappid(2, 0, \"bb\")\n").unwrap();
    assert_eq!(
        config_vdf_content(&info),
        "\"depots\"\n{\n    \"1\"\n    {\n        \"DecryptionKey\" \"aa\"\n    }\n    \"2\"\n    {\n        \"DecryptionKey\" \"bb\"\n    }\n}"
    );
    let empty = game(&[], &[], &[], None);
    assert_eq!(config_vdf_content(&empty), "\"depots\"\n{\n}");
}

fn names(v: &[&str]) -> Vec<String> {
    v.iter().map(|s| s.to_string()).collect()
}

#[test]
fn prepared_depots_in_order() {
    let files = names(&["10_1.manifest", "30_3.manifest", "100_9.manifest", "config.vdf"]);
    assert!(has_local_manifest_exec(&files, 10));
    assert!(!has_local_manifest_exec(&files, 1));
    let info = game(&[30, 20, 10], &[100, 10, 30], &[], Some(30));
    assert_eq!(collect_prepared_depot_ids_in_order(&info, &files), vec![30, 10, 100]);
    assert_eq!(collect_prepared_depot_ids_in_order(&info, &names(&[])), Vec::<u32>::new());
}

#[test]
fn preparation_outcomes() {
    assert_eq!(
        check_manifests_found(0),
        Err("无法获取任何清单，请检查网络或稍后再试".to_string())
    );
    assert_eq!(check_manifests_found(2), Ok(()));
    assert_eq!(
        prepare_outcome(vec![]),
        Err("准备失败：depot 目录中没有 manifest 文件".to_string())
    );
    assert_eq!(prepare_outcome(vec![3, 1]), Ok(vec![3, 1]));
    assert_eq!(fetch_progress(1, 2), (1, 2, false));
    assert_eq!(fetch_progress(2, 2), (2, 2, true));
    assert_eq!(local_progress(0), (1, 1, true));
    assert_eq!(local_progress(3), (3, 3, true));
}

#[test]
fn fetch_loop_reports_progress_and_readiness() {
    let mut run = ManifestFetch::new(2);
    assert!(!run.is_done());
    assert_eq!(run.before_item(false), Ok(()));
    match run.after_item(false, 10, 100, true, false) {
        FetchAction::Report { ready, progress } => {
            assert!(ready);
            assert_eq!(progress, (1, 2, false));
        }
        FetchAction::Abort { .. } => panic!("not cancelled"),
    }
    match run.after_item(false, 11, 110, false, false) {
        FetchAction::Report { ready, progress } => {
            assert!(!ready);
            assert_eq!(progress, (2, 2, true));
        }
        FetchAction::Abort { .. } => panic!("not cancelled"),
    }
    assert!(run.is_done());
}

#[test]
fn fetch_loop_stops_on_cancel() {
    let mut run = ManifestFetch::new(3);
    assert_eq!(run.before_item(true), Err("清单获取已取消".to_string()));
    match run.after_item(true, 7, 70, true, true) {
        FetchAction::Abort { file, message } => {
            assert_eq!(file, "7_70.manifest");
            assert_eq!(message, "清单获取已取消");
        }
        FetchAction::Report { .. } => panic!("cancelled"),
    }
    assert!(!run.is_done());
    match run.after_item(false, 7, 70, false, true) {
        FetchAction::Report { ready, progress } => {
            assert!(ready);
            assert_eq!(progress, (1, 3, false));
        }
        FetchAction::Abort { .. } => panic!("not cancelled"),
    }
}

#[test]
fn stored_manifest_is_found_again() {
    for (d, m) in [(0u32, 0u64), (731, 12345), (u32::MAX, u64::MAX)] {
        let files = vec![manifest_file_name(d, m)];
        assert!(has_local_manifest_exec(&files, d));
        assert!(any_manifest_file(&files));
    }
}

#[test]
fn pinned_manifests_are_known_without_reply() {
    let info = game(&[1, 2, 3], &[4], &[(2, 20), (3, 30), (4, 40), (9, 90)], Some(1));
    let found = known_manifests_exec(&info, None);
    let mut expected = HashMap::new();
    expected.insert(2, 20);
    expected.insert(3, 30);
    assert_eq!(found, expected);
    let unrelated = obj(vec![("data", obj(vec![("2", obj(vec![]))]))]);
    assert_eq!(known_manifests_exec(&info, Some(&unrelated)), expected);
}

#[test]
fn neighbor_search_ends_within_two_asks_per_depot() {
    let missing = vec![5, 6, 7];
    let mut st = NeighborLookup::new(0, HashMap::new(), missing.clone());
    let mut asked = 0;
    while let Some(_) = st.next_app() {
        st.on_reply(None);
        asked += 1;
        assert!(asked <= 2 * missing.len());
    }
    assert_eq!(asked, 6);
    assert!(st.into_found().is_empty());
}

#[test]
fn decimal_codes_are_accepted_as_written() {
    for n in [0u64, 42, u64::MAX] {
        let text = format!("\t{}\r\n", n);
        assert_eq!(request_code_from_reply(false, &text, None), Some(n.to_string()));
    }
}
