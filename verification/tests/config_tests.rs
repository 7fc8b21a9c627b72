use depotgamedl::patch::{copied_files_record, read_copied_files};
use depotgamedl::config::{
    default_download_dir, default_style, default_theme, download_base, normalize_loaded,
    repository_author, window_effect, AppConfig, WindowEffect,
};
use depotgamedl::locales::{en, lcid_is_zh_cn, strings, system_is_zh_cn, zh};
use depotgamedl::patch::{patch_items, safe_key, set_real_app_id};

#[test]
fn defaults() {
    assert_eq!(default_style(), "default");
    assert_eq!(default_theme(), "system");
    let c = AppConfig::default();
    assert_eq!(c.download_dir, "");
    assert!(c.auto_retry);
    assert_eq!(c.window_style, "default");
    assert_eq!(c.theme_mode, "system");
}

#[test]
fn retired_style_is_replaced() {
    let mut c = AppConfig::default();
    c.window_style = "mica".to_string();
    let n = normalize_loaded(c);
    assert_eq!(n.window_style, "mica_alt");
    let again = normalize_loaded(n.clone());
    assert_eq!(again.window_style, "mica_alt");
    let mut d = AppConfig::default();
    d.window_style = "acrylic".to_string();
    assert_eq!(normalize_loaded(d).window_style, "acrylic");
}

#[test]
fn author_from_repository() {
    assert_eq!(repository_author("https://github.com/pzjawa/depotgamedl"), "pzjawa");
    assert_eq!(repository_author("https://github.com/pzjawa"), "pzjawa");
    assert_eq!(repository_author("https://gitlab.com/x/y"), "");
    assert_eq!(repository_author(""), "");
}

#[test]
fn window_effects() {
    assert_eq!(window_effect("mica_alt", true), WindowEffect::Tabbed { dark: true });
    assert_eq!(window_effect("acrylic", true), WindowEffect::Acrylic { tint: (40, 40, 40, 220) });
    assert_eq!(window_effect("acrylic", false), WindowEffect::Acrylic { tint: (255, 255, 255, 220) });
    assert_eq!(window_effect("mica", false), WindowEffect::Clear);
    assert_eq!(window_effect("default", false), WindowEffect::Clear);
}

#[test]
fn download_folders() {
    assert_eq!(default_download_dir(true, "C:\\Users\\u\\Saved Games".to_string()), "D:\\");
    assert_eq!(default_download_dir(false, "C:\\Users\\u\\Saved Games".to_string()), "C:\\Users\\u\\Saved Games");
    assert_eq!(download_base("".to_string(), "D:\\".to_string()), "D:\\");
    assert_eq!(download_base("E:\\Games".to_string(), "D:\\".to_string()), "E:\\Games");
}

#[test]
fn messages_by_language() {
    assert_eq!(strings(true).manifest_cancelled, "清单获取已取消");
    assert_eq!(strings(false).manifest_cancelled, "Manifest fetch cancelled");
    assert_eq!(zh().lua_not_found, "未找到 lua 文件");
    assert_eq!(en().unsupported_format, "Unsupported format");
    assert!(lcid_is_zh_cn(0x0804));
    assert!(!lcid_is_zh_cn(0x0409));
    assert!(system_is_zh_cn(Some("zh_CN.UTF-8"), None));
    assert!(!system_is_zh_cn(Some("en_US.UTF-8"), Some("zh_CN.UTF-8")));
    assert!(system_is_zh_cn(None, Some("zh_CN")));
    assert!(!system_is_zh_cn(None, None));
    assert!(!system_is_zh_cn(Some("zh_TW"), None));
}

#[test]
fn backup_keys() {
    assert_eq!(safe_key("C:\\Games/My Game"), "C__Games_My Game");
    assert_eq!(safe_key(&safe_key("D:/a\\b")), safe_key("D:/a\\b"));
}

#[test]
fn local_patch_files() {
    assert_eq!(
        patch_items(),
        vec!["FreeTP", "EpicFix.ini", "EpicFix64.dll", "SteamFix.ini", "SteamFix64.dll", "winmm.dll", "winmm.txt"]
    );
}

#[test]
fn app_id_setting_is_rewritten_once() {
    let ini = "[SteamFix]\nrealappid=480\nRealAppId=7\n";
    assert_eq!(
        set_real_app_id(ini, "1091500").unwrap(),
        "[SteamFix]\nRealAppId=1091500\nRealAppId=7\n"
    );
    assert_eq!(set_real_app_id("nothing here", "5").unwrap(), "nothing here");
    assert_eq!(set_real_app_id("RealAppId=", "5").unwrap(), "RealAppId=");
}

#[test]
fn copied_files_record_reads_back() {
    let files = vec![
        "FreeTP\\a.dll".to_string(),
        "dir/\"quoted\".ini".to_string(),
        "黑风\n.txt".to_string(),
    ];
    let record = copied_files_record(&files);
    assert_eq!(record, serde_json::to_string(&files).unwrap());
    assert_eq!(read_copied_files(&record), Ok(files));
    assert_eq!(copied_files_record(&vec![]), "[]");
    let bad = read_copied_files("{not json").err().unwrap();
    let reason = serde_json::from_str::<Vec<String>>("{not json").err().unwrap();
    assert_eq!(bad, format!("解析清单失败: {}", reason));
}
