use depotgamedl::parser::{
    game_name_from_stem, import_source, line_comment, lua_ids_are_valid, parse_lua,
    ImportSource,
};

const SCRIPT: &str = "-- game script\naddappid(1000)\naddappid(1001, 1, \"abcdef0123\") -- Main Content\naddappid(1002,0,\"k2\")\naddappid(1001, 1, \"dup\") -- Duplicate\n  addappid(2000)\naddappid(1002)\naddappid(0)\naddtoken(1000, \"123456\")\naddtoken(1000, \"777\")\nsetManifestid(1001, \"5555\", 0)\nsetManifestid(1002, \"99999999999999999999\")\n";

#[test]
fn parses_depots_in_order_without_duplicates() {
    assert!(lua_ids_are_valid(SCRIPT));
    let info = parse_lua(SCRIPT).unwrap();
    assert_eq!(info.appid, Some(1001));
    assert_eq!(info.depots.len(), 2);
    assert_eq!(info.depots[0].id, 1001);
    assert_eq!(info.depots[0].sha, "abcdef0123");
    assert_eq!(info.depots[0].name.as_deref(), Some("Main Content"));
    assert_eq!(info.depots[1].id, 1002);
    assert_eq!(info.depots[1].sha, "k2");
    assert_eq!(info.depots[1].name, None);
}

#[test]
fn dlc_lines_skip_depots_and_zero() {
    let info = parse_lua(SCRIPT).unwrap();
    assert_eq!(info.dlc_depots, vec![1000, 2000]);
}

#[test]
fn tokens_and_manifests() {
    let info = parse_lua(SCRIPT).unwrap();
    assert_eq!(info.tokens.len(), 1);
    assert_eq!(info.tokens.get(&1000).map(|s| s.as_str()), Some("777"));
    assert_eq!(info.manifest_ids.len(), 1);
    assert_eq!(info.manifest_ids.get(&1001), Some(&5555));
}

#[test]
fn empty_script_has_no_app() {
    let info = parse_lua("").unwrap();
    assert_eq!(info.appid, None);
    assert!(info.depots.is_empty());
    assert!(info.dlc_depots.is_empty());
}

#[test]
fn unicode_digits_and_overflow_are_invalid_ids() {
    assert!(!lua_ids_are_valid("addappid(\u{0663}, 1, \"k\")"));
    assert!(!lua_ids_are_valid("addappid(99999999999)\n"));
    assert!(lua_ids_are_valid("addappid(12, \u{0663}, \"k\")"));
    let info = parse_lua("addappid(12, \u{0663}, \"k\")").unwrap();
    assert_eq!(info.depots.len(), 1);
}

#[test]
fn comments_after_depots() {
    assert_eq!(line_comment(" -- Hello World "), Some("Hello World".to_string()));
    assert_eq!(line_comment(" -- a -- b"), Some("a".to_string()));
    assert_eq!(line_comment(" --   "), None);
    assert_eq!(line_comment("no comment"), None);
    assert_eq!(line_comment("---x"), Some("-x".to_string()));
}

#[test]
fn game_names_lose_reserved_characters() {
    assert_eq!(game_name_from_stem("Half<Life>: 2/3?*|\"\\x"), "HalfLife 23x");
}

#[test]
fn import_sources() {
    assert_eq!(import_source("lua"), ImportSource::Script);
    assert_eq!(import_source("zip"), ImportSource::Bundle);
    assert_eq!(import_source("LUA"), ImportSource::Unsupported);
    assert_eq!(import_source(""), ImportSource::Unsupported);
}
