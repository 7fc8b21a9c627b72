//! Depot scripts: the game description they declare, and the import decisions
//! around them.

use std::collections::HashMap;
use vstd::prelude::*;
use crate::json::Json;
use crate::lua::{all_caps_view, all_matches, find_all, Pattern};
use crate::text::{decimal, occurs_at};
use crate::text::{
    chars_of, find_from, find_from_spec, parse_unsigned, parse_unsigned_exec, string_from_chars,
    string_from_range, trim, trim_bounds,
};

verus! {

broadcast use {vstd::std_specs::hash::group_hash_axioms, vstd::string::group_string_axioms};

/// One depot of a game: its id, its decryption key, and the comment that
/// followed its declaration, if any.
#[derive(Debug, Clone)]
pub struct DepotInfo {
    pub id: u32,
    pub sha: String,
    pub name: Option<String>,
}

/// The mathematical content of a `DepotInfo`.
pub struct DepotSpec {
    pub id: u32,
    pub sha: Seq<char>,
    pub name: Option<Seq<char>>,
}

/// The characters of an optional string.
pub open spec fn opt_str_view(o: Option<String>) -> Option<Seq<char>> {
    match o {
        Some(s) => Some(s@),
        None => None,
    }
}

impl View for DepotInfo {
    type V = DepotSpec;

    open spec fn view(&self) -> DepotSpec {
        DepotSpec { id: self.id, sha: self.sha@, name: opt_str_view(self.name) }
    }
}

/// Everything a depot script declares about a game.
#[derive(Debug, Clone)]
pub struct GameInfo {
    pub appid: Option<u32>,
    pub depots: Vec<DepotInfo>,
    pub dlc_depots: Vec<u32>,
    pub tokens: HashMap<u32, String>,
    pub manifest_ids: HashMap<u32, u64>,
}

/// The mathematical content of a `GameInfo`.
pub struct GameInfoSpec {
    pub appid: Option<u32>,
    pub depots: Seq<DepotSpec>,
    pub dlc_depots: Seq<u32>,
    pub tokens: Map<u32, Seq<char>>,
    pub manifest_ids: Map<u32, u64>,
}

/// The contents of a list of depots.
pub open spec fn depots_view(v: Seq<DepotInfo>) -> Seq<DepotSpec> {
    v.map_values(|d: DepotInfo| d@)
}

/// The characters of each string value of a map.
pub open spec fn string_map_view(m: Map<u32, String>) -> Map<u32, Seq<char>> {
    m.map_values(|v: String| v@)
}

impl View for GameInfo {
    type V = GameInfoSpec;

    open spec fn view(&self) -> GameInfoSpec {
        GameInfoSpec {
            appid: self.appid,
            depots: depots_view(self.depots@),
            dlc_depots: self.dlc_depots@,
            tokens: string_map_view(self.tokens@),
            manifest_ids: self.manifest_ids@,
        }
    }
}

/// The outcome of importing a depot script, as the front end receives it.
#[derive(Debug, Clone)]
pub struct ImportResult {
    pub success: bool,
    pub game_info: Option<GameInfo>,
    pub game_name: String,
    pub has_previous_cache: bool,
    pub has_local_manifests: bool,
    pub message: String,
}

// ---------------------------------------------------------------------------
// Comments after a depot declaration
// ---------------------------------------------------------------------------

/// `--`
pub open spec fn lit_dashes() -> Seq<char> {
    seq!['-', '-']
}

/// The comment that `rest` carries: the text between the first `--` and the
/// next `--` (or the end), trimmed, when that is not empty.
pub open spec fn line_comment_spec(rest: Seq<char>) -> Option<Seq<char>> {
    match find_from_spec(rest, lit_dashes(), 0) {
        None => None,
        Some(a) => {
            let b = match find_from_spec(rest, lit_dashes(), a + 2) {
                Some(b) => b,
                None => rest.len() as int,
            };
            let t = trim(rest.subrange(a + 2, b));
            if t.len() == 0 {
                None
            } else {
                Some(t)
            }
        },
    }
}

proof fn lemma_find_bounds(s: Seq<char>, p: Seq<char>, from: int)
    requires
        0 <= from,
    ensures
        find_from_spec(s, p, from) matches Some(k) ==> from <= k && k + p.len() <= s.len(),
    decreases s.len() + 1 - from,
{
    if from + p.len() > s.len() {
    } else if crate::text::occurs_at(s, p, from) {
    } else {
        lemma_find_bounds(s, p, from + 1);
    }
}

fn line_comment_chars(rest: &Vec<char>) -> (r: Option<String>)
    ensures
        opt_str_view(r) == line_comment_spec(rest@),
{
    let dashes = vec!['-', '-'];
    assert(dashes@ =~= lit_dashes());
    assert(lit_dashes().len() == 2);
    proof {
        lemma_find_bounds(rest@, lit_dashes(), 0);
    }
    match find_from(rest, &dashes, 0) {
        None => None,
        Some(a) => {
            assert(find_from_spec(rest@, lit_dashes(), 0) == Some(a as int));
            assert(a + 2 <= rest@.len());
            assert(a + 2 <= rest.len());
            proof {
                lemma_find_bounds(rest@, lit_dashes(), a + 2);
            }
            let b = match find_from(rest, &dashes, a + 2) {
                Some(b) => b,
                None => rest.len(),
            };
            let seg = crate::lua::sub_chars(rest, a + 2, b);
            let (x, y) = trim_bounds(&seg);
            if x == y {
                None
            } else {
                Some(string_from_range(&seg, x, y))
            }
        },
    }
}

/// The comment carried by the rest of a depot declaration line: the text
/// after the first `--`, up to a second `--`, trimmed; `None` when there is
/// no `--` or the text is blank.
pub fn line_comment(rest_of_line: &str) -> (r: Option<String>)
    ensures
        opt_str_view(r) == line_comment_spec(rest_of_line@),
{
    let v = chars_of(rest_of_line);
    line_comment_chars(&v)
}

// ---------------------------------------------------------------------------
// The game description of a script
// ---------------------------------------------------------------------------

/// The largest `u32`.
pub open spec fn u32_max() -> nat {
    0xffff_ffff
}

/// The largest `u64`.
pub open spec fn u64_max() -> nat {
    0xffff_ffff_ffff_ffff
}

/// The `u32` that a captured id denotes (meaningful when it parses).
pub open spec fn id_of(t: Seq<char>) -> u32 {
    match parse_unsigned(t, u32_max()) {
        Some(v) => v as u32,
        None => 0,
    }
}

/// The first capture of every match is a valid `u32`.
pub open spec fn first_caps_parse(ms: Seq<Seq<Seq<char>>>) -> bool {
    forall|i: int| 0 <= i < ms.len() ==> #[trigger] parse_unsigned(ms[i][0], u32_max()) is Some
}

/// The ids of the depot, DLC and token declarations of `s` are all valid
/// `u32` numbers (written in ASCII digits and in range).
pub open spec fn lua_ids_valid(s: Seq<char>) -> bool {
    &&& first_caps_parse(all_matches(Pattern::Depot, s))
    &&& first_caps_parse(all_matches(Pattern::Dlc, s))
    &&& first_caps_parse(all_matches(Pattern::Token, s))
}

/// The ids of a list of depots.
pub open spec fn depot_ids(ds: Seq<DepotSpec>) -> Seq<u32> {
    ds.map_values(|d: DepotSpec| d.id)
}

/// Depots declared by the given depot matches: the first declaration of each
/// id wins, later ones with the same id are ignored.
pub open spec fn depots_spec(ms: Seq<Seq<Seq<char>>>) -> Seq<DepotSpec>
    decreases ms.len(),
{
    if ms.len() == 0 {
        Seq::empty()
    } else {
        let prev = depots_spec(ms.drop_last());
        let m = ms.last();
        let id = id_of(m[0]);
        if depot_ids(prev).contains(id) {
            prev
        } else {
            prev.push(DepotSpec { id, sha: m[1], name: line_comment_spec(m[2]) })
        }
    }
}

/// DLC depots declared by the given matches, leaving out ids in `seen` and
/// the id 0.
pub open spec fn dlcs_spec(ms: Seq<Seq<Seq<char>>>, seen: Seq<u32>) -> Seq<u32>
    decreases ms.len(),
{
    if ms.len() == 0 {
        Seq::empty()
    } else {
        let prev = dlcs_spec(ms.drop_last(), seen);
        let id = id_of(ms.last()[0]);
        if seen.contains(id) || id == 0 {
            prev
        } else {
            prev.push(id)
        }
    }
}

/// Tokens declared by the given matches; a later declaration for the same
/// app replaces an earlier one.
pub open spec fn tokens_spec(ms: Seq<Seq<Seq<char>>>) -> Map<u32, Seq<char>>
    decreases ms.len(),
{
    if ms.len() == 0 {
        Map::empty()
    } else {
        tokens_spec(ms.drop_last()).insert(id_of(ms.last()[0]), ms.last()[1])
    }
}

/// Manifest ids declared by the given matches; declarations whose numbers do
/// not fit are ignored, and a later one replaces an earlier one.
pub open spec fn manifests_spec(ms: Seq<Seq<Seq<char>>>) -> Map<u32, u64>
    decreases ms.len(),
{
    if ms.len() == 0 {
        Map::empty()
    } else {
        let prev = manifests_spec(ms.drop_last());
        let m = ms.last();
        match (parse_unsigned(m[0], u32_max()), parse_unsigned(m[1], u64_max())) {
            (Some(d), Some(v)) => prev.insert(d as u32, v as u64),
            _ => prev,
        }
    }
}

/// The game description that the script `s` declares.
pub open spec fn lua_info(s: Seq<char>) -> GameInfoSpec {
    let depots = depots_spec(all_matches(Pattern::Depot, s));
    GameInfoSpec {
        appid: if depots.len() > 0 {
            Some(depots[0].id)
        } else {
            None
        },
        depots,
        dlc_depots: dlcs_spec(all_matches(Pattern::Dlc, s), depot_ids(depots)),
        tokens: tokens_spec(all_matches(Pattern::Token, s)),
        manifest_ids: manifests_spec(all_matches(Pattern::Manifest, s)),
    }
}

fn parse_id(t: &Vec<char>) -> (r: u32)
    requires
        parse_unsigned(t@, u32_max()) is Some,
    ensures
        r == id_of(t@),
{
    match parse_unsigned_exec(t, 0xffff_ffff) {
        Some(v) => v as u32,
        None => 0,
    }
}

fn has_depot_id(ds: &Vec<DepotInfo>, id: u32) -> (r: bool)
    ensures
        r == depot_ids(depots_view(ds@)).contains(id),
{
    let mut k: usize = 0;
    while k < ds.len()
        invariant
            k <= ds.len(),
            forall|j: int| 0 <= j < k ==> ds@[j].id != id,
        decreases ds.len() - k,
    {
        if ds[k].id == id {
            assert(depot_ids(depots_view(ds@))[k as int] == id);
            return true;
        }
        k = k + 1;
    }
    assert forall|j: int| 0 <= j < depot_ids(depots_view(ds@)).len() implies depot_ids(
        depots_view(ds@),
    )[j] != id by {
        assert(ds@[j].id != id);
    }
    false
}

fn collect_depots(ms: &Vec<Vec<Vec<char>>>) -> (r: Vec<DepotInfo>)
    requires
        first_caps_parse(all_caps_view(ms@)),
        forall|k: int| 0 <= k < ms@.len() ==> #[trigger] ms@[k]@.len() == 3,
    ensures
        depots_view(r@) == depots_spec(all_caps_view(ms@)),
{
    let ghost mv = all_caps_view(ms@);
    let mut depots: Vec<DepotInfo> = Vec::new();
    let mut k: usize = 0;
    while k < ms.len()
        invariant
            k <= ms.len(),
            mv == all_caps_view(ms@),
            first_caps_parse(mv),
            forall|k: int| 0 <= k < ms@.len() ==> #[trigger] ms@[k]@.len() == 3,
            depots_view(depots@) == depots_spec(mv.take(k as int)),
        decreases ms.len() - k,
    {
        let m = &ms[k];
        assert(mv.take(k + 1).drop_last() =~= mv.take(k as int));
        assert(mv.take(k + 1).last() == mv[k as int]);
        assert(parse_unsigned(mv[k as int][0], u32_max()) is Some);
        let id = parse_id(&m[0]);
        if !has_depot_id(&depots, id) {
            let d = DepotInfo { id, sha: string_from_chars(m[1].as_slice()), name: line_comment_chars(&m[2]) };
            let ghost before = depots@;
            depots.push(d);
            assert(depots_view(depots@) =~= depots_view(before).push(d@));
        }
        k = k + 1;
    }
    assert(mv.take(ms.len() as int) =~= mv);
    depots
}

fn collect_dlcs(ms: &Vec<Vec<Vec<char>>>, depots: &Vec<DepotInfo>) -> (r: Vec<u32>)
    requires
        first_caps_parse(all_caps_view(ms@)),
        forall|k: int| 0 <= k < ms@.len() ==> #[trigger] ms@[k]@.len() == 1,
    ensures
        r@ == dlcs_spec(all_caps_view(ms@), depot_ids(depots_view(depots@))),
{
    let ghost mv = all_caps_view(ms@);
    let ghost seen = depot_ids(depots_view(depots@));
    let mut out: Vec<u32> = Vec::new();
    let mut k: usize = 0;
    while k < ms.len()
        invariant
            k <= ms.len(),
            mv == all_caps_view(ms@),
            seen == depot_ids(depots_view(depots@)),
            first_caps_parse(mv),
            forall|k: int| 0 <= k < ms@.len() ==> #[trigger] ms@[k]@.len() == 1,
            out@ == dlcs_spec(mv.take(k as int), seen),
        decreases ms.len() - k,
    {
        let m = &ms[k];
        assert(mv.take(k + 1).drop_last() =~= mv.take(k as int));
        assert(mv.take(k + 1).last() == mv[k as int]);
        assert(parse_unsigned(mv[k as int][0], u32_max()) is Some);
        let id = parse_id(&m[0]);
        if !(has_depot_id(depots, id) || id == 0) {
            out.push(id);
        }
        k = k + 1;
    }
    assert(mv.take(ms.len() as int) =~= mv);
    out
}

fn collect_tokens(ms: &Vec<Vec<Vec<char>>>) -> (r: HashMap<u32, String>)
    requires
        first_caps_parse(all_caps_view(ms@)),
        forall|k: int| 0 <= k < ms@.len() ==> #[trigger] ms@[k]@.len() == 2,
    ensures
        string_map_view(r@) == tokens_spec(all_caps_view(ms@)),
{
    let ghost mv = all_caps_view(ms@);
    let mut out: HashMap<u32, String> = HashMap::new();
    assert(string_map_view(out@) =~= tokens_spec(mv.take(0)));
    let mut k: usize = 0;
    while k < ms.len()
        invariant
            k <= ms.len(),
            mv == all_caps_view(ms@),
            first_caps_parse(mv),
            forall|k: int| 0 <= k < ms@.len() ==> #[trigger] ms@[k]@.len() == 2,
            string_map_view(out@) == tokens_spec(mv.take(k as int)),
        decreases ms.len() - k,
    {
        let m = &ms[k];
        assert(mv.take(k + 1).drop_last() =~= mv.take(k as int));
        assert(mv.take(k + 1).last() == mv[k as int]);
        assert(parse_unsigned(mv[k as int][0], u32_max()) is Some);
        let id = parse_id(&m[0]);
        let v = string_from_chars(m[1].as_slice());
        let ghost before = out@;
        out.insert(id, v);
        assert(string_map_view(out@) =~= string_map_view(before).insert(id, v@));
        k = k + 1;
    }
    assert(mv.take(ms.len() as int) =~= mv);
    out
}

fn collect_manifests(ms: &Vec<Vec<Vec<char>>>) -> (r: HashMap<u32, u64>)
    requires
        forall|k: int| 0 <= k < ms@.len() ==> #[trigger] ms@[k]@.len() == 2,
    ensures
        r@ == manifests_spec(all_caps_view(ms@)),
{
    let ghost mv = all_caps_view(ms@);
    let mut out: HashMap<u32, u64> = HashMap::new();
    assert(out@ =~= manifests_spec(mv.take(0)));
    let mut k: usize = 0;
    while k < ms.len()
        invariant
            k <= ms.len(),
            mv == all_caps_view(ms@),
            forall|k: int| 0 <= k < ms@.len() ==> #[trigger] ms@[k]@.len() == 2,
            out@ == manifests_spec(mv.take(k as int)),
        decreases ms.len() - k,
    {
        let m = &ms[k];
        assert(mv.take(k + 1).drop_last() =~= mv.take(k as int));
        assert(mv.take(k + 1).last() == mv[k as int]);
        let d = parse_unsigned_exec(&m[0], 0xffff_ffff);
        let v = parse_unsigned_exec(&m[1], 0xffff_ffff_ffff_ffff);
        match (d, v) {
            (Some(d), Some(v)) => {
                out.insert(d as u32, v);
            },
            _ => {},
        }
        k = k + 1;
    }
    assert(mv.take(ms.len() as int) =~= mv);
    out
}

/// Whether `lua_ids_valid` holds of `content`: every id of a depot, DLC or
/// token declaration is a `u32` in ASCII digits. `parse_lua` needs it.
pub fn lua_ids_are_valid(content: &str) -> (r: bool)
    ensures
        r == lua_ids_valid(content@),
{
    let s = chars_of(content);
    let a = find_all(Pattern::Depot, &s);
    let b = find_all(Pattern::Dlc, &s);
    let c = find_all(Pattern::Token, &s);
    first_caps_are_ids(&a) && first_caps_are_ids(&b) && first_caps_are_ids(&c)
}

fn first_caps_are_ids(ms: &Vec<Vec<Vec<char>>>) -> (r: bool)
    requires
        forall|k: int| 0 <= k < ms@.len() ==> #[trigger] ms@[k]@.len() >= 1,
    ensures
        r == first_caps_parse(all_caps_view(ms@)),
{
    let ghost mv = all_caps_view(ms@);
    let mut k: usize = 0;
    while k < ms.len()
        invariant
            k <= ms.len(),
            mv == all_caps_view(ms@),
            forall|k: int| 0 <= k < ms@.len() ==> #[trigger] ms@[k]@.len() >= 1,
            forall|j: int| 0 <= j < k ==> #[trigger] parse_unsigned(mv[j][0], u32_max()) is Some,
        decreases ms.len() - k,
    {
        let m = &ms[k];
        assert(mv[k as int][0] == m@[0]@);
        if parse_unsigned_exec(&m[0], 0xffff_ffff).is_none() {
            return false;
        }
        k = k + 1;
    }
    true
}

/// Reads the game description that a depot script declares:
///
/// * every `addappid(id, n, "key")` call gives a depot (the first call for an
///   id wins), named by the `-- comment` that follows it on its line;
/// * every line that starts with a bare `addappid(id)` gives a DLC depot,
///   unless `id` is a depot id or 0;
/// * `addtoken(id, "token")` and `setManifestid(id, "manifest")` fill the
///   token and manifest maps, a later call replacing an earlier one;
/// * the app id is the id of the first depot.
///
/// Ids of depot, DLC and token calls must be valid `u32` numbers
/// (`lua_ids_are_valid` tells whether they are).
pub fn parse_lua(content: &str) -> (r: Option<GameInfo>)
    requires
        lua_ids_valid(content@),
    ensures
        r matches Some(info) && info@ == lua_info(content@),
{
    let s = chars_of(content);
    let dm = find_all(Pattern::Depot, &s);
    let lm = find_all(Pattern::Dlc, &s);
    let tm = find_all(Pattern::Token, &s);
    let mm = find_all(Pattern::Manifest, &s);
    let depots = collect_depots(&dm);
    let dlc_depots = collect_dlcs(&lm, &depots);
    let tokens = collect_tokens(&tm);
    let manifest_ids = collect_manifests(&mm);
    let appid = if depots.len() > 0 {
        Some(depots[0].id)
    } else {
        None
    };
    let info = GameInfo { appid, depots, dlc_depots, tokens, manifest_ids };
    proof {
        let spec = lua_info(content@);
        assert(info@.depots == spec.depots);
        if info.depots.len() > 0 {
            assert(depots_view(info.depots@)[0] == info.depots@[0]@);
        }
    }
    Some(info)
}

// ---------------------------------------------------------------------------
// Importing a script or a bundle
// ---------------------------------------------------------------------------

/// What an imported file is, by its extension.
#[derive(Clone, Copy, PartialEq, Eq, Debug)]
pub enum ImportSource {
    /// A depot script (`.lua`).
    Script,
    /// A zip bundle of a script and manifests (`.zip`).
    Bundle,
    /// Anything else.
    Unsupported,
}

/// The kind of file an extension names: exactly `lua` and `zip` are known.
pub fn import_source(extension: &str) -> (r: ImportSource)
    ensures
        r == (if extension@ == "lua"@ {
            ImportSource::Script
        } else if extension@ == "zip"@ {
            ImportSource::Bundle
        } else {
            ImportSource::Unsupported
        }),
{
    let e = String::from_str(extension);
    if e == "lua".to_string() {
        ImportSource::Script
    } else if e == "zip".to_string() {
        ImportSource::Bundle
    } else {
        ImportSource::Unsupported
    }
}

/// What a bundle contributes: its script text, and the manifests to store
/// in the depot directory under their member names. Each manifest comes
/// with the bytes read and whether they were read to the end; a manifest
/// whose reading failed part-way is still written (with the bytes read
/// before the failure), but does not count as imported.
pub struct BundleContents {
    pub lua_content: Option<String>,
    pub manifests: Vec<(String, Vec<u8>, bool)>,
}

/// The mathematical content of a `BundleContents`.
pub struct BundleSpec {
    pub lua_content: Option<Seq<char>>,
    pub manifests: Seq<(Seq<char>, Option<Seq<u8>>)>,
}

/// The name of each manifest to store, and its bytes when it was read to
/// the end.
pub open spec fn manifests_view(v: Seq<(String, Vec<u8>, bool)>) -> Seq<
    (Seq<char>, Option<Seq<u8>>),
> {
    v.map_values(
        |m: (String, Vec<u8>, bool)|
            (
                m.0@,
                if m.2 {
                    Some(m.1@)
                } else {
                    None
                },
            ),
    )
}

impl View for BundleContents {
    type V = BundleSpec;

    open spec fn view(&self) -> BundleSpec {
        BundleSpec { lua_content: opt_str_view(self.lua_content), manifests: manifests_view(self.manifests@) }
    }
}

/// What the members of a bundle contribute, in archive order: members that
/// cannot be opened, and members whose name holds `__MACOSX`, are passed
/// over; the last readable UTF-8 `.lua` member is the script; every
/// `.manifest` member that opens is stored, with its bytes when it reads to
/// the end.
pub open spec fn scan_members(es: Seq<crate::archive::EntryView>) -> BundleSpec
    decreases es.len(),
{
    if es.len() == 0 {
        BundleSpec { lua_content: None, manifests: Seq::empty() }
    } else {
        let prev = scan_members(es.drop_last());
        match es.last() {
            None => prev,
            Some((name, data)) => if crate::text::contains_seq(name, "__MACOSX"@) {
                prev
            } else if crate::text::ends_with_seq(name, ".lua"@) {
                match data {
                    Some(b) => if vstd::utf8::valid_utf8(b) {
                        BundleSpec { lua_content: Some(vstd::utf8::decode_utf8(b)), ..prev }
                    } else {
                        prev
                    },
                    None => prev,
                }
            } else if crate::text::ends_with_seq(name, ".manifest"@) {
                BundleSpec { manifests: prev.manifests.push((name, data)), ..prev }
            } else {
                prev
            },
        }
    }
}

/// Reads a zip bundle: its script and the manifests to store, or, when the
/// bytes are not a zip archive, the message to report.
pub fn scan_bundle(data: Vec<u8>) -> (r: Result<BundleContents, String>)
    ensures
        match crate::archive::zip_contents(data@) {
            Ok(es) => r matches Ok(b) && b@ == scan_members(es),
            Err(e) => r matches Err(m) && m@ == "无法解析 zip: "@ + e,
        },
{
    match crate::archive::open_archive(data) {
        Ok(mut a) => {
            let n = crate::archive::archive_len(&a);
            let ghost es = crate::archive::archive_entries(a);
            let macos = chars_of("__MACOSX");
            let lua_ext = chars_of(".lua");
            let manifest_ext = chars_of(".manifest");
            let mut out = BundleContents { lua_content: None, manifests: Vec::new() };
            let mut k: usize = 0;
            assert(es.take(0) =~= Seq::<crate::archive::EntryView>::empty());
            assert(out@.manifests =~= Seq::<(Seq<char>, Option<Seq<u8>>)>::empty());
            while k < n
                invariant
                    k <= n == es.len(),
                    crate::archive::archive_entries(a) == es,
                    macos@ == "__MACOSX"@,
                    lua_ext@ == ".lua"@,
                    manifest_ext@ == ".manifest"@,
                    out@ == scan_members(es.take(k as int)),
                decreases n - k,
            {
                assert(es.take(k + 1).drop_last() =~= es.take(k as int));
                assert(es.take(k + 1).last() == es[k as int]);
                let entry = crate::archive::archive_entry(&mut a, k);
                match entry {
                    None => {},
                    Some((name, b, complete)) => {
                        let nv = chars_of(name.as_str());
                        if crate::text::contains_exec(&nv, &macos) {
                        } else if crate::text::ends_with_exec(&nv, &lua_ext) {
                            if complete {
                                match crate::archive::utf8_text(b) {
                                    Some(t) => {
                                        out.lua_content = Some(t);
                                    },
                                    None => {},
                                }
                            }
                        } else if crate::text::ends_with_exec(&nv, &manifest_ext) {
                            let ghost before = out.manifests@;
                            let ghost d = if complete {
                                Some(b@)
                            } else {
                                None
                            };
                            out.manifests.push((name, b, complete));
                            assert(manifests_view(out.manifests@) =~= manifests_view(before).push(
                                (nv@, d),
                            ));
                        }
                    },
                }
                k = k + 1;
            }
            assert(es.take(n as int) =~= es);
            Ok(out)
        },
        Err(e) => {
            let mut m = String::from_str("无法解析 zip: ");
            m.append(e.as_str());
            Err(m)
        },
    }
}

/// The result of an import that failed with `message`.
pub fn import_failure(message: String) -> (r: ImportResult)
    ensures
        !r.success,
        r.game_info is None,
        r.game_name@ == Seq::<char>::empty(),
        !r.has_previous_cache,
        !r.has_local_manifests,
        r.message@ == message@,
{
    ImportResult {
        success: false,
        game_info: None,
        game_name: String::new(),
        has_previous_cache: false,
        has_local_manifests: false,
        message,
    }
}

/// `prefix` followed by `detail`.
fn with_detail(prefix: &str, detail: &str) -> (r: String)
    ensures
        r@ == prefix@ + detail@,
{
    let mut m = String::from_str(prefix);
    m.append(detail);
    m
}

/// The failed import of a script that could not be read (`error` is the
/// reason as the system words it).
pub fn script_unreadable(error: &str) -> (r: ImportResult)
    ensures
        !r.success && r.game_info is None && r.game_name@.len() == 0,
        !r.has_previous_cache && !r.has_local_manifests,
        r.message@ == "无法读取文件: "@ + error@,
{
    import_failure(with_detail("无法读取文件: ", error))
}

/// The failed import of a bundle that could not be opened.
pub fn bundle_unopenable(error: &str) -> (r: ImportResult)
    ensures
        !r.success && r.game_info is None && r.game_name@.len() == 0,
        !r.has_previous_cache && !r.has_local_manifests,
        r.message@ == "无法打开 zip: "@ + error@,
{
    import_failure(with_detail("无法打开 zip: ", error))
}

/// The failed import of a file that is neither a script nor a bundle.
pub fn unsupported_import() -> (r: ImportResult)
    ensures
        !r.success && r.game_info is None && r.game_name@.len() == 0,
        !r.has_previous_cache && !r.has_local_manifests,
        r.message@ == "不支持的格式"@,
{
    import_failure(String::from_str("不支持的格式"))
}

/// The failed import of a bundle without a readable script.
pub fn script_missing() -> (r: ImportResult)
    ensures
        !r.success && r.game_info is None && r.game_name@.len() == 0,
        !r.has_previous_cache && !r.has_local_manifests,
        r.message@ == "未找到 lua 文件"@,
{
    import_failure(String::from_str("未找到 lua 文件"))
}

/// How `{:?}` writes an optional app id.
pub open spec fn debug_appid(appid: Option<u32>) -> Seq<char> {
    match appid {
        Some(a) => "Some("@ + crate::text::decimal(a as nat) + ")"@,
        None => "None"@,
    }
}

/// The game name shown for an import: the store's name when it gave a
/// non-empty one, else the name taken from the file.
pub open spec fn chosen_name(from_file: Seq<char>, from_store: Option<Seq<char>>) -> Seq<char> {
    match from_store {
        Some(n) => if n.len() > 0 {
            n
        } else {
            from_file
        },
        None => from_file,
    }
}

/// The result of a successful import of the game `game_info`.
pub fn import_success(
    game_info: GameInfo,
    name_from_file: String,
    name_from_store: Option<String>,
    has_previous_cache: bool,
    has_local_manifests: bool,
) -> (r: ImportResult)
    ensures
        r.success,
        r.game_info matches Some(g) && g@ == game_info@,
        r.game_name@ == chosen_name(name_from_file@, opt_str_view(name_from_store)),
        r.has_previous_cache == has_previous_cache,
        r.has_local_manifests == has_local_manifests,
        r.message@ == "清单已就绪，AppID: "@ + debug_appid(game_info.appid),
{
    let mut message = String::from_str("清单已就绪，AppID: ");
    match game_info.appid {
        Some(a) => {
            message.append("Some(");
            message.append(crate::text::decimal_string(a as u64).as_str());
            message.append(")");
        },
        None => {
            message.append("None");
        },
    }
    let game_name = match name_from_store {
        Some(n) => if n.as_str().unicode_len() > 0 {
            n
        } else {
            name_from_file
        },
        None => name_from_file,
    };
    ImportResult {
        success: true,
        game_info: Some(game_info),
        game_name,
        has_previous_cache,
        has_local_manifests,
        message,
    }
}

/// The characters that file names may not hold: `< > : " / \ | ? *`.
pub open spec fn is_reserved(c: char) -> bool {
    c == '<' || c == '>' || c == ':' || c == '"' || c == '/' || c == '\\' || c == '|' || c
        == '?' || c == '*'
}

/// `s` with every reserved character removed.
pub open spec fn without_reserved(s: Seq<char>) -> Seq<char>
    decreases s.len(),
{
    if s.len() == 0 {
        Seq::empty()
    } else if is_reserved(s.last()) {
        without_reserved(s.drop_last())
    } else {
        without_reserved(s.drop_last()).push(s.last())
    }
}

/// The game name taken from a script's file name (its stem): the stem with
/// the characters that file names may not hold removed.
pub fn game_name_from_stem(stem: &str) -> (r: String)
    ensures
        r@ == without_reserved(stem@),
{
    let v = chars_of(stem);
    let mut out: Vec<char> = Vec::new();
    let mut k: usize = 0;
    while k < v.len()
        invariant
            k <= v.len(),
            out@ == without_reserved(v@.take(k as int)),
        decreases v.len() - k,
    {
        assert(v@.take(k + 1).drop_last() =~= v@.take(k as int));
        let c = v[k];
        if !(c == '<' || c == '>' || c == ':' || c == '"' || c == '/' || c == '\\' || c == '|'
            || c == '?' || c == '*') {
            out.push(c);
        }
        k = k + 1;
    }
    assert(v@.take(v.len() as int) =~= v@);
    string_from_chars(out.as_slice())
}

/// The store name of app `appid` in a reply of the store's app details
/// service: the `name` of the `data` of the member named after the app.
pub open spec fn store_name(appid: u32, details: Json) -> Option<Seq<char>> {
    match crate::json::get_opt(
        crate::json::get_opt(crate::json::get(details, crate::text::decimal(appid as nat)), "data"@),
        "name"@,
    ) {
        Some(n) => crate::json::as_str(n),
        None => None,
    }
}

/// Reads the name of app `appid` out of the store's app details reply.
pub fn game_name_from_details(appid: u32, details: &Json) -> (r: Option<String>)
    ensures
        opt_str_view(r) == store_name(appid, *details),
{
    let key = crate::text::decimal_string(appid as u64);
    let data_key = "data".to_string();
    let name_key = "name".to_string();
    match details.get(&key) {
        Some(a) => match a.get(&data_key) {
            Some(d) => match d.get(&name_key) {
                Some(n) => match n.as_str() {
                    Some(s) => Some(s.clone()),
                    None => None,
                },
                None => None,
            },
            None => None,
        },
        None => None,
    }
}

// ---------------------------------------------------------------------------
// Laws
// ---------------------------------------------------------------------------

/// No value occurs twice in `s`.
pub open spec fn no_repeats(s: Seq<u32>) -> bool {
    forall|i: int, j: int| 0 <= i < j < s.len() ==> s[i] != s[j]
}

proof fn lemma_depots_unique(ms: Seq<Seq<Seq<char>>>)
    ensures
        no_repeats(depot_ids(depots_spec(ms))),
    decreases ms.len(),
{
    if ms.len() > 0 {
        lemma_depots_unique(ms.drop_last());
        let prev = depots_spec(ms.drop_last());
        let m = ms.last();
        let id = id_of(m[0]);
        if !depot_ids(prev).contains(id) {
            let d = DepotSpec { id, sha: m[1], name: line_comment_spec(m[2]) };
            assert(depot_ids(prev.push(d)) =~= depot_ids(prev).push(id));
        }
    }
}

proof fn lemma_dlcs_excluded(ms: Seq<Seq<Seq<char>>>, seen: Seq<u32>)
    ensures
        forall|i: int|
            0 <= i < dlcs_spec(ms, seen).len() ==> !seen.contains(#[trigger] dlcs_spec(ms, seen)[i])
                && dlcs_spec(ms, seen)[i] != 0,
    decreases ms.len(),
{
    if ms.len() > 0 {
        lemma_dlcs_excluded(ms.drop_last(), seen);
        let prev = dlcs_spec(ms.drop_last(), seen);
        let cur = dlcs_spec(ms, seen);
        assert forall|i: int| 0 <= i < cur.len() implies !seen.contains(#[trigger] cur[i]) && cur[i]
            != 0 by {
            if i < prev.len() {
                assert(cur[i] == prev[i]);
            }
        }
    }
}

/// A script never declares a depot twice: the depots that `parse_lua` reads
/// have distinct ids, and no DLC depot it reads is one of them or has id 0.
pub proof fn law_script_depots_distinct(content: Seq<char>)
    ensures
        no_repeats(depot_ids(lua_info(content).depots)),
        forall|i: int|
            0 <= i < lua_info(content).dlc_depots.len() ==> !depot_ids(
                lua_info(content).depots,
            ).contains(#[trigger] lua_info(content).dlc_depots[i]) && lua_info(content).dlc_depots[i]
                != 0,
{
    let depots = depots_spec(all_matches(Pattern::Depot, content));
    lemma_depots_unique(all_matches(Pattern::Depot, content));
    lemma_dlcs_excluded(all_matches(Pattern::Dlc, content), depot_ids(depots));
}

/// The app of a script is its first depot: the app id is set exactly when
/// the script declares a depot, and is then the id of the first one.
pub proof fn law_script_app_is_first_depot(content: Seq<char>)
    ensures
        lua_info(content).appid is Some <==> lua_info(content).depots.len() > 0,
        lua_info(content).depots.len() > 0 ==> lua_info(content).appid == Some(
            lua_info(content).depots[0].id,
        ),
{
}

/// Removing reserved characters leaves none, and removing them again
/// changes nothing.
pub proof fn law_game_name_clean(stem: Seq<char>)
    ensures
        forall|i: int|
            0 <= i < without_reserved(stem).len() ==> !is_reserved(#[trigger] without_reserved(stem)[i]),
        without_reserved(without_reserved(stem)) == without_reserved(stem),
    decreases stem.len(),
{
    if stem.len() > 0 {
        law_game_name_clean(stem.drop_last());
        let prev = without_reserved(stem.drop_last());
        if !is_reserved(stem.last()) {
            let cur = prev.push(stem.last());
            assert(cur.drop_last() =~= prev);
        }
    }
}

/// A bundle only ever stores `.manifest` members, and never the macOS
/// metadata members (`__MACOSX`).
pub proof fn law_bundle_stores_only_manifests(es: Seq<crate::archive::EntryView>)
    ensures
        forall|i: int|
            0 <= i < scan_members(es).manifests.len() ==> crate::text::ends_with_seq(
                #[trigger] scan_members(es).manifests[i].0,
                ".manifest"@,
            ) && !crate::text::contains_seq(scan_members(es).manifests[i].0, "__MACOSX"@),
    decreases es.len(),
{
    if es.len() > 0 {
        law_bundle_stores_only_manifests(es.drop_last());
        let prev = scan_members(es.drop_last()).manifests;
        let cur = scan_members(es).manifests;
        assert forall|i: int| 0 <= i < cur.len() implies crate::text::ends_with_seq(
            #[trigger] cur[i].0,
            ".manifest"@,
        ) && !crate::text::contains_seq(cur[i].0, "__MACOSX"@) by {
            if i < prev.len() {
                assert(cur[i] == prev[i]);
            }
        }
    }
}

/// Naming a game from a file name removes exactly the characters that file
/// names may not hold, `< > : " / \\ | ? *`, and keeps every other character
/// in order: the name is the stem filtered by that test, and a stem without
/// such characters is kept as it is.
pub proof fn law_game_name_removes_only_reserved(stem: Seq<char>)
    ensures
        without_reserved(stem) == stem.filter(
            |c: char|
                !(c == '<' || c == '>' || c == ':' || c == '"' || c == '/' || c == '\\' || c
                    == '|' || c == '?' || c == '*'),
        ),
        (forall|i: int|
            0 <= i < stem.len() ==> !(stem[i] == '<' || stem[i] == '>' || stem[i] == ':'
                || stem[i] == '"' || stem[i] == '/' || stem[i] == '\\' || stem[i] == '|'
                || stem[i] == '?' || stem[i] == '*')) ==> without_reserved(stem) == stem,
    decreases stem.len(),
{
    reveal(Seq::filter);
    if stem.len() > 0 {
        law_game_name_removes_only_reserved(stem.drop_last());
        assert(stem.drop_last().push(stem.last()) =~= stem);
    }
}

/// The script text a bundle member gives: the decoded text of a member that
/// opened, was read to the end, is named `*.lua` without `__MACOSX` in its
/// name, and holds valid UTF-8.
pub open spec fn lua_member_text(e: crate::archive::EntryView) -> Option<Seq<char>> {
    match e {
        Some((n, Some(b))) => if crate::text::ends_with_seq(n, ".lua"@) && !crate::text::contains_seq(
            n,
            "__MACOSX"@,
        ) && vstd::utf8::valid_utf8(b) {
            Some(vstd::utf8::decode_utf8(b))
        } else {
            None
        },
        _ => None,
    }
}

/// The script of a bundle is the last `*.lua` member that reads as text,
/// never a macOS metadata member (`__MACOSX`): when such a member exists,
/// the script is the text of the last one; when none exists, the bundle has
/// no script.
pub proof fn law_bundle_script_is_last_lua(es: Seq<crate::archive::EntryView>)
    ensures
        forall|i: int|
            0 <= i < es.len() && lua_member_text(es[i]) is Some && (forall|j: int|
                i < j < es.len() ==> lua_member_text(#[trigger] es[j]) is None) ==> scan_members(
                es,
            ).lua_content == lua_member_text(es[i]),
        (forall|i: int| 0 <= i < es.len() ==> lua_member_text(#[trigger] es[i]) is None)
            ==> scan_members(es).lua_content is None,
    decreases es.len(),
{
    if es.len() > 0 {
        let prev = es.drop_last();
        law_bundle_script_is_last_lua(prev);
        let last = es.last();
        assert(es[es.len() - 1] == last);
        if lua_member_text(last) is None {
            assert(scan_members(es).lua_content == scan_members(prev).lua_content);
            assert forall|i: int|
                0 <= i < es.len() && lua_member_text(es[i]) is Some && (forall|j: int|
                    i < j < es.len() ==> lua_member_text(#[trigger] es[j]) is None) implies scan_members(
                es,
            ).lua_content == lua_member_text(es[i]) by {
                assert(i < es.len() - 1);
                assert(prev[i] == es[i]);
                assert forall|j: int| i < j < prev.len() implies lua_member_text(#[trigger] prev[j]) is None by {
                    assert(prev[j] == es[j]);
                }
            }
            assert((forall|i: int| 0 <= i < es.len() ==> lua_member_text(#[trigger] es[i]) is None)
                ==> (forall|i: int| 0 <= i < prev.len() ==> lua_member_text(#[trigger] prev[i]) is None)) by {
                if forall|i: int| 0 <= i < es.len() ==> lua_member_text(#[trigger] es[i]) is None {
                    assert forall|i: int| 0 <= i < prev.len() implies lua_member_text(#[trigger] prev[i]) is None by {
                        assert(prev[i] == es[i]);
                    }
                }
            }
        } else {
            assert(scan_members(es).lua_content == lua_member_text(last));
            assert forall|i: int|
                0 <= i < es.len() && lua_member_text(es[i]) is Some && (forall|j: int|
                    i < j < es.len() ==> lua_member_text(#[trigger] es[j]) is None) implies scan_members(
                es,
            ).lua_content == lua_member_text(es[i]) by {
                if i < es.len() - 1 {
                    assert(lua_member_text(es[es.len() - 1]) is None);
                }
            }
        }
    }
}

/// A script that pins manifest `m` for depot `d`, as
/// `setManifestid(d, "m")`, yields exactly that pinned manifest id, for
/// every `u32` depot id and every `u64` manifest id (Steam manifest ids are
/// 64-bit numbers).
pub proof fn law_pinned_manifest_kept(d: u32, m: u64)
    ensures
        lua_info(
            "setManifestid("@ + decimal(d as nat) + ", \""@ + decimal(m as nat) + "\")"@,
        ).manifest_ids == Map::<u32, u64>::empty().insert(d, m),
{
    reveal_strlit("setManifestid(");
    reveal_strlit(", \"");
    reveal_strlit("\")");
    let p = "setManifestid("@;
    let q = ", \""@;
    let e = "\")"@;
    let dd = decimal(d as nat);
    let mm = decimal(m as nat);
    let s = p + dd + q + mm + e;
    crate::text::lemma_decimal_digits(d as nat);
    crate::text::lemma_decimal_digits(m as nat);
    crate::text::law_decimal_round_trip(d as nat, u32_max());
    crate::text::law_decimal_round_trip(m as nat, u64_max());
    let a: int = 14;
    let d1: int = 14 + dd.len() as int;
    let w: int = d1 + 2;
    let d2: int = w + 1 + mm.len() as int;
    assert(s.len() == d2 + 2);
    assert(s.subrange(0, 14) =~= crate::lua::lit_set_manifest());
    assert(occurs_at(s, crate::lua::lit_set_manifest(), 0));
    assert forall|k: int| a <= k < d1 implies crate::lua::in_class(
        crate::lua::CharClass::Digit,
        #[trigger] s[k],
    ) by {
        assert(s[k] == dd[k - 14]);
        assert(crate::text::is_digit(dd[k - 14]));
    }
    assert(s[d1] == ',');
    crate::lua::lemma_run_end(s, a, d1, crate::lua::CharClass::Digit);
    assert(s[d1 + 1] == ' ');
    assert(s[w] == '"');
    crate::lua::lemma_run_end(s, d1 + 1, w, crate::lua::CharClass::Space);
    assert forall|k: int| w + 1 <= k < d2 implies crate::lua::in_class(
        crate::lua::CharClass::Digit,
        #[trigger] s[k],
    ) by {
        assert(s[k] == mm[k - w - 1]);
        assert(crate::text::is_digit(mm[k - w - 1]));
    }
    assert(s[d2] == '"');
    crate::lua::lemma_run_end(s, w + 1, d2, crate::lua::CharClass::Digit);
    assert(s.subrange(a, d1) =~= dd);
    assert(s.subrange(w + 1, d2) =~= mm);
    let caps = seq![dd, mm];
    assert(crate::lua::manifest_at(s, 0) == Some((d2 + 1, caps)));
    assert(crate::lua::manifest_at(s, d2 + 1) is None);
    assert(crate::lua::matches_from(Pattern::Manifest, s, d2 + 2) =~= Seq::<Seq<Seq<char>>>::empty());
    assert(crate::lua::matches_from(Pattern::Manifest, s, d2 + 1) =~= Seq::<Seq<Seq<char>>>::empty());
    let ms = all_matches(Pattern::Manifest, s);
    assert(ms =~= seq![caps]);
    assert(ms.drop_last() =~= Seq::<Seq<Seq<char>>>::empty());
    assert(ms.last() == caps);
    assert(caps[0] == dd && caps[1] == mm);
    assert(parse_unsigned(dd, u32_max()) == Some(d as nat));
    assert(parse_unsigned(mm, u64_max()) == Some(m as nat));
    assert(manifests_spec(ms.drop_last()) == Map::<u32, u64>::empty());
    assert(manifests_spec(ms) == manifests_spec(ms.drop_last()).insert((d as nat) as u32, (m as nat) as u64));
    assert(manifests_spec(ms) =~= Map::<u32, u64>::empty().insert(d, m));
}

/// A script that declares one depot, as `addappid(d, n, "key")`, yields
/// exactly that depot, with its decryption key and no comment, and the app
/// is that depot, for every `u32` id `d`, every number `n` and every key
/// without a double quote.
pub proof fn law_declared_depot_kept(d: u32, n: nat, key: Seq<char>)
    requires
        forall|i: int| 0 <= i < key.len() ==> key[i] != '"',
    ensures
        lua_info(
            "addappid("@ + decimal(d as nat) + ", "@ + decimal(n) + ", \""@ + key + "\")"@,
        ).depots == seq![DepotSpec { id: d, sha: key, name: None }],
        lua_info(
            "addappid("@ + decimal(d as nat) + ", "@ + decimal(n) + ", \""@ + key + "\")"@,
        ).appid == Some(d),
{
    reveal_strlit("addappid(");
    reveal_strlit(", ");
    reveal_strlit(", \"");
    reveal_strlit("\")");
    let dd = decimal(d as nat);
    let nn = decimal(n);
    let s = "addappid("@ + dd + ", "@ + nn + ", \""@ + key + "\")"@;
    crate::text::lemma_decimal_digits(d as nat);
    crate::text::lemma_decimal_digits(n);
    crate::text::law_decimal_round_trip(d as nat, u32_max());
    let a: int = 9;
    let d1: int = 9 + dd.len() as int;
    let w1: int = d1 + 2;
    let d2: int = w1 + nn.len() as int;
    let w2: int = d2 + 2;
    let q: int = w2 + 1 + key.len() as int;
    assert(s.len() == q + 2);
    assert(s.subrange(0, 9) =~= crate::lua::lit_addappid());
    assert(occurs_at(s, crate::lua::lit_addappid(), 0));
    assert forall|k: int| a <= k < d1 implies crate::lua::in_class(
        crate::lua::CharClass::Digit,
        #[trigger] s[k],
    ) by {
        assert(s[k] == dd[k - 9]);
        assert(crate::text::is_digit(dd[k - 9]));
    }
    assert(s[d1] == ',');
    crate::lua::lemma_run_end(s, a, d1, crate::lua::CharClass::Digit);
    assert(s[d1 + 1] == ' ');
    assert(s[w1] == nn[0]);
    assert(crate::text::is_digit(nn[0]));
    crate::lua::lemma_run_end(s, d1 + 1, w1, crate::lua::CharClass::Space);
    assert forall|k: int| w1 <= k < d2 implies crate::lua::in_class(
        crate::lua::CharClass::Digit,
        #[trigger] s[k],
    ) by {
        assert(s[k] == nn[k - w1]);
        assert(crate::text::is_digit(nn[k - w1]));
    }
    assert(s[d2] == ',');
    crate::lua::lemma_run_end(s, w1, d2, crate::lua::CharClass::Digit);
    assert(s[d2 + 1] == ' ');
    assert(s[w2] == '"');
    crate::lua::lemma_run_end(s, d2 + 1, w2, crate::lua::CharClass::Space);
    assert forall|k: int| w2 + 1 <= k < q implies crate::lua::in_class(
        crate::lua::CharClass::NotQuote,
        #[trigger] s[k],
    ) by {
        assert(s[k] == key[k - w2 - 1]);
    }
    assert(s[q] == '"');
    crate::lua::lemma_run_end(s, w2 + 1, q, crate::lua::CharClass::NotQuote);
    assert(s[q + 1] == ')');
    crate::lua::lemma_run_end(s, q + 2, q + 2, crate::lua::CharClass::NotLineEnd);
    assert(s.subrange(a, d1) =~= dd);
    assert(s.subrange(w2 + 1, q) =~= key);
    assert(s.subrange(q + 2, q + 2) =~= Seq::<char>::empty());
    let caps = seq![dd, key, Seq::<char>::empty()];
    assert(crate::lua::depot_at(s, 0) == Some((q + 2, caps)));
    assert(crate::lua::matches_from(Pattern::Depot, s, q + 2) =~= Seq::<Seq<Seq<char>>>::empty());
    let ms = all_matches(Pattern::Depot, s);
    assert(ms =~= seq![caps]);
    assert(ms.drop_last() =~= Seq::<Seq<Seq<char>>>::empty());
    assert(line_comment_spec(Seq::<char>::empty()) is None);
    assert(id_of(dd) == d);
    assert(depots_spec(ms.drop_last()) =~= Seq::<DepotSpec>::empty());
    assert(!depot_ids(Seq::<DepotSpec>::empty()).contains(d));
    assert(depots_spec(ms) =~= seq![DepotSpec { id: d, sha: key, name: None }]);
}

/// A script that declares one access token, as `addtoken(d, "t")` with `t`
/// a run of ASCII digits, yields exactly that token for app `d`, for every
/// `u32` id `d`.
pub proof fn law_declared_token_kept(d: u32, t: Seq<char>)
    requires
        t.len() > 0,
        forall|i: int| 0 <= i < t.len() ==> '0' <= #[trigger] t[i] <= '9',
    ensures
        lua_info("addtoken("@ + decimal(d as nat) + ", \""@ + t + "\")"@).tokens == Map::<
            u32,
            Seq<char>,
        >::empty().insert(d, t),
{
    reveal_strlit("addtoken(");
    reveal_strlit(", \"");
    reveal_strlit("\")");
    let dd = decimal(d as nat);
    let s = "addtoken("@ + dd + ", \""@ + t + "\")"@;
    crate::text::lemma_decimal_digits(d as nat);
    crate::text::law_decimal_round_trip(d as nat, u32_max());
    let a: int = 9;
    let d1: int = 9 + dd.len() as int;
    let w: int = d1 + 2;
    let d2: int = w + 1 + t.len() as int;
    assert(s.len() == d2 + 2);
    assert(s.subrange(0, 9) =~= crate::lua::lit_addtoken());
    assert(occurs_at(s, crate::lua::lit_addtoken(), 0));
    assert forall|k: int| a <= k < d1 implies crate::lua::in_class(
        crate::lua::CharClass::Digit,
        #[trigger] s[k],
    ) by {
        assert(s[k] == dd[k - 9]);
        assert(crate::text::is_digit(dd[k - 9]));
    }
    assert(s[d1] == ',');
    crate::lua::lemma_run_end(s, a, d1, crate::lua::CharClass::Digit);
    assert(s[d1 + 1] == ' ');
    assert(s[w] == '"');
    crate::lua::lemma_run_end(s, d1 + 1, w, crate::lua::CharClass::Space);
    assert forall|k: int| w + 1 <= k < d2 implies crate::lua::in_class(
        crate::lua::CharClass::Digit,
        #[trigger] s[k],
    ) by {
        assert(s[k] == t[k - w - 1]);
    }
    assert(s[d2] == '"');
    crate::lua::lemma_run_end(s, w + 1, d2, crate::lua::CharClass::Digit);
    assert(s[d2 + 1] == ')');
    assert(s.subrange(a, d1) =~= dd);
    assert(s.subrange(w + 1, d2) =~= t);
    let caps = seq![dd, t];
    assert(crate::lua::token_at(s, 0) == Some((d2 + 2, caps)));
    assert(crate::lua::matches_from(Pattern::Token, s, d2 + 2) =~= Seq::<Seq<Seq<char>>>::empty());
    let ms = all_matches(Pattern::Token, s);
    assert(ms =~= seq![caps]);
    assert(ms.drop_last() =~= Seq::<Seq<Seq<char>>>::empty());
    assert(id_of(dd) == d);
    assert(ms.last() == caps);
    assert(caps[0] == dd && caps[1] == t);
    assert(tokens_spec(ms.drop_last()) == Map::<u32, Seq<char>>::empty());
    assert(tokens_spec(ms) == tokens_spec(ms.drop_last()).insert(id_of(dd), t));
    assert(tokens_spec(ms) =~= Map::<u32, Seq<char>>::empty().insert(d, t));
}

/// Every `.manifest` member of a bundle that opens, whose name is not a
/// script's and holds no `__MACOSX`, is stored under its name, with its
/// bytes when it was read to the end.
pub proof fn law_bundle_stores_every_manifest(es: Seq<crate::archive::EntryView>)
    ensures
        forall|i: int|
            0 <= i < es.len() && (#[trigger] es[i] matches Some((n, data)) && crate::text::ends_with_seq(
                n,
                ".manifest"@,
            ) && !crate::text::ends_with_seq(n, ".lua"@) && !crate::text::contains_seq(
                n,
                "__MACOSX"@,
            )) ==> scan_members(es).manifests.contains(es[i]->0),
    decreases es.len(),
{
    if es.len() > 0 {
        let prev = es.drop_last();
        law_bundle_stores_every_manifest(prev);
        let pm = scan_members(prev).manifests;
        let cm = scan_members(es).manifests;
        assert(cm == pm || cm == pm.push(es.last()->0));
        assert forall|i: int|
            0 <= i < es.len() && (#[trigger] es[i] matches Some((n, data)) && crate::text::ends_with_seq(
                n,
                ".manifest"@,
            ) && !crate::text::ends_with_seq(n, ".lua"@) && !crate::text::contains_seq(
                n,
                "__MACOSX"@,
            )) implies cm.contains(es[i]->0) by {
            if i < es.len() - 1 {
                assert(prev[i] == es[i]);
                let k = choose|k: int| 0 <= k < pm.len() && pm[k] == es[i]->0;
                if cm != pm {
                    assert(cm[k] == pm[k]);
                }
            } else {
                assert(es[i] == es.last());
                assert(cm == pm.push(es.last()->0));
                assert(cm[pm.len() as int] == es[i]->0);
            }
        }
    }
}

} // verus!
