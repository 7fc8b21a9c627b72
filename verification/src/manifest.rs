//! Finding the manifests of a game's depots: reading manifest ids out of the
//! Steam information replies, choosing which services to ask, and the names
//! and contents of the files that a download needs.

use std::collections::HashMap;
use vstd::prelude::*;
use crate::json::{as_str, get, get_opt, member, to_u64, Json};
use crate::parser::{depots_view, DepotSpec, GameInfo};
use crate::text::{
    chars_of, decimal, decimal_string, parse_unsigned, parse_unsigned_exec, starts_with_exec,
    starts_with_seq, trim, trimmed,
};

verus! {

broadcast use {vstd::std_specs::hash::group_hash_axioms, vstd::string::group_string_axioms};

// ---------------------------------------------------------------------------
// Manifest ids in a depot description
// ---------------------------------------------------------------------------

/// The gid of the public branch of a depot description, when it reads as a
/// `u64`.
pub open spec fn public_gid(depot: Json) -> Option<u64> {
    match get_opt(get_opt(get(depot, "manifests"@), "public"@), "gid"@) {
        Some(g) => to_u64(g),
        None => None,
    }
}

/// The first branch, in member order, whose `gid` reads as a `u64`.
pub open spec fn first_branch_gid(es: Seq<(String, Json)>) -> Option<u64>
    decreases es.len(),
{
    if es.len() == 0 {
        None
    } else {
        match get(es[0].1, "gid"@) {
            Some(g) => match to_u64(g) {
                Some(x) => Some(x),
                None => first_branch_gid(es.drop_first()),
            },
            None => first_branch_gid(es.drop_first()),
        }
    }
}

/// The manifest id that a depot description names: the public branch's gid,
/// else the first branch gid that reads as a number.
pub open spec fn manifest_gid(depot: Json) -> Option<u64> {
    match public_gid(depot) {
        Some(x) => Some(x),
        None => match get(depot, "manifests"@) {
            Some(Json::Object(es)) => first_branch_gid(es@),
            _ => None,
        },
    }
}

fn first_branch_gid_exec(es: &Vec<(String, Json)>) -> (r: Option<u64>)
    ensures
        r == first_branch_gid(es@),
{
    let gid_key = "gid".to_string();
    let mut i: usize = 0;
    assert(es@.subrange(0, es@.len() as int) =~= es@);
    while i < es.len()
        invariant
            i <= es.len(),
            gid_key@ == "gid"@,
            first_branch_gid(es@) == first_branch_gid(es@.subrange(i as int, es@.len() as int)),
        decreases es.len() - i,
    {
        assert(es@.subrange(i as int, es@.len() as int).drop_first() =~= es@.subrange(
            i + 1,
            es@.len() as int,
        ));
        assert(es@.subrange(i as int, es@.len() as int)[0] == es@[i as int]);
        match es[i].1.get(&gid_key) {
            Some(g) => match g.to_u64() {
                Some(x) => {
                    return Some(x);
                },
                None => {},
            },
            None => {},
        }
        i = i + 1;
    }
    None
}

/// The manifest id that a depot description names: the gid of its public
/// branch, else the first branch gid that reads as a `u64`.
pub fn extract_manifest_gid(depot: &Json) -> (r: Option<u64>)
    ensures
        r == manifest_gid(*depot),
{
    let manifests_key = "manifests".to_string();
    let public_key = "public".to_string();
    let gid_key = "gid".to_string();
    let manifests = depot.get(&manifests_key);
    match manifests {
        Some(m) => {
            match m.get(&public_key) {
                Some(p) => match p.get(&gid_key) {
                    Some(g) => match g.to_u64() {
                        Some(x) => {
                            return Some(x);
                        },
                        None => {},
                    },
                    None => {},
                },
                None => {},
            }
            match m {
                Json::Object(es) => first_branch_gid_exec(es),
                _ => None,
            }
        },
        None => None,
    }
}

// ---------------------------------------------------------------------------
// Searching a reply for a depot
// ---------------------------------------------------------------------------

/// Members that the search does not descend into.
pub open spec fn skipped_key(k: Seq<char>) -> bool {
    ||| k == "branches"@
    ||| k == "privatebranches"@
    ||| k == "common"@
    ||| k == "extended"@
    ||| k == "config"@
}

/// The deepest level that the search visits.
pub open spec fn max_depth() -> int {
    5
}

/// Searches `v` for a description of the depot named `key`, to depth 5: an
/// object's own member `key` first, then its members in order (skipping the
/// branch and configuration members), then array items in order.
pub open spec fn search(v: Json, key: Seq<char>, depth: int) -> Option<u64>
    decreases 6 - depth, 2int, 0int,
{
    if depth > max_depth() || depth < 0 {
        None
    } else {
        match v {
            Json::Object(es) => {
                let direct = match member(es@, key) {
                    Some(x) => manifest_gid(x),
                    None => None,
                };
                match direct {
                    Some(g) => Some(g),
                    None => search_members(es@, key, depth, 0),
                }
            },
            Json::Array(items) => search_items(items@, key, depth, 0),
            _ => None,
        }
    }
}

/// The search continued over the members of an object, from index `i`.
pub open spec fn search_members(es: Seq<(String, Json)>, key: Seq<char>, depth: int, i: int) -> Option<
    u64,
>
    decreases 6 - depth, 1int, es.len() - i,
{
    if depth > max_depth() || depth < 0 || i < 0 || i >= es.len() {
        None
    } else if skipped_key(es[i].0@) {
        search_members(es, key, depth, i + 1)
    } else {
        match search(es[i].1, key, depth + 1) {
            Some(g) => Some(g),
            None => search_members(es, key, depth, i + 1),
        }
    }
}

/// The search continued over the items of an array, from index `i`.
pub open spec fn search_items(items: Seq<Json>, key: Seq<char>, depth: int, i: int) -> Option<u64>
    decreases 6 - depth, 1int, items.len() - i,
{
    if depth > max_depth() || depth < 0 || i < 0 || i >= items.len() {
        None
    } else {
        match search(items[i], key, depth + 1) {
            Some(g) => Some(g),
            None => search_items(items, key, depth, i + 1),
        }
    }
}

fn is_skipped_key(k: &String) -> (r: bool)
    ensures
        r == skipped_key(k@),
{
    *k == "branches".to_string() || *k == "privatebranches".to_string() || *k
        == "common".to_string() || *k == "extended".to_string() || *k == "config".to_string()
}

fn search_exec(v: &Json, key: &String, depth: usize) -> (r: Option<u64>)
    requires
        depth <= 6,
    ensures
        r == search(*v, key@, depth as int),
    decreases 6 - depth,
{
    if depth > 5 {
        return None;
    }
    match v {
        Json::Object(es) => {
            match crate::json::member_exec(es, key) {
                Some(x) => match extract_manifest_gid(x) {
                    Some(g) => {
                        return Some(g);
                    },
                    None => {},
                },
                None => {},
            }
            let mut i: usize = 0;
            assert(search(*v, key@, depth as int) == search_members(es@, key@, depth as int, 0));
            while i < es.len()
                invariant
                    i <= es.len(),
                    depth <= 5,
                    search(*v, key@, depth as int) == search_members(es@, key@, depth as int, 0),
                    search_members(es@, key@, depth as int, 0) == search_members(
                        es@,
                        key@,
                        depth as int,
                        i as int,
                    ),
                decreases es.len() - i,
            {
                if !is_skipped_key(&es[i].0) {
                    match search_exec(&es[i].1, key, depth + 1) {
                        Some(g) => {
                            return Some(g);
                        },
                        None => {},
                    }
                }
                i = i + 1;
            }
            None
        },
        Json::Array(items) => {
            let mut i: usize = 0;
            while i < items.len()
                invariant
                    i <= items.len(),
                    depth <= 5,
                    search(*v, key@, depth as int) == search_items(items@, key@, depth as int, 0),
                    search_items(items@, key@, depth as int, 0) == search_items(
                        items@,
                        key@,
                        depth as int,
                        i as int,
                    ),
                decreases items.len() - i,
            {
                match search_exec(&items[i], key, depth + 1) {
                    Some(g) => {
                        return Some(g);
                    },
                    None => {},
                }
                i = i + 1;
            }
            None
        },
        _ => None,
    }
}

/// Searches a reply of the app information service for the depot `target`
/// and returns the manifest id of the first description of it found (see
/// `search`).
pub fn find_manifest_in_data(data: &Json, target: u32) -> (r: Option<u64>)
    ensures
        r == search(*data, decimal(target as nat), 0),
{
    let key = decimal_string(target as u64);
    search_exec(data, &key, 0)
}

// ---------------------------------------------------------------------------
// Manifest ids from the app information reply
// ---------------------------------------------------------------------------

/// The members of an object value.
pub open spec fn object_members(v: Option<Json>) -> Option<Seq<(String, Json)>> {
    match v {
        Some(Json::Object(es)) => Some(es@),
        _ => None,
    }
}

/// The `depots` objects of a list of branches, in branch order.
pub open spec fn branch_depot_lists(bs: Seq<(String, Json)>) -> Seq<Seq<(String, Json)>>
    decreases bs.len(),
{
    if bs.len() == 0 {
        Seq::empty()
    } else {
        let prev = branch_depot_lists(bs.drop_last());
        match object_members(get(bs.last().1, "depots"@)) {
            Some(es) => prev.push(es),
            None => prev,
        }
    }
}

/// The depot listings of an app description, in the order they are
/// consulted: the app's own `depots`, then each branch's, then each private
/// branch's.
pub open spec fn depot_sources(root: Json) -> Seq<Seq<(String, Json)>> {
    let own = match object_members(get(root, "depots"@)) {
        Some(es) => seq![es],
        None => Seq::empty(),
    };
    let br = match object_members(get(root, "branches"@)) {
        Some(bs) => branch_depot_lists(bs),
        None => Seq::empty(),
    };
    let pb = match object_members(get(root, "privatebranches"@)) {
        Some(bs) => branch_depot_lists(bs),
        None => Seq::empty(),
    };
    own + br + pb
}

/// The first listing that mentions the depot `key` decides: `Some` of the
/// manifest id its description names (which may be `None`); `None` when no
/// listing mentions it.
pub open spec fn source_lookup(srcs: Seq<Seq<(String, Json)>>, key: Seq<char>) -> Option<Option<u64>>
    decreases srcs.len(),
{
    if srcs.len() == 0 {
        None
    } else {
        match member(srcs[0], key) {
            Some(v) => Some(manifest_gid(v)),
            None => source_lookup(srcs.drop_first(), key),
        }
    }
}

/// Adds to `base`, for each id of `ids` in order that it lacks, the value
/// that `f` gives, if any.
pub open spec fn fill(base: Map<u32, u64>, ids: Seq<u32>, f: spec_fn(u32) -> Option<u64>) -> Map<
    u32,
    u64,
>
    decreases ids.len(),
{
    if ids.len() == 0 {
        base
    } else {
        let prev = fill(base, ids.drop_last(), f);
        let d = ids.last();
        if prev.contains_key(d) {
            prev
        } else {
            match f(d) {
                Some(g) => prev.insert(d, g),
                None => prev,
            }
        }
    }
}

/// Manifest ids from the depot listings of an app description.
pub open spec fn from_listings(root: Json) -> spec_fn(u32) -> Option<u64> {
    |d: u32|
        match source_lookup(depot_sources(root), decimal(d as nat)) {
            Some(Some(g)) => Some(g),
            _ => None,
        }
}

/// Manifest ids from the `hasdepotsindlc` member of an app description.
pub open spec fn from_dlc_listing(root: Json) -> spec_fn(u32) -> Option<u64> {
    |d: u32|
        match object_members(get(root, "hasdepotsindlc"@)) {
            Some(es) => match member(es, decimal(d as nat)) {
                Some(v) => manifest_gid(v),
                None => None,
            },
            None => None,
        }
}

/// Manifest ids pinned by the depot script.
pub open spec fn from_pinned(pinned: Map<u32, u64>) -> spec_fn(u32) -> Option<u64> {
    |d: u32|
        if pinned.contains_key(d) {
            Some(pinned[d])
        } else {
            None
        }
}

/// The ids of the depots of a game.
pub open spec fn game_depot_ids(info: crate::parser::GameInfoSpec) -> Seq<u32> {
    crate::parser::depot_ids(info.depots)
}

/// The app description for the game's app id in a reply of the app
/// information service.
pub open spec fn app_root(info: crate::parser::GameInfoSpec, reply: Option<Json>) -> Option<Json> {
    let appid = match info.appid {
        Some(a) => a,
        None => 0,
    };
    get_opt(get_opt(reply, "data"@), decimal(appid as nat))
}

/// The manifest ids known from the app's own reply and the script: for each
/// depot, the depot listings first, then the DLC listing, then the id the
/// script pins.
pub open spec fn known_manifests(info: crate::parser::GameInfoSpec, reply: Option<Json>) -> Map<
    u32,
    u64,
> {
    let ids = game_depot_ids(info);
    let from_reply = match app_root(info, reply) {
        Some(root) => fill(fill(Map::empty(), ids, from_listings(root)), ids, from_dlc_listing(root)),
        None => Map::empty(),
    };
    fill(from_reply, ids, from_pinned(info.manifest_ids))
}

fn depot_id_list(info: &GameInfo) -> (r: Vec<u32>)
    ensures
        r@ == crate::parser::depot_ids(depots_view(info.depots@)),
{
    let mut out: Vec<u32> = Vec::new();
    let mut k: usize = 0;
    while k < info.depots.len()
        invariant
            k <= info.depots.len(),
            out@ == crate::parser::depot_ids(depots_view(info.depots@)).take(k as int),
        decreases info.depots.len() - k,
    {
        out.push(info.depots[k].id);
        k = k + 1;
        assert(out@ =~= crate::parser::depot_ids(depots_view(info.depots@)).take(k as int));
    }
    assert(out@ =~= crate::parser::depot_ids(depots_view(info.depots@)));
    out
}

fn object_members_exec(v: Option<&Json>) -> (r: Option<&Vec<(String, Json)>>)
    ensures
        match object_members(match v {
            Some(x) => Some(*x),
            None => None,
        }) {
            Some(es) => r matches Some(x) && x@ == es,
            None => r is None,
        },
{
    match v {
        Some(Json::Object(es)) => Some(es),
        _ => None,
    }
}

fn branch_depot_lists_exec<'a>(bs: &'a Vec<(String, Json)>, out: &mut Vec<&'a Vec<(String, Json)>>)
    ensures
        final(out)@.map_values(|x: &Vec<(String, Json)>| x@) == old(out)@.map_values(
            |x: &Vec<(String, Json)>| x@,
        ) + branch_depot_lists(bs@),
{
    let depots_key = "depots".to_string();
    let ghost start = out@.map_values(|x: &Vec<(String, Json)>| x@);
    let mut k: usize = 0;
    assert(start + branch_depot_lists(bs@.take(0)) =~= start);
    while k < bs.len()
        invariant
            k <= bs.len(),
            depots_key@ == "depots"@,
            out@.map_values(|x: &Vec<(String, Json)>| x@) == start + branch_depot_lists(
                bs@.take(k as int),
            ),
        decreases bs.len() - k,
    {
        assert(bs@.take(k + 1).drop_last() =~= bs@.take(k as int));
        assert(bs@.take(k + 1).last() == bs@[k as int]);
        let ghost before = out@;
        match object_members_exec(bs[k].1.get(&depots_key)) {
            Some(es) => {
                out.push(es);
                assert(out@.map_values(|x: &Vec<(String, Json)>| x@) =~= before.map_values(
                    |x: &Vec<(String, Json)>| x@,
                ).push(es@));
            },
            None => {},
        }
        k = k + 1;
    }
    assert(bs@.take(bs.len() as int) =~= bs@);
}

fn depot_sources_exec(root: &Json) -> (r: Vec<&Vec<(String, Json)>>)
    ensures
        r@.map_values(|x: &Vec<(String, Json)>| x@) == depot_sources(*root),
{
    let mut out: Vec<&Vec<(String, Json)>> = Vec::new();
    let depots_key = "depots".to_string();
    let branches_key = "branches".to_string();
    let private_key = "privatebranches".to_string();
    match object_members_exec(root.get(&depots_key)) {
        Some(es) => {
            out.push(es);
        },
        None => {},
    }
    let ghost own = out@.map_values(|x: &Vec<(String, Json)>| x@);
    match object_members_exec(root.get(&branches_key)) {
        Some(bs) => branch_depot_lists_exec(bs, &mut out),
        None => {},
    }
    let ghost with_branches = out@.map_values(|x: &Vec<(String, Json)>| x@);
    match object_members_exec(root.get(&private_key)) {
        Some(bs) => branch_depot_lists_exec(bs, &mut out),
        None => {},
    }
    proof {
        let own_s = match object_members(get(*root, "depots"@)) {
            Some(es) => seq![es],
            None => Seq::<Seq<(String, Json)>>::empty(),
        };
        assert(own =~= own_s);
        let br = match object_members(get(*root, "branches"@)) {
            Some(bs) => branch_depot_lists(bs),
            None => Seq::<Seq<(String, Json)>>::empty(),
        };
        assert(with_branches =~= own_s + br);
        let pb = match object_members(get(*root, "privatebranches"@)) {
            Some(bs) => branch_depot_lists(bs),
            None => Seq::<Seq<(String, Json)>>::empty(),
        };
        assert(out@.map_values(|x: &Vec<(String, Json)>| x@) =~= own_s + br + pb);
    }
    out
}

fn source_lookup_exec(srcs: &Vec<&Vec<(String, Json)>>, key: &String) -> (r: Option<Option<u64>>)
    ensures
        r == source_lookup(srcs@.map_values(|x: &Vec<(String, Json)>| x@), key@),
{
    let ghost sv = srcs@.map_values(|x: &Vec<(String, Json)>| x@);
    let mut k: usize = 0;
    assert(sv.subrange(0, sv.len() as int) =~= sv);
    while k < srcs.len()
        invariant
            k <= srcs.len(),
            sv == srcs@.map_values(|x: &Vec<(String, Json)>| x@),
            source_lookup(sv, key@) == source_lookup(sv.subrange(k as int, sv.len() as int), key@),
        decreases srcs.len() - k,
    {
        assert(sv.subrange(k as int, sv.len() as int).drop_first() =~= sv.subrange(
            k + 1,
            sv.len() as int,
        ));
        assert(sv.subrange(k as int, sv.len() as int)[0] == srcs@[k as int]@);
        match crate::json::member_exec(srcs[k], key) {
            Some(v) => {
                return Some(extract_manifest_gid(v));
            },
            None => {},
        }
        k = k + 1;
    }
    None
}

/// The manifest ids known for the depots of `info` from the reply of the app
/// information service for its own app id (`None` when the request or the
/// decoding failed) and from the ids the script pins.
pub fn known_manifests_exec(info: &GameInfo, reply: Option<&Json>) -> (r: HashMap<u32, u64>)
    ensures
        r@ == known_manifests(info@, match reply {
            Some(x) => Some(*x),
            None => None,
        }),
{
    let ghost reply_v = match reply {
        Some(x) => Some(*x),
        None => None,
    };
    let appid = match info.appid {
        Some(a) => a,
        None => 0,
    };
    let ids = depot_id_list(info);
    let mut result: HashMap<u32, u64> = HashMap::new();
    let data_key = "data".to_string();
    let app_key = decimal_string(appid as u64);
    let data = match reply {
        Some(x) => x.get(&data_key),
        None => None,
    };
    let root = match data {
        Some(d) => d.get(&app_key),
        None => None,
    };
    assert(match root {
        Some(x) => Some(*x),
        None => None,
    } == app_root(info@, reply_v));
    match root {
        Some(root) => {
            let srcs = depot_sources_exec(root);
            let ghost f = from_listings(*root);
            let mut k: usize = 0;
            assert(result@ =~= fill(Map::empty(), ids@.take(0), f));
            while k < ids.len()
                invariant
                    k <= ids.len(),
                    srcs@.map_values(|x: &Vec<(String, Json)>| x@) == depot_sources(*root),
                    f == from_listings(*root),
                    result@ == fill(Map::empty(), ids@.take(k as int), f),
                decreases ids.len() - k,
            {
                assert(ids@.take(k + 1).drop_last() =~= ids@.take(k as int));
                let d = ids[k];
                if !result.contains_key(&d) {
                    let key = decimal_string(d as u64);
                    match source_lookup_exec(&srcs, &key) {
                        Some(Some(g)) => {
                            result.insert(d, g);
                        },
                        _ => {},
                    }
                }
                k = k + 1;
            }
            assert(ids@.take(ids.len() as int) =~= ids@);
            let ghost after_listings = result@;
            let ghost f2 = from_dlc_listing(*root);
            let hdlc_key = "hasdepotsindlc".to_string();
            let hdlc = object_members_exec(root.get(&hdlc_key));
            let mut k: usize = 0;
            assert(result@ =~= fill(after_listings, ids@.take(0), f2));
            while k < ids.len()
                invariant
                    k <= ids.len(),
                    f2 == from_dlc_listing(*root),
                    match object_members(get(*root, "hasdepotsindlc"@)) {
                        Some(es) => hdlc matches Some(x) && x@ == es,
                        None => hdlc is None,
                    },
                    result@ == fill(after_listings, ids@.take(k as int), f2),
                decreases ids.len() - k,
            {
                assert(ids@.take(k + 1).drop_last() =~= ids@.take(k as int));
                let d = ids[k];
                if !result.contains_key(&d) {
                    match hdlc {
                        Some(es) => {
                            let key = decimal_string(d as u64);
                            match crate::json::member_exec(es, &key) {
                                Some(v) => match extract_manifest_gid(v) {
                                    Some(g) => {
                                        result.insert(d, g);
                                    },
                                    None => {},
                                },
                                None => {},
                            }
                        },
                        None => {},
                    }
                }
                k = k + 1;
            }
            assert(ids@.take(ids.len() as int) =~= ids@);
        },
        None => {},
    }
    let ghost from_reply = result@;
    let ghost f3 = from_pinned(info.manifest_ids@);
    let mut k: usize = 0;
    assert(result@ =~= fill(from_reply, ids@.take(0), f3));
    while k < ids.len()
        invariant
            k <= ids.len(),
            f3 == from_pinned(info.manifest_ids@),
            result@ == fill(from_reply, ids@.take(k as int), f3),
        decreases ids.len() - k,
    {
        assert(ids@.take(k + 1).drop_last() =~= ids@.take(k as int));
        let d = ids[k];
        if !result.contains_key(&d) {
            match info.manifest_ids.get(&d) {
                Some(m) => {
                    result.insert(d, *m);
                },
                None => {},
            }
        }
        k = k + 1;
    }
    assert(ids@.take(ids.len() as int) =~= ids@);
    result
}

// ---------------------------------------------------------------------------
// Asking the neighbouring app ids
// ---------------------------------------------------------------------------

/// The depot ids of `ids`, in order, that `found` has no manifest id for.
pub open spec fn missing_ids(ids: Seq<u32>, found: Map<u32, u64>) -> Seq<u32>
    decreases ids.len(),
{
    if ids.len() == 0 {
        Seq::empty()
    } else {
        let prev = missing_ids(ids.drop_last(), found);
        if found.contains_key(ids.last()) {
            prev
        } else {
            prev.push(ids.last())
        }
    }
}

/// The depot ids of `info` that `found` has no manifest id for, in depot order.
pub fn missing_depots(info: &GameInfo, found: &HashMap<u32, u64>) -> (r: Vec<u32>)
    ensures
        r@ == missing_ids(game_depot_ids(info@), found@),
{
    let ids = depot_id_list(info);
    let mut out: Vec<u32> = Vec::new();
    let mut k: usize = 0;
    while k < ids.len()
        invariant
            k <= ids.len(),
            ids@ == game_depot_ids(info@),
            out@ == missing_ids(ids@.take(k as int), found@),
        decreases ids.len() - k,
    {
        assert(ids@.take(k + 1).drop_last() =~= ids@.take(k as int));
        let d = ids[k];
        if !found.contains_key(&d) {
            out.push(d);
        }
        k = k + 1;
    }
    assert(ids@.take(ids.len() as int) =~= ids@);
    out
}

/// The app id asked about a missing depot: first the id above it, then the
/// one below it (wrapping below 0).
pub open spec fn neighbor(d: u32, step: nat) -> u32 {
    if step == 0 {
        (d + 1) as u32
    } else if d == 0 {
        0xffff_ffffu32
    } else {
        (d - 1) as u32
    }
}

/// The state of the neighbour search: which depot and which neighbour comes
/// next, and the manifest ids found so far.
pub struct NeighborSpec {
    pub appid: u32,
    pub found: Map<u32, u64>,
    pub missing: Seq<u32>,
    pub pos: nat,
    pub step: nat,
}

/// The next (depot, neighbour) position after `(pos, step)`.
pub open spec fn advance(pos: nat, step: nat) -> (nat, nat) {
    if step == 0 {
        (pos, 1)
    } else {
        (pos + 1, 0)
    }
}

/// From `(pos, step)`, the first position whose neighbour is not the app
/// itself (the app's own reply has already been read).
pub open spec fn skip_own_app(appid: u32, missing: Seq<u32>, pos: nat, step: nat) -> (nat, nat)
    decreases 2 * (missing.len() - pos) + 1 - step,
{
    if pos < missing.len() && step <= 1 && neighbor(missing[pos as int], step) == appid {
        let (p, s) = advance(pos, step);
        skip_own_app(appid, missing, p, s)
    } else {
        (pos, step)
    }
}

proof fn lemma_skip_own_app_moves_forward(appid: u32, missing: Seq<u32>, pos: nat, step: nat)
    ensures
        ({
            let (p, s) = skip_own_app(appid, missing, pos, step);
            2 * p + s >= 2 * pos + step
        }),
        pos < missing.len() && step <= 1 && neighbor(missing[pos as int], step) == appid ==> ({
            let (p, s) = skip_own_app(appid, missing, pos, step);
            2 * p + s > 2 * pos + step
        }),
    decreases 2 * (missing.len() - pos) + 1 - step,
{
    if pos < missing.len() && step <= 1 && neighbor(missing[pos as int], step) == appid {
        let (p, s) = advance(pos, step);
        lemma_skip_own_app_moves_forward(appid, missing, p, s);
    }
}

/// The search positioned at `(pos, step)`, skipping the app's own id.
pub open spec fn positioned(st: NeighborSpec, pos: nat, step: nat) -> NeighborSpec {
    let (p, s) = skip_own_app(st.appid, st.missing, pos, step);
    NeighborSpec { pos: p, step: s, ..st }
}

/// The search after the reply for the current neighbour: the first
/// description of the current depot found in it (see `search`) settles the
/// depot; otherwise the next neighbour, or the next depot, comes.
pub open spec fn after_reply(st: NeighborSpec, reply: Option<Json>) -> NeighborSpec {
    let d = st.missing[st.pos as int];
    let hit = match reply {
        Some(j) => search(j, decimal(d as nat), 0),
        None => None,
    };
    match hit {
        Some(g) => positioned(NeighborSpec { found: st.found.insert(d, g), ..st }, st.pos + 1, 0),
        None => {
            let (p, s) = advance(st.pos, st.step);
            positioned(st, p, s)
        },
    }
}

/// The search over the neighbouring app ids of the depots whose manifest id
/// is still unknown.
pub struct NeighborLookup {
    appid: u32,
    found: HashMap<u32, u64>,
    missing: Vec<u32>,
    pos: usize,
    step: usize,
}

impl View for NeighborLookup {
    type V = NeighborSpec;

    closed spec fn view(&self) -> NeighborSpec {
        NeighborSpec {
            appid: self.appid,
            found: self.found@,
            missing: self.missing@,
            pos: self.pos as nat,
            step: self.step as nat,
        }
    }
}

/// Every id below the largest `u32`, so that the id above it exists.
pub open spec fn all_below_max(ids: Seq<u32>) -> bool {
    forall|i: int| 0 <= i < ids.len() ==> #[trigger] ids[i] < 0xffff_ffffu32
}

impl NeighborLookup {
    /// Well-formedness: the position lies in range, and the current
    /// neighbour is never the app itself.
    pub closed spec fn wf(&self) -> bool {
        &&& self.pos <= self.missing.len()
        &&& self.step <= 1
        &&& all_below_max(self.missing@)
        &&& skip_own_app(self.appid, self.missing@, self.pos as nat, self.step as nat) == (
            self.pos as nat,
            self.step as nat,
        )
    }

    fn position(&mut self, pos: usize, step: usize)
        requires
            pos <= old(self).missing.len(),
            step <= 1,
            all_below_max(old(self).missing@),
        ensures
            final(self)@ == positioned(old(self)@, pos as nat, step as nat),
            final(self).wf(),
    {
        let mut p = pos;
        let mut s = step;
        while p < self.missing.len() && self.neighbor_of(self.missing[p], s) == self.appid
            invariant
                p <= self.missing.len(),
                s <= 1,
                self.missing@ == old(self).missing@,
                self.appid == old(self).appid,
                all_below_max(self.missing@),
                skip_own_app(self.appid, self.missing@, pos as nat, step as nat) == skip_own_app(
                    self.appid,
                    self.missing@,
                    p as nat,
                    s as nat,
                ),
            decreases 2 * (self.missing.len() - p) + 1 - s,
        {
            if s == 0 {
                s = 1;
            } else {
                p = p + 1;
                s = 0;
            }
        }
        self.pos = p;
        self.step = s;
    }

    fn neighbor_of(&self, d: u32, step: usize) -> (r: u32)
        requires
            step <= 1,
            d < 0xffff_ffffu32,
        ensures
            r == neighbor(d, step as nat),
    {
        if step == 0 {
            d + 1
        } else {
            d.wrapping_sub(1)
        }
    }

    /// Starts the search for the depots `missing`, the app itself being
    /// `appid` and the manifest ids known so far `found`. The id above each
    /// missing depot must exist.
    pub fn new(appid: u32, found: HashMap<u32, u64>, missing: Vec<u32>) -> (r: NeighborLookup)
        requires
            all_below_max(missing@),
        ensures
            r.wf(),
            r@ == positioned(
                NeighborSpec { appid, found: found@, missing: missing@, pos: 0, step: 0 },
                0,
                0,
            ),
    {
        let mut st = NeighborLookup { appid, found, missing, pos: 0, step: 0 };
        st.position(0, 0);
        st
    }

    /// The app id to ask next, or `None` when the search is over.
    pub fn next_app(&self) -> (r: Option<u32>)
        requires
            self.wf(),
        ensures
            self@.pos < self@.missing.len() ==> r == Some(
                neighbor(self@.missing[self@.pos as int], self@.step),
            ),
            self@.pos >= self@.missing.len() ==> r is None,
            r matches Some(a) ==> a != self@.appid,
    {
        proof {
            lemma_skip_own_app_moves_forward(self.appid, self.missing@, self.pos as nat, self.step as nat);
        }
        if self.pos < self.missing.len() {
            Some(self.neighbor_of(self.missing[self.pos], self.step))
        } else {
            None
        }
    }

    /// Takes the reply for the app id `next_app` named (`None` when the
    /// request or its decoding failed).
    pub fn on_reply(&mut self, reply: Option<&Json>)
        requires
            old(self).wf(),
            old(self)@.pos < old(self)@.missing.len(),
        ensures
            final(self).wf(),
            final(self)@ == after_reply(old(self)@, match reply {
                Some(x) => Some(*x),
                None => None,
            }),
    {
        let d = self.missing[self.pos];
        let hit = match reply {
            Some(j) => find_manifest_in_data(j, d),
            None => None,
        };
        match hit {
            Some(g) => {
                self.found.insert(d, g);
                let p = self.pos + 1;
                self.position(p, 0);
            },
            None => {
                if self.step == 0 {
                    let p = self.pos;
                    self.position(p, 1);
                } else {
                    let p = self.pos + 1;
                    self.position(p, 0);
                }
            },
        }
    }

    /// The manifest ids found, by depot id.
    pub fn into_found(self) -> (r: HashMap<u32, u64>)
        ensures
            r@ == self@.found,
    {
        self.found
    }
}

// ---------------------------------------------------------------------------
// Services and request codes
// ---------------------------------------------------------------------------

/// The app information service; an app's description is at this address
/// followed by the app id.
pub const STEAMCMD_API: &'static str = "https://api.steamcmd.net/v1/info/";

/// The content server that manifests are downloaded from.
pub const CDN_BASE: &'static str = "http://steamcdn-a.akamaihd.net";

/// The address of the description of app `appid`.
pub fn app_info_url(appid: u32) -> (r: String)
    ensures
        r@ == STEAMCMD_API@ + decimal(appid as nat),
{
    let n = decimal_string(appid as u64);
    let mut url = String::from_str(STEAMCMD_API);
    url.append(n.as_str());
    url
}

/// A service that hands out manifest request codes.
pub struct RequestCodeSource {
    /// The address prefix; the manifest id follows it.
    pub base: &'static str,
    /// The reply is a JSON object whose `content` member is the code;
    /// otherwise the reply text itself is the code.
    pub json_content: bool,
    /// The `User-Agent` header to send, if any.
    pub user_agent: Option<&'static str>,
}

/// The request code services, in the order they are tried.
pub fn request_code_sources() -> (r: Vec<RequestCodeSource>)
    ensures
        r@.len() == 4,
        r@[0].base@ == "https://manifest.steam.ooo/"@ && !r@[0].json_content && r@[0].user_agent
            is None,
        r@[1].base@ == "https://manifest.opensteamtool.com/"@ && !r@[1].json_content
            && (r@[1].user_agent matches Some(ua) && ua@ == "OpenSteamTool/1.0"@),
        r@[2].base@ == "http://gmrc.wudrm.com/manifest/"@ && !r@[2].json_content && r@[2].user_agent
            is None,
        r@[3].base@ == "https://manifest.steam.run/api/manifest/"@ && r@[3].json_content
            && r@[3].user_agent is None,
{
    let mut v: Vec<RequestCodeSource> = Vec::new();
    v.push(
        RequestCodeSource { base: "https://manifest.steam.ooo/", json_content: false, user_agent: None },
    );
    v.push(
        RequestCodeSource {
            base: "https://manifest.opensteamtool.com/",
            json_content: false,
            user_agent: Some("OpenSteamTool/1.0"),
        },
    );
    v.push(
        RequestCodeSource {
            base: "http://gmrc.wudrm.com/manifest/",
            json_content: false,
            user_agent: None,
        },
    );
    v.push(
        RequestCodeSource {
            base: "https://manifest.steam.run/api/manifest/",
            json_content: true,
            user_agent: None,
        },
    );
    v
}

/// The address at which `source` hands out the request code of manifest `mid`.
pub fn request_code_url(source: &RequestCodeSource, mid: u64) -> (r: String)
    ensures
        r@ == source.base@ + decimal(mid as nat),
{
    let n = decimal_string(mid);
    let mut url = String::from_str(source.base);
    url.append(n.as_str());
    url
}

/// The code a reply carries: the `content` member of the decoded reply for a
/// JSON service, else the reply text trimmed.
pub open spec fn reply_code(json_content: bool, text: Seq<char>, decoded: Option<Json>) -> Option<
    Seq<char>,
> {
    if json_content {
        match get_opt(decoded, "content"@) {
            Some(c) => as_str(c),
            None => None,
        }
    } else {
        Some(trim(text))
    }
}

/// The code a reply carries, when it is a valid `u64` in decimal.
pub open spec fn accepted_code(json_content: bool, text: Seq<char>, decoded: Option<Json>) -> Option<
    Seq<char>,
> {
    match reply_code(json_content, text, decoded) {
        Some(c) => if parse_unsigned(c, 0xffff_ffff_ffff_ffffnat) is Some {
            Some(c)
        } else {
            None
        },
        None => None,
    }
}

/// Reads the request code out of a service's reply: `text` is the reply
/// body, and, for a JSON service, `decoded` its decoding (`None` when it is
/// not JSON). The code is kept only when it is a valid `u64` in decimal.
pub fn request_code_from_reply(json_content: bool, text: &str, decoded: Option<&Json>) -> (r: Option<
    String,
>)
    ensures
        opt_str_view(r) == accepted_code(json_content, text@, match decoded {
            Some(x) => Some(*x),
            None => None,
        }),
{
    let code: Option<String> = if json_content {
        let content_key = "content".to_string();
        match decoded {
            Some(j) => match j.get(&content_key) {
                Some(c) => match c.as_str() {
                    Some(s) => Some(s.clone()),
                    None => None,
                },
                None => None,
            },
            None => None,
        }
    } else {
        Some(trimmed(text))
    };
    match code {
        Some(c) => {
            let v = chars_of(c.as_str());
            if parse_unsigned_exec(&v, 0xffff_ffff_ffff_ffff).is_some() {
                Some(c)
            } else {
                None
            }
        },
        None => None,
    }
}

/// The characters of an optional string.
pub open spec fn opt_str_view(o: Option<String>) -> Option<Seq<char>> {
    crate::parser::opt_str_view(o)
}

// ---------------------------------------------------------------------------
// Manifest files
// ---------------------------------------------------------------------------

/// The address of manifest `manifest_id` of depot `depot_id`, given its
/// request code.
pub fn manifest_url(depot_id: u32, manifest_id: u64, request_code: &str) -> (r: String)
    ensures
        r@ == CDN_BASE@ + "/depot/"@ + decimal(depot_id as nat) + "/manifest/"@ + decimal(
            manifest_id as nat,
        ) + "/5/"@ + request_code@,
{
    let mut url = String::from_str(CDN_BASE);
    url.append("/depot/");
    url.append(decimal_string(depot_id as u64).as_str());
    url.append("/manifest/");
    url.append(decimal_string(manifest_id).as_str());
    url.append("/5/");
    url.append(request_code);
    url
}

/// The file name a downloaded manifest is stored under: `depot_manifest.manifest`.
pub fn manifest_file_name(depot_id: u32, manifest_id: u64) -> (r: String)
    ensures
        r@ == decimal(depot_id as nat) + "_"@ + decimal(manifest_id as nat) + ".manifest"@,
{
    let mut name = decimal_string(depot_id as u64);
    name.append("_");
    name.append(decimal_string(manifest_id).as_str());
    name.append(".manifest");
    name
}

/// The entry of one depot in `config.vdf`.
pub open spec fn vdf_entry(d: DepotSpec) -> Seq<char> {
    "    \""@ + decimal(d.id as nat) + "\"\n    {\n        \"DecryptionKey\" \""@ + d.sha
        + "\"\n    }\n"@
}

/// The entries of a list of depots, in order.
pub open spec fn vdf_entries(ds: Seq<DepotSpec>) -> Seq<char>
    decreases ds.len(),
{
    if ds.len() == 0 {
        Seq::empty()
    } else {
        vdf_entries(ds.drop_last()) + vdf_entry(ds.last())
    }
}

/// The `config.vdf` text that gives the download tool the decryption key of
/// each depot.
pub open spec fn config_vdf(ds: Seq<DepotSpec>) -> Seq<char> {
    "\"depots\"\n{\n"@ + vdf_entries(ds) + "}"@
}

/// The `config.vdf` text for the depots of `info`.
pub fn config_vdf_content(info: &GameInfo) -> (r: String)
    ensures
        r@ == config_vdf(info@.depots),
{
    let mut content = String::from_str("\"depots\"\n{\n");
    let ghost head = content@;
    let ghost ds = info@.depots;
    let mut k: usize = 0;
    assert(ds.take(0) =~= Seq::<DepotSpec>::empty());
    assert(content@ =~= head + vdf_entries(ds.take(0)));
    while k < info.depots.len()
        invariant
            k <= info.depots.len(),
            ds == depots_view(info.depots@),
            content@ == head + vdf_entries(ds.take(k as int)),
        decreases info.depots.len() - k,
    {
        let d = &info.depots[k];
        assert(ds.take(k + 1).drop_last() =~= ds.take(k as int));
        assert(ds.take(k + 1).last() == d@);
        content.append("    \"");
        content.append(decimal_string(d.id as u64).as_str());
        content.append("\"\n    {\n        \"DecryptionKey\" \"");
        content.append(d.sha.as_str());
        content.append("\"\n    }\n");
        k = k + 1;
        assert(content@ =~= head + vdf_entries(ds.take(k as int)));
    }
    content.append("}");
    assert(ds.take(info.depots.len() as int) =~= ds);
    content
}

/// Some name of `names` starts with `id_`: a manifest of depot `id` is stored.
pub open spec fn has_local_manifest(names: Seq<Seq<char>>, id: u32) -> bool {
    exists|i: int| 0 <= i < names.len() && starts_with_seq(names[i], decimal(id as nat) + "_"@)
}

/// The characters of each string of a list.
pub open spec fn strings_view(v: Seq<String>) -> Seq<Seq<char>> {
    v.map_values(|s: String| s@)
}

/// Whether a manifest of depot `depot_id` is among the files `names`.
pub fn has_local_manifest_exec(names: &Vec<String>, depot_id: u32) -> (r: bool)
    ensures
        r == has_local_manifest(strings_view(names@), depot_id),
{
    let mut prefix = decimal_string(depot_id as u64);
    prefix.append("_");
    let p = chars_of(prefix.as_str());
    let mut k: usize = 0;
    while k < names.len()
        invariant
            k <= names.len(),
            p@ == decimal(depot_id as nat) + "_"@,
            forall|j: int| 0 <= j < k ==> !starts_with_seq(#[trigger] strings_view(names@)[j], p@),
        decreases names.len() - k,
    {
        let v = chars_of(names[k].as_str());
        if starts_with_exec(&v, &p) {
            assert(strings_view(names@)[k as int] == v@);
            return true;
        }
        k = k + 1;
    }
    false
}

/// The ids in `ids`, in order and without repeats, that have a manifest
/// among `names`.
pub open spec fn prepared_ids(ids: Seq<u32>, names: Seq<Seq<char>>) -> Seq<u32>
    decreases ids.len(),
{
    if ids.len() == 0 {
        Seq::empty()
    } else {
        let prev = prepared_ids(ids.drop_last(), names);
        let d = ids.last();
        if has_local_manifest(names, d) && !prev.contains(d) {
            prev.push(d)
        } else {
            prev
        }
    }
}

/// The depots and DLC depots of a game, in that order.
pub open spec fn all_depot_ids(info: crate::parser::GameInfoSpec) -> Seq<u32> {
    crate::parser::depot_ids(info.depots) + info.dlc_depots
}

/// The depots, then the DLC depots, of `game_info` that have a manifest
/// among the files `depot_files` of the depot directory, in that order and
/// without repeats.
pub fn collect_prepared_depot_ids_in_order(game_info: &GameInfo, depot_files: &Vec<String>) -> (r:
    Vec<u32>)
    ensures
        r@ == prepared_ids(all_depot_ids(game_info@), strings_view(depot_files@)),
{
    let mut ids = depot_id_list(game_info);
    let mut k: usize = 0;
    let ghost first = ids@;
    while k < game_info.dlc_depots.len()
        invariant
            k <= game_info.dlc_depots.len(),
            ids@ == first + game_info.dlc_depots@.take(k as int),
        decreases game_info.dlc_depots.len() - k,
    {
        ids.push(game_info.dlc_depots[k]);
        k = k + 1;
        assert(ids@ =~= first + game_info.dlc_depots@.take(k as int));
    }
    assert(game_info.dlc_depots@.take(k as int) =~= game_info.dlc_depots@);
    let ghost names = strings_view(depot_files@);
    let mut out: Vec<u32> = Vec::new();
    let mut k: usize = 0;
    while k < ids.len()
        invariant
            k <= ids.len(),
            names == strings_view(depot_files@),
            out@ == prepared_ids(ids@.take(k as int), names),
        decreases ids.len() - k,
    {
        assert(ids@.take(k + 1).drop_last() =~= ids@.take(k as int));
        let d = ids[k];
        if has_local_manifest_exec(depot_files, d) && !contains_id(&out, d) {
            out.push(d);
        }
        k = k + 1;
    }
    assert(ids@.take(ids.len() as int) =~= ids@);
    out
}

fn contains_id(v: &Vec<u32>, x: u32) -> (r: bool)
    ensures
        r == v@.contains(x),
{
    let mut k: usize = 0;
    while k < v.len()
        invariant
            k <= v.len(),
            forall|j: int| 0 <= j < k ==> v@[j] != x,
        decreases v.len() - k,
    {
        if v[k] == x {
            return true;
        }
        k = k + 1;
    }
    false
}

// ---------------------------------------------------------------------------
// Preparing a download
// ---------------------------------------------------------------------------

/// `prefix` followed by `detail`.
fn with_detail(prefix: &str, detail: &str) -> (r: String)
    ensures
        r@ == prefix@ + detail@,
{
    let mut m = String::from_str(prefix);
    m.append(detail);
    m
}

/// The message when the depot directory cannot be created.
pub fn depot_dir_failed(error: &str) -> (r: String)
    ensures
        r@ == "创建 depot 目录失败: "@ + error@,
{
    with_detail("创建 depot 目录失败: ", error)
}

/// The message when `config.vdf` cannot be written.
pub fn config_vdf_failed(error: &str) -> (r: String)
    ensures
        r@ == "生成 config.vdf 失败: "@ + error@,
{
    with_detail("生成 config.vdf 失败: ", error)
}

/// The message when the user cancels fetching manifests.
pub fn manifest_fetch_cancelled() -> (r: String)
    ensures
        r@ == "清单获取已取消"@,
{
    String::from_str("清单获取已取消")
}

/// Fetching can go on only when some manifest id was found.
pub fn check_manifests_found(total: usize) -> (r: Result<(), String>)
    ensures
        total == 0 ==> (r matches Err(m) && m@ == "无法获取任何清单，请检查网络或稍后再试"@),
        total > 0 ==> r is Ok,
{
    if total == 0 {
        Err(String::from_str("无法获取任何清单，请检查网络或稍后再试"))
    } else {
        Ok(())
    }
}

/// The outcome of preparing: the prepared depots, or a failure when none
/// has a manifest.
pub fn prepare_outcome(prepared: Vec<u32>) -> (r: Result<Vec<u32>, String>)
    ensures
        prepared@.len() == 0 ==> (r matches Err(m) && m@ == "准备失败：depot 目录中没有 manifest 文件"@),
        prepared@.len() > 0 ==> (r matches Ok(v) && v@ == prepared@),
{
    if prepared.len() == 0 {
        Err(String::from_str("准备失败：depot 目录中没有 manifest 文件"))
    } else {
        Ok(prepared)
    }
}

/// The progress reported while fetching: `(current, total, completed)`,
/// completed once `current` reaches `total`.
pub fn fetch_progress(current: usize, total: usize) -> (r: (usize, usize, bool))
    ensures
        r == (current, total, current >= total),
{
    (current, total, current >= total)
}

/// The progress reported when the local manifests are used: everything is
/// done, out of the number of prepared depots (at least 1).
pub fn local_progress(prepared: usize) -> (r: (usize, usize, bool))
    ensures
        r.0 == r.1,
        r.1 == (if prepared > 0 {
            prepared
        } else {
            1
        }),
        r.2,
{
    let total = if prepared > 0 {
        prepared
    } else {
        1
    };
    (total, total, true)
}

/// What to do after one manifest of the fetch loop was handled.
pub enum FetchAction {
    /// The user cancelled meanwhile: remove the file `file` (the manifest
    /// that may have been written) and fail with `message`.
    Abort { file: String, message: String },
    /// Go on: announce the depot as ready when `ready`, then report the
    /// progress `(current, total, completed)`.
    Report { ready: bool, progress: (usize, usize, bool) },
}

/// The loop that fetches the manifests of `total` depots, one at a time.
pub struct ManifestFetch {
    processed: usize,
    total: usize,
}

/// The state of the fetch loop: manifests handled, and manifests to fetch.
pub struct FetchSpec {
    pub processed: nat,
    pub total: nat,
}

impl View for ManifestFetch {
    type V = FetchSpec;

    closed spec fn view(&self) -> FetchSpec {
        FetchSpec { processed: self.processed as nat, total: self.total as nat }
    }
}

impl ManifestFetch {
    /// A loop over `total` manifests, none handled yet.
    pub fn new(total: usize) -> (r: ManifestFetch)
        ensures
            r@ == (FetchSpec { processed: 0, total: total as nat }),
    {
        ManifestFetch { processed: 0, total }
    }

    /// Whether every manifest has been handled.
    pub fn is_done(&self) -> (r: bool)
        ensures
            r == (self@.processed >= self@.total),
    {
        self.processed >= self.total
    }

    /// Before fetching a manifest: fail with the cancellation message when the
    /// user cancelled.
    pub fn before_item(&self, cancelled: bool) -> (r: Result<(), String>)
        ensures
            cancelled ==> (r matches Err(m) && m@ == "清单获取已取消"@),
            !cancelled ==> r is Ok,
    {
        if cancelled {
            Err(manifest_fetch_cancelled())
        } else {
            Ok(())
        }
    }

    /// After fetching manifest `manifest_id` of depot `depot_id`: `success`
    /// tells whether it was downloaded, `has_local` whether the depot
    /// directory holds a manifest of the depot, `cancelled` whether the user
    /// cancelled meanwhile. A cancellation aborts and names the file to
    /// remove; otherwise the depot is announced when it has a manifest, and
    /// one more manifest counts as handled.
    pub fn after_item(
        &mut self,
        cancelled: bool,
        depot_id: u32,
        manifest_id: u64,
        success: bool,
        has_local: bool,
    ) -> (r: FetchAction)
        requires
            old(self)@.processed < old(self)@.total,
        ensures
            cancelled ==> final(self)@ == old(self)@ && (r matches FetchAction::Abort { file, message }
                && file@ == decimal(depot_id as nat) + "_"@ + decimal(manifest_id as nat)
                + ".manifest"@ && message@ == "清单获取已取消"@),
            !cancelled ==> final(self)@ == (FetchSpec {
                processed: old(self)@.processed + 1,
                total: old(self)@.total,
            }) && r == (FetchAction::Report {
                ready: success || has_local,
                progress: (
                    (old(self)@.processed + 1) as usize,
                    old(self)@.total as usize,
                    old(self)@.processed + 1 >= old(self)@.total,
                ),
            }),
    {
        if cancelled {
            return FetchAction::Abort {
                file: manifest_file_name(depot_id, manifest_id),
                message: manifest_fetch_cancelled(),
            };
        }
        self.processed = self.processed + 1;
        FetchAction::Report {
            ready: success || has_local,
            progress: fetch_progress(self.processed, self.total),
        }
    }
}

// ---------------------------------------------------------------------------
// Laws
// ---------------------------------------------------------------------------

proof fn lemma_prepared(ids: Seq<u32>, names: Seq<Seq<char>>)
    ensures
        crate::parser::no_repeats(prepared_ids(ids, names)),
        forall|i: int|
            0 <= i < prepared_ids(ids, names).len() ==> ids.contains(
                #[trigger] prepared_ids(ids, names)[i],
            ) && has_local_manifest(names, prepared_ids(ids, names)[i]),
    decreases ids.len(),
{
    if ids.len() > 0 {
        lemma_prepared(ids.drop_last(), names);
        let prev = prepared_ids(ids.drop_last(), names);
        let cur = prepared_ids(ids, names);
        assert forall|i: int| 0 <= i < cur.len() implies ids.contains(#[trigger] cur[i])
            && has_local_manifest(names, cur[i]) by {
            if i < prev.len() {
                assert(cur[i] == prev[i]);
                let k = choose|k: int| 0 <= k < ids.drop_last().len() && ids.drop_last()[k] == prev[i];
                assert(ids[k] == prev[i]);
            } else {
                assert(cur[i] == ids.last());
                assert(ids[ids.len() - 1] == ids.last());
            }
        }
    }
}

/// The depots prepared for download are listed once each, and each is a
/// depot or DLC depot of the game with a manifest in the depot directory.
pub proof fn law_prepared_depots(info: crate::parser::GameInfoSpec, names: Seq<Seq<char>>)
    ensures
        crate::parser::no_repeats(prepared_ids(all_depot_ids(info), names)),
        forall|i: int|
            0 <= i < prepared_ids(all_depot_ids(info), names).len() ==> all_depot_ids(info).contains(
                #[trigger] prepared_ids(all_depot_ids(info), names)[i],
            ) && has_local_manifest(names, prepared_ids(all_depot_ids(info), names)[i]),
{
    lemma_prepared(all_depot_ids(info), names);
}

proof fn lemma_fill_keys(base: Map<u32, u64>, ids: Seq<u32>, f: spec_fn(u32) -> Option<u64>)
    ensures
        base.dom().subset_of(fill(base, ids, f).dom()),
        forall|d: u32| #[trigger]
            fill(base, ids, f).contains_key(d) ==> base.contains_key(d) || ids.contains(d),
        forall|d: u32| #[trigger]
            base.contains_key(d) ==> fill(base, ids, f)[d] == base[d],
    decreases ids.len(),
{
    if ids.len() > 0 {
        lemma_fill_keys(base, ids.drop_last(), f);
        assert forall|d: u32| #[trigger]
            fill(base, ids, f).contains_key(d) implies base.contains_key(d) || ids.contains(d) by {
            if fill(base, ids.drop_last(), f).contains_key(d) {
                if !base.contains_key(d) {
                    let k = choose|k: int| 0 <= k < ids.drop_last().len() && ids.drop_last()[k] == d;
                    assert(ids[k] == d);
                }
            } else {
                assert(ids[ids.len() - 1] == d);
            }
        }
    }
}

/// The manifest ids known from an app's reply and its script are all for
/// depots of the game.
pub proof fn law_known_manifests_are_depots(info: crate::parser::GameInfoSpec, reply: Option<Json>)
    ensures
        forall|d: u32| #[trigger]
            known_manifests(info, reply).contains_key(d) ==> game_depot_ids(info).contains(d),
{
    let ids = game_depot_ids(info);
    match app_root(info, reply) {
        Some(root) => {
            let m1 = fill(Map::empty(), ids, from_listings(root));
            lemma_fill_keys(Map::empty(), ids, from_listings(root));
            lemma_fill_keys(m1, ids, from_dlc_listing(root));
            let m2 = fill(m1, ids, from_dlc_listing(root));
            lemma_fill_keys(m2, ids, from_pinned(info.manifest_ids));
        },
        None => {
            lemma_fill_keys(Map::empty(), ids, from_pinned(info.manifest_ids));
        },
    }
}

/// The neighbour search never forgets a manifest id: after any reply, every
/// depot found before is still found, with the same id unless the reply
/// settled that very depot again.
pub proof fn law_neighbor_search_keeps_found(st: NeighborSpec, reply: Option<Json>)
    requires
        st.pos < st.missing.len(),
    ensures
        st.found.dom().subset_of(after_reply(st, reply).found.dom()),
        forall|d: u32| #[trigger]
            st.found.contains_key(d) && d != st.missing[st.pos as int] ==> after_reply(st, reply).found[d]
                == st.found[d],
        forall|d: u32| #[trigger]
            after_reply(st, reply).found.contains_key(d) ==> st.found.contains_key(d) || d
                == st.missing[st.pos as int],
{
}

/// The neighbour search always moves on: every reply takes it strictly
/// further through the (depot, neighbour) positions, of which there are
/// twice as many as missing depots, so it ends after at most that many
/// replies.
pub proof fn law_neighbor_search_progresses(st: NeighborSpec, reply: Option<Json>)
    requires
        st.pos < st.missing.len(),
        st.step <= 1,
    ensures
        2 * after_reply(st, reply).pos + after_reply(st, reply).step > 2 * st.pos + st.step,
        after_reply(st, reply).step <= 1,
        after_reply(st, reply).missing == st.missing,
{
    let d = st.missing[st.pos as int];
    let hit = match reply {
        Some(j) => search(j, decimal(d as nat), 0),
        None => None,
    };
    match hit {
        Some(g) => {
            lemma_skip_own_app_moves_forward(st.appid, st.missing, st.pos + 1, 0);
            lemma_skip_own_app_step(st.appid, st.missing, st.pos + 1, 0);
        },
        None => {
            let (p, s) = advance(st.pos, st.step);
            lemma_skip_own_app_moves_forward(st.appid, st.missing, p, s);
            lemma_skip_own_app_step(st.appid, st.missing, p, s);
        },
    }
}

proof fn lemma_skip_own_app_step(appid: u32, missing: Seq<u32>, pos: nat, step: nat)
    requires
        step <= 1,
    ensures
        skip_own_app(appid, missing, pos, step).1 <= 1,
    decreases 2 * (missing.len() - pos) + 1 - step,
{
    if pos < missing.len() && step <= 1 && neighbor(missing[pos as int], step) == appid {
        let (p, s) = advance(pos, step);
        lemma_skip_own_app_step(appid, missing, p, s);
    }
}

proof fn lemma_fill_covers(base: Map<u32, u64>, ids: Seq<u32>, f: spec_fn(u32) -> Option<u64>)
    ensures
        forall|i: int|
            0 <= i < ids.len() && (#[trigger] f(ids[i])) is Some ==> fill(base, ids, f).contains_key(
                ids[i],
            ),
        forall|d: u32| #[trigger]
            fill(base, ids, f).contains_key(d) && !base.contains_key(d) ==> f(d) == Some(
                fill(base, ids, f)[d],
            ),
    decreases ids.len(),
{
    if ids.len() > 0 {
        lemma_fill_covers(base, ids.drop_last(), f);
        lemma_fill_keys(base, ids.drop_last(), f);
        let prev = fill(base, ids.drop_last(), f);
        assert forall|i: int|
            0 <= i < ids.len() && (#[trigger] f(ids[i])) is Some implies fill(
                base,
                ids,
                f,
            ).contains_key(ids[i]) by {
            if i < ids.len() - 1 {
                assert(ids.drop_last()[i] == ids[i]);
            }
        }
    }
}

/// Every depot whose manifest id the script pins has a known manifest id,
/// whatever the reply; and without a description of the app in the reply,
/// the known ids are exactly the pinned ids of the game's depots.
pub proof fn law_pinned_manifests_known(info: crate::parser::GameInfoSpec, reply: Option<Json>)
    ensures
        forall|d: u32|
            game_depot_ids(info).contains(d) && #[trigger] info.manifest_ids.contains_key(d)
                ==> known_manifests(info, reply).contains_key(d),
        app_root(info, reply) is None ==> forall|d: u32| #[trigger]
            known_manifests(info, reply).contains_key(d) <==> game_depot_ids(info).contains(d)
                && info.manifest_ids.contains_key(d),
        app_root(info, reply) is None ==> forall|d: u32| #[trigger]
            known_manifests(info, reply).contains_key(d) ==> known_manifests(info, reply)[d]
                == info.manifest_ids[d],
{
    let ids = game_depot_ids(info);
    let pinned = from_pinned(info.manifest_ids);
    let from_reply = match app_root(info, reply) {
        Some(root) => fill(fill(Map::empty(), ids, from_listings(root)), ids, from_dlc_listing(root)),
        None => Map::empty(),
    };
    lemma_fill_covers(from_reply, ids, pinned);
    lemma_fill_keys(from_reply, ids, pinned);
    assert forall|d: u32|
        ids.contains(d) && #[trigger] info.manifest_ids.contains_key(d) implies known_manifests(
        info,
        reply,
    ).contains_key(d) by {
        let i = choose|i: int| 0 <= i < ids.len() && ids[i] == d;
        assert(pinned(ids[i]) is Some);
        if from_reply.contains_key(d) {
        }
    }
}

/// A downloaded manifest is found again: the file name it is stored under
/// counts as a manifest file, and as a manifest of its depot.
pub proof fn law_stored_manifest_found(depot_id: u32, manifest_id: u64)
    ensures
        ({
            let names = seq![decimal(depot_id as nat) + "_"@ + decimal(manifest_id as nat) + ".manifest"@];
            has_local_manifest(names, depot_id) && crate::downloader::has_manifest_file(names)
        }),
{
    reveal_strlit(".manifest");
    let p = decimal(depot_id as nat) + "_"@;
    let name = p + decimal(manifest_id as nat) + ".manifest"@;
    let names = seq![name];
    assert(name.subrange(0, p.len() as int) =~= p);
    assert(starts_with_seq(names[0], p));
    assert(name.subrange(name.len() - 9, name.len() as int) =~= ".manifest"@);
    assert(crate::text::ends_with_seq(names[0], ".manifest"@));
}

/// A service that answers with a manifest request code written in decimal,
/// whatever whitespace surrounds it, has that code accepted as it is.
pub proof fn law_decimal_code_accepted(code: u64, text: Seq<char>, decoded: Option<Json>)
    requires
        trim(text) == decimal(code as nat),
    ensures
        accepted_code(false, text, decoded) == Some(decimal(code as nat)),
        trim(decimal(code as nat)) == decimal(code as nat),
{
    let d = decimal(code as nat);
    crate::text::lemma_decimal_digits(code as nat);
    crate::text::law_decimal_round_trip(code as nat, 0xffff_ffff_ffff_ffffnat);
    assert(crate::text::is_digit(d[0]));
    assert(crate::text::trim_left(d) == d);
    assert(crate::text::is_digit(d[d.len() - 1]));
    assert(crate::text::trim_right(d) == d);
}

/// A depot's public branch decides: whenever `manifests.public.gid` of a
/// depot description reads as a `u64` (a number, or a string of decimal
/// digits), that is the depot's manifest id, whatever other branches are
/// listed and in whatever order.
pub proof fn law_public_branch_decides(depot: Json, gid: Json, x: u64)
    requires
        get_opt(get_opt(get(depot, "manifests"@), "public"@), "gid"@) == Some(gid),
        to_u64(gid) == Some(x),
    ensures
        manifest_gid(depot) == Some(x),
{
}

/// The value reached from `v` by following, in turn, the members named by
/// `path` (the first member of each name).
pub open spec fn follow(v: Json, path: Seq<Seq<char>>) -> Option<Json>
    decreases path.len(),
{
    if path.len() == 0 {
        Some(v)
    } else {
        match get(v, path[0]) {
            Some(w) => follow(w, path.drop_first()),
            None => None,
        }
    }
}

proof fn lemma_member_index(es: Seq<(String, Json)>, k: Seq<char>)
    requires
        member(es, k) is Some,
    ensures
        exists|j: int| 0 <= j < es.len() && es[j].0@ == k && Some(es[j].1) == member(es, k),
    decreases es.len(),
{
    if es[0].0@ != k {
        lemma_member_index(es.drop_first(), k);
        let j = choose|j: int|
            0 <= j < es.drop_first().len() && es.drop_first()[j].0@ == k && Some(es.drop_first()[j].1)
                == member(es.drop_first(), k);
        assert(es[j + 1] == es.drop_first()[j]);
    } else {
        assert(es[0].0@ == k);
    }
}

proof fn lemma_search_members_hit(es: Seq<(String, Json)>, key: Seq<char>, depth: int, i: int, j: int)
    requires
        0 <= depth <= 5,
        0 <= i <= j < es.len(),
        !skipped_key(es[j].0@),
        search(es[j].1, key, depth + 1) is Some,
    ensures
        search_members(es, key, depth, i) is Some,
    decreases j - i,
{
    if i < j {
        lemma_search_members_hit(es, key, depth, i + 1, j);
    }
}

proof fn lemma_search_follows(v: Json, key: Seq<char>, depth: int, path: Seq<Seq<char>>, depot: Json)
    requires
        0 <= depth,
        depth + path.len() <= 5,
        forall|i: int|
            0 <= i < path.len() ==> #[trigger] path[i] != "branches"@ && path[i] != "privatebranches"@
                && path[i] != "common"@ && path[i] != "extended"@ && path[i] != "config"@,
        follow(v, path) matches Some(w) && get(w, key) == Some(depot),
        manifest_gid(depot) is Some,
    ensures
        search(v, key, depth) is Some,
    decreases path.len(),
{
    if path.len() == 0 {
        assert(follow(v, path) == Some(v));
    } else {
        let k = path[0];
        let x = get(v, k)->0;
        let rest = path.drop_first();
        assert forall|i: int| 0 <= i < rest.len() implies #[trigger] rest[i] != "branches"@
            && rest[i] != "privatebranches"@ && rest[i] != "common"@ && rest[i] != "extended"@
            && rest[i] != "config"@ by {
            assert(rest[i] == path[i + 1]);
        }
        lemma_search_follows(x, key, depth + 1, rest, depot);
        match v {
            Json::Object(es) => {
                lemma_member_index(es@, k);
                let j = choose|j: int| 0 <= j < es@.len() && es@[j].0@ == k && Some(es@[j].1) == member(es@, k);
                assert(path[0] == k);
                assert(!skipped_key(es@[j].0@));
                lemma_search_members_hit(es@, key, depth, 0, j);
            },
            _ => {},
        }
    }
}

/// The neighbour search finds every depot listed within its reach: when a
/// reply holds, at most five members deep, a chain of members none of
/// which is `branches`, `privatebranches`, `common`, `extended` or `config`
/// leading to an object whose member named after the depot has a readable
/// manifest id, the search finds a manifest id for the depot. In particular
/// `data.<app>.depots.<depot>.manifests.public.gid` is found.
pub proof fn law_search_reaches_listed_depot(
    data: Json,
    target: u32,
    path: Seq<Seq<char>>,
    depot: Json,
)
    requires
        path.len() <= 5,
        forall|i: int|
            0 <= i < path.len() ==> #[trigger] path[i] != "branches"@ && path[i] != "privatebranches"@
                && path[i] != "common"@ && path[i] != "extended"@ && path[i] != "config"@,
        follow(data, path) matches Some(w) && get(w, decimal(target as nat)) == Some(depot),
        manifest_gid(depot) is Some,
    ensures
        search(data, decimal(target as nat), 0) is Some,
{
    lemma_search_follows(data, decimal(target as nat), 0, path, depot);
}

/// The manifest id that one branch of a depot's `manifests` names: its
/// `gid`, when that reads as a `u64`.
pub open spec fn branch_gid(branch: (String, Json)) -> Option<u64> {
    match get(branch.1, "gid"@) {
        Some(g) => to_u64(g),
        None => None,
    }
}

proof fn lemma_first_branch(es: Seq<(String, Json)>, i: int)
    requires
        0 <= i < es.len(),
        branch_gid(es[i]) is Some,
        forall|j: int| 0 <= j < i ==> branch_gid(#[trigger] es[j]) is None,
    ensures
        first_branch_gid(es) == branch_gid(es[i]),
    decreases i,
{
    if i > 0 {
        assert forall|j: int| 0 <= j < i - 1 implies branch_gid(#[trigger] es.drop_first()[j]) is None by {
            assert(es.drop_first()[j] == es[j + 1]);
        }
        assert(branch_gid(es[0]) is None);
        lemma_first_branch(es.drop_first(), i - 1);
    }
}

proof fn lemma_no_branch(es: Seq<(String, Json)>)
    requires
        forall|j: int| 0 <= j < es.len() ==> branch_gid(#[trigger] es[j]) is None,
    ensures
        first_branch_gid(es) is None,
    decreases es.len(),
{
    if es.len() > 0 {
        assert(branch_gid(es[0]) is None);
        assert forall|j: int| 0 <= j < es.drop_first().len() implies branch_gid(#[trigger] es.drop_first()[j]) is None by {
            assert(es.drop_first()[j] == es[j + 1]);
        }
        lemma_no_branch(es.drop_first());
    }
}

/// Without a readable public gid, a depot's manifest id is that of the
/// first branch, in the order the reply lists them, whose `gid` reads as a
/// `u64`; and there is none when no branch has one.
pub proof fn law_first_readable_branch_decides(depot: Json, es: Seq<(String, Json)>)
    requires
        get(depot, "manifests"@) matches Some(Json::Object(v)) && v@ == es,
        !(get_opt(get_opt(get(depot, "manifests"@), "public"@), "gid"@) matches Some(g) && to_u64(
            g,
        ) is Some),
    ensures
        forall|i: int|
            0 <= i < es.len() && branch_gid(#[trigger] es[i]) is Some && (forall|j: int|
                0 <= j < i ==> branch_gid(#[trigger] es[j]) is None) ==> manifest_gid(depot)
                == branch_gid(es[i]),
        (forall|j: int| 0 <= j < es.len() ==> branch_gid(#[trigger] es[j]) is None) ==> manifest_gid(
            depot,
        ) is None,
{
    assert(public_gid(depot) is None);
    assert forall|i: int|
        0 <= i < es.len() && branch_gid(#[trigger] es[i]) is Some && (forall|j: int|
            0 <= j < i ==> branch_gid(#[trigger] es[j]) is None) implies manifest_gid(depot)
        == branch_gid(es[i]) by {
        lemma_first_branch(es, i);
    }
    if forall|j: int| 0 <= j < es.len() ==> branch_gid(#[trigger] es[j]) is None {
        lemma_no_branch(es);
    }
}

} // verus!
