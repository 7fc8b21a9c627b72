//! Online-play patches: the files a local patch consists of, the key under
//! which the backup of a patched game is kept, and the rewrite of the app id
//! in the patch's settings file.

use vstd::prelude::*;
use crate::manifest::strings_view;
use crate::text::{chars_of, string_from_chars};

verus! {

broadcast use vstd::string::group_string_axioms;

/// `c` separates drive or path parts: `:`, `\` or `/`.
pub open spec fn is_path_separator(c: char) -> bool {
    c == ':' || c == '\\' || c == '/'
}

/// `s` with every path separator replaced by `_`.
pub open spec fn flatten_path(s: Seq<char>) -> Seq<char> {
    s.map_values(|c: char|
        if is_path_separator(c) {
            '_'
        } else {
            c
        })
}

/// The key under which the backup of a patched game folder is kept: the
/// folder's path with `:`, `\` and `/` replaced by `_`.
pub fn safe_key(game_dir: &str) -> (r: String)
    ensures
        r@ == flatten_path(game_dir@),
{
    let v = chars_of(game_dir);
    let mut out: Vec<char> = Vec::new();
    let mut k: usize = 0;
    while k < v.len()
        invariant
            k <= v.len(),
            out@ == flatten_path(v@.take(k as int)),
        decreases v.len() - k,
    {
        let c = v[k];
        if c == ':' || c == '\\' || c == '/' {
            out.push('_');
        } else {
            out.push(c);
        }
        k = k + 1;
        assert(out@ =~= flatten_path(v@.take(k as int)));
    }
    assert(v@.take(v.len() as int) =~= v@);
    string_from_chars(out.as_slice())
}

/// The files and folders that the local patch puts into a game folder.
pub fn patch_items() -> (r: Vec<&'static str>)
    ensures
        r@.len() == 7,
        r@[0]@ == "FreeTP"@,
        r@[1]@ == "EpicFix.ini"@,
        r@[2]@ == "EpicFix64.dll"@,
        r@[3]@ == "SteamFix.ini"@,
        r@[4]@ == "SteamFix64.dll"@,
        r@[5]@ == "winmm.dll"@,
        r@[6]@ == "winmm.txt"@,
{
    let mut v: Vec<&'static str> = Vec::new();
    v.push("FreeTP");
    v.push("EpicFix.ini");
    v.push("EpicFix64.dll");
    v.push("SteamFix.ini");
    v.push("SteamFix64.dll");
    v.push("winmm.dll");
    v.push("winmm.txt");
    v
}

/// The game DLL that the online patch replaces and that is backed up first.
pub const DLL_BACKUP_NAME: &'static str = "steam_api64.dll";

/// What replacing the first match of the regular expression `pattern` in
/// `text` by `replacement` (with `$` group references expanded) gives, or
/// `None` when `pattern` does not compile.
pub uninterp spec fn regex_replace_first(
    pattern: Seq<char>,
    text: Seq<char>,
    replacement: Seq<char>,
) -> Option<Seq<char>>;

/// Replaces the first match of `pattern` in `text`.
///
/// Trusted: compiles `pattern` with `regex::Regex::new` and calls
/// `Regex::replace`; the result is claimed to be `regex_replace_first` of the
/// three texts, and a compile error is handed back as its display text.
/// The app id pattern `(?i)RealAppId=\d+` is claimed to compile: it is a
/// case-insensitive flag group, literal characters, and the class `\d`
/// repeated with `+`, all syntax the crate documents, and it is far below
/// the crate's size limits.
#[verifier::external_body]
fn replace_first(pattern: &str, text: &str, replacement: &str) -> (r: Result<String, String>)
    ensures
        match r {
            Ok(s) => regex_replace_first(pattern@, text@, replacement@) == Some(s@),
            Err(_) => regex_replace_first(pattern@, text@, replacement@) is None,
        },
        pattern@ == real_app_id_pattern() ==> r is Ok,
{
    match regex::Regex::new(pattern) {
        Ok(re) => Ok(re.replace(text, replacement).into_owned()),
        Err(e) => Err(e.to_string()),
    }
}

/// The pattern of the app id setting, in any letter case.
pub open spec fn real_app_id_pattern() -> Seq<char> {
    "(?i)RealAppId=\\d+"@
}

/// The app id setting that takes the place of the old one.
pub open spec fn real_app_id_line(app_id: Seq<char>) -> Seq<char> {
    "RealAppId="@ + app_id
}

/// The settings file `content` with its first app id setting set to
/// `app_id`. The pattern always compiles, so this always succeeds; a
/// compile error would be reported with the prefix `正则编译失败: `.
pub fn set_real_app_id(content: &str, app_id: &str) -> (r: Result<String, String>)
    ensures
        r matches Ok(x) && Some(x@) == regex_replace_first(
            real_app_id_pattern(),
            content@,
            real_app_id_line(app_id@),
        ),
{
    let mut line = String::from_str("RealAppId=");
    line.append(app_id);
    match replace_first("(?i)RealAppId=\\d+", content, line.as_str()) {
        Ok(s) => Ok(s),
        Err(e) => {
            let mut m = String::from_str("正则编译失败: ");
            m.append(e.as_str());
            Err(m)
        },
    }
}

/// A backup key holds no path separator, has the length of the folder path,
/// and flattening it again changes nothing.
pub proof fn law_safe_key_flat(game_dir: Seq<char>)
    ensures
        flatten_path(game_dir).len() == game_dir.len(),
        forall|i: int|
            0 <= i < flatten_path(game_dir).len() ==> !is_path_separator(
                #[trigger] flatten_path(game_dir)[i],
            ),
        flatten_path(flatten_path(game_dir)) == flatten_path(game_dir),
{
    assert(flatten_path(flatten_path(game_dir)) =~= flatten_path(game_dir));
}

// ---------------------------------------------------------------------------
// The record of the files an online patch copied
// ---------------------------------------------------------------------------

/// What reading the JSON text `text` as a list of strings gives: the
/// strings, or the text of the error the reader reports.
pub uninterp spec fn json_string_list(text: Seq<char>) -> Result<Seq<Seq<char>>, Seq<char>>;

/// The JSON text that the writer produces for a list of strings.
pub uninterp spec fn string_list_json(items: Seq<Seq<char>>) -> Seq<char>;

/// Reads a JSON list of strings.
///
/// Trusted: calls `serde_json::from_str::<Vec<String>>` and hands back an
/// error as its display text; the result is claimed to be what
/// `json_string_list` names for the text.
#[verifier::external_body]
fn parse_string_list(text: &str) -> (r: Result<Vec<String>, String>)
    ensures
        match r {
            Ok(v) => json_string_list(text@) == Ok::<Seq<Seq<char>>, Seq<char>>(strings_view(v@)),
            Err(m) => json_string_list(text@) == Err::<Seq<Seq<char>>, Seq<char>>(m@),
        },
{
    serde_json::from_str::<Vec<String>>(text).map_err(|e| e.to_string())
}

/// Writes a list of strings as JSON.
///
/// Trusted: calls `serde_json::to_string` on the list. Its documentation
/// says serialization fails only when a `Serialize` implementation decides
/// to or a map has non-string keys, neither of which a list of strings
/// has, so it succeeds. The text is claimed to be `string_list_json` of the
/// list, and reading it back with `serde_json::from_str` gives the list
/// again: the writer escapes quotes, backslashes and control characters and
/// the reader undoes exactly that.
#[verifier::external_body]
fn string_list_text(items: &Vec<String>) -> (r: String)
    ensures
        r@ == string_list_json(strings_view(items@)),
        (json_string_list(r@) == Ok::<Seq<Seq<char>>, Seq<char>>(strings_view(items@))),
{
    match serde_json::to_string(items) {
        Ok(s) => s,
        Err(_) => String::new(),
    }
}

/// The record, kept in the patch cache, of the files an online patch copied
/// into a game folder: their relative paths as a JSON list. Reading the
/// record back gives the same paths.
pub fn copied_files_record(copied: &Vec<String>) -> (r: String)
    ensures
        r@ == string_list_json(strings_view(copied@)),
        (json_string_list(r@) == Ok::<Seq<Seq<char>>, Seq<char>>(strings_view(copied@))),
{
    string_list_text(copied)
}

/// Reads the record of the files an online patch copied; when it is not a
/// JSON list of strings, the message to report.
pub fn read_copied_files(raw: &str) -> (r: Result<Vec<String>, String>)
    ensures
        match json_string_list(raw@) {
            Ok(l) => r matches Ok(v) && strings_view(v@) == l,
            Err(e) => r matches Err(m) && m@ == "解析清单失败: "@ + e,
        },
{
    match parse_string_list(raw) {
        Ok(v) => Ok(v),
        Err(e) => {
            let mut m = String::from_str("解析清单失败: ");
            m.append(e.as_str());
            Err(m)
        },
    }
}

} // verus!
