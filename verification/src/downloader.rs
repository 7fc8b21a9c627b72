//! Decisions around running the depot download tool: where the cache lives,
//! whether a download can start, which servers to try, how the tool's output
//! is cut into lines and what each line means, and what a saved session holds.

use vstd::prelude::*;
use crate::json::{as_u64, get, member, Json};
use crate::text::{
    chars_of, contains_exec, contains_seq, decimal, ends_with_exec, ends_with_seq, find_from,
    find_from_spec, is_digit, parse_unsigned, parse_unsigned_exec, trim, trim_bounds,
};

verus! {

broadcast use vstd::string::group_string_axioms;

// ---------------------------------------------------------------------------
// Where the cache lives
// ---------------------------------------------------------------------------

/// A path text names drive C: it starts with `c` or `C`, then `:`. This is
/// also the test on one path component: its lower-cased text starts with
/// `c:` (only `C` and `c` lower-case to `c`, and only `:` to `:`).
pub open spec fn names_c_drive(c: Seq<char>) -> bool {
    c.len() >= 2 && (c[0] == 'c' || c[0] == 'C') && c[1] == ':'
}

/// The first component of a path.
///
/// Trusted: calls `std::path::Path::components` and takes the first
/// component's text. The claim is that this component names drive C exactly
/// when the path text starts with `C:` or `c:`, and that a path starting so
/// has a component. On Windows such a path starts with a disk prefix
/// component `C:`, and any other first component (a verbatim or UNC prefix,
/// the root, `.`, or a name, which would have been read as a prefix) does not
/// start with `c:`; elsewhere the first component of such a path is the name
/// that starts at the path's first character. The component's exact text is
/// not stated.
#[verifier::external_body]
fn first_component(path: &str) -> (r: Option<String>)
    ensures
        match r {
            Some(c) => names_c_drive(c@) == names_c_drive(path@),
            None => !names_c_drive(path@),
        },
{
    std::path::Path::new(path).components().next().map(
        |c| c.as_os_str().to_string_lossy().to_string(),
    )
}

/// Whether a path lies on drive C: (its first component is `C:` or `c:`),
/// where the app's resources should not hold its cache.
pub fn is_c_drive(path: &str) -> (r: bool)
    ensures
        r == names_c_drive(path@),
{
    match first_component(path) {
        Some(c) => {
            let v = chars_of(c.as_str());
            v.len() >= 2 && (v[0] == 'c' || v[0] == 'C') && v[1] == ':'
        },
        None => false,
    }
}

// ---------------------------------------------------------------------------
// Starting a download
// ---------------------------------------------------------------------------

/// Some name of `names` ends with `.manifest`.
pub open spec fn has_manifest_file(names: Seq<Seq<char>>) -> bool {
    exists|i: int| 0 <= i < names.len() && ends_with_seq(names[i], ".manifest"@)
}

/// Whether some file name of a directory listing ends with `.manifest`.
pub fn any_manifest_file(names: &Vec<String>) -> (r: bool)
    ensures
        r == has_manifest_file(crate::manifest::strings_view(names@)),
{
    let ext = chars_of(".manifest");
    let mut k: usize = 0;
    while k < names.len()
        invariant
            k <= names.len(),
            ext@ == ".manifest"@,
            forall|j: int|
                0 <= j < k ==> !ends_with_seq(
                    #[trigger] crate::manifest::strings_view(names@)[j],
                    ".manifest"@,
                ),
        decreases names.len() - k,
    {
        let v = chars_of(names[k].as_str());
        assert(crate::manifest::strings_view(names@)[k as int] == v@);
        if ends_with_exec(&v, &ext) {
            return true;
        }
        k = k + 1;
    }
    false
}

/// Whether a download can start: the depot directory must hold a manifest
/// and `config.vdf`, and the download tool must exist (`tool_path` is how
/// its path is shown).
pub fn download_readiness(
    has_manifest: bool,
    has_config_vdf: bool,
    tool_exists: bool,
    tool_path: &str,
) -> (r: Result<(), String>)
    ensures
        !has_manifest ==> (r matches Err(m) && m@ == "depot 目录中没有 manifest 文件，请先导入清单并选择版本"@),
        has_manifest && !has_config_vdf ==> (r matches Err(m) && m@ == "depot 目录中没有 config.vdf 文件"@),
        has_manifest && has_config_vdf && !tool_exists ==> (r matches Err(m) && m@
            == "找不到 DepotDownloader.exe: "@ + tool_path@),
        has_manifest && has_config_vdf && tool_exists ==> r is Ok,
{
    if !has_manifest {
        return Err(String::from_str("depot 目录中没有 manifest 文件，请先导入清单并选择版本"));
    }
    if !has_config_vdf {
        return Err(String::from_str("depot 目录中没有 config.vdf 文件"));
    }
    if !tool_exists {
        let mut m = String::from_str("找不到 DepotDownloader.exe: ");
        m.append(tool_path);
        return Err(m);
    }
    Ok(())
}

/// The download servers to try, in order: the China server first on systems
/// set to simplified Chinese, then the public one.
pub fn download_hosts(zh_cn: bool) -> (r: Vec<&'static str>)
    ensures
        zh_cn ==> r@.len() == 2 && r@[0]@ == "China"@ && r@[1]@ == "Public"@,
        !zh_cn ==> r@.len() == 1 && r@[0]@ == "Public"@,
{
    let mut hosts: Vec<&'static str> = Vec::new();
    if zh_cn {
        hosts.push("China");
    }
    hosts.push("Public");
    hosts
}

/// The download tool's arguments for one attempt.
pub fn download_args(host: &str, download_path: &str, depot_dir: &str) -> (r: Vec<String>)
    ensures
        r@.len() == 8,
        r@[0]@ == "-l"@,
        r@[1]@ == "-u"@,
        r@[2]@ == host@,
        r@[3]@ == "-o"@,
        r@[4]@ == download_path@,
        r@[5]@ == "app"@,
        r@[6]@ == "-p"@,
        r@[7]@ == depot_dir@,
{
    let mut args: Vec<String> = Vec::new();
    args.push(String::from_str("-l"));
    args.push(String::from_str("-u"));
    args.push(String::from_str(host));
    args.push(String::from_str("-o"));
    args.push(String::from_str(download_path));
    args.push(String::from_str("app"));
    args.push(String::from_str("-p"));
    args.push(String::from_str(depot_dir));
    args
}

/// After an attempt: stop when the tool succeeded or the user cancelled.
pub fn download_should_stop(exit_code: i32, cancelled: bool) -> (r: bool)
    ensures
        r == (exit_code == 0 || cancelled),
{
    exit_code == 0 || cancelled
}

/// The exit code of an attempt: the tool's code, or 1 when waiting for it
/// failed or it ended without a code.
pub fn attempt_exit_code(waited: bool, code: Option<i32>) -> (r: i32)
    ensures
        r == (if waited {
            match code {
                Some(c) => c,
                None => 1,
            }
        } else {
            1
        }),
{
    if waited {
        match code {
            Some(c) => c,
            None => 1,
        }
    } else {
        1
    }
}

/// Stopping the tool falls back to the system's kill command when the
/// process could not be opened or terminated directly.
pub fn needs_forced_kill(open_failed: bool, terminated: bool) -> (r: bool)
    ensures
        r == (open_failed || !terminated),
{
    open_failed || !terminated
}

// ---------------------------------------------------------------------------
// The tool's output
// ---------------------------------------------------------------------------

/// The character a byte of output stands for (bytes are read one at a time
/// and taken as Latin-1).
pub open spec fn byte_char(b: u8) -> char {
    (b as u32) as char
}

/// A line end in the output.
pub open spec fn is_line_end(b: u8) -> bool {
    b == 13 || b == 10
}

/// `s` holds no line end character.
pub open spec fn no_line_end(s: Seq<char>) -> bool {
    forall|i: int| 0 <= i < s.len() ==> s[i] != '\r' && s[i] != '\n'
}

/// Cuts the tool's output, read byte by byte, into lines.
pub struct LineAssembler {
    line: Vec<char>,
}

impl View for LineAssembler {
    type V = Seq<char>;

    closed spec fn view(&self) -> Seq<char> {
        self.line@
    }
}

impl LineAssembler {
    /// The line being read never holds a line end.
    #[verifier::type_invariant]
    spec fn inv(self) -> bool {
        no_line_end(self.line@)
    }

    /// An assembler with nothing read.
    pub fn new() -> (r: LineAssembler)
        ensures
            r@ == Seq::<char>::empty(),
    {
        LineAssembler { line: Vec::new() }
    }

    /// Takes one byte: a line end hands out the line read so far, trimmed,
    /// and starts a new one; any other byte extends the line. A line handed
    /// out never holds a line end.
    pub fn push_byte(&mut self, b: u8) -> (r: Option<String>)
        ensures
            is_line_end(b) ==> (r matches Some(l) && l@ == trim(old(self)@) && final(self)@
                == Seq::<char>::empty()),
            !is_line_end(b) ==> r is None && final(self)@ == old(self)@.push(byte_char(b)),
            r matches Some(l) ==> no_line_end(l@),
    {
        proof {
            use_type_invariant(&*self);
        }
        if b == 13 || b == 10 {
            let (x, y) = trim_bounds(&self.line);
            let l = crate::text::string_from_range(&self.line, x, y);
            assert(no_line_end(l@)) by {
                assert forall|i: int| 0 <= i < l@.len() implies l@[i] != '\r' && l@[i] != '\n' by {
                    assert(l@[i] == self.line@[x + i]);
                }
            }
            self.line = Vec::new();
            Some(l)
        } else {
            let c = char_of_byte(b);
            assert(c != '\r' && c != '\n') by {
                assert(c as u32 == b as u32);
            }
            let mut line = Vec::new();
            std::mem::swap(&mut line, &mut self.line);
            line.push(c);
            self.line = line;
            None
        }
    }

    /// At the end of the output: the last line, trimmed; it holds no line
    /// end.
    pub fn finish(self) -> (r: String)
        ensures
            r@ == trim(self@),
            no_line_end(r@),
    {
        proof {
            use_type_invariant(&self);
        }
        let (x, y) = trim_bounds(&self.line);
        let l = crate::text::string_from_range(&self.line, x, y);
        assert forall|i: int| 0 <= i < l@.len() implies l@[i] != '\r' && l@[i] != '\n' by {
            assert(l@[i] == self.line@[x + i]);
        }
        l
    }
}

/// The character for a byte: the one with the same code point.
fn char_of_byte(b: u8) -> (r: char)
    ensures
        r == byte_char(b),
{
    b as char
}

/// The ASCII digits at the start of `s`.
pub open spec fn leading_digits(s: Seq<char>) -> Seq<char>
    decreases s.len(),
{
    if s.len() > 0 && is_digit(s[0]) {
        seq![s[0]] + leading_digits(s.drop_first())
    } else {
        Seq::empty()
    }
}

/// The depot that a line reports as completed: the line must mention
/// `completed` and `Depot `; the id is the run of ASCII digits right after
/// the first `Depot `, when it is a valid `u32`.
pub open spec fn completed_depot(line: Seq<char>) -> Option<u32> {
    if !contains_seq(line, "completed"@) || !contains_seq(line, "Depot "@) {
        None
    } else {
        match find_from_spec(line, "Depot "@, 0) {
            Some(a) => {
                let b = match find_from_spec(line, "Depot "@, a + 6) {
                    Some(b) => b,
                    None => line.len() as int,
                };
                match parse_unsigned(leading_digits(line.subrange(a + 6, b)), 0xffff_ffffnat) {
                    Some(v) => Some(v as u32),
                    None => None,
                }
            },
            None => None,
        }
    }
}

proof fn lemma_leading_digits_step(s: Seq<char>, i: int)
    requires
        0 <= i < s.len(),
        is_digit(s[i]),
    ensures
        leading_digits(s.subrange(i, s.len() as int)) == seq![s[i]] + leading_digits(
            s.subrange(i + 1, s.len() as int),
        ),
{
    assert(s.subrange(i, s.len() as int).drop_first() =~= s.subrange(i + 1, s.len() as int));
}

/// The id of the depot a line of the download tool reports as completed.
pub fn extract_depot_id_from_completed(line: &str) -> (r: Option<u32>)
    ensures
        r == completed_depot(line@),
{
    let v = chars_of(line);
    let completed = chars_of("completed");
    let depot = chars_of("Depot ");
    if !contains_exec(&v, &completed) || !contains_exec(&v, &depot) {
        return None;
    }
    proof {
        reveal_strlit("Depot ");
        crate::text::lemma_find_from(v@, depot@, 0);
    }
    match find_from(&v, &depot, 0) {
        Some(a) => {
            assert(crate::text::occurs_at(v@, depot@, a as int));
            assert(a + 6 <= v.len());
            let b = match find_from(&v, &depot, a + 6) {
                Some(b) => {
                    proof {
                        crate::text::lemma_find_from(v@, depot@, a + 6);
                    }
                    b
                },
                None => v.len(),
            };
            let seg = crate::lua::sub_chars(&v, a + 6, b);
            let mut digits: Vec<char> = Vec::new();
            let mut k: usize = 0;
            assert(seg@.subrange(0, seg@.len() as int) =~= seg@);
            while k < seg.len() && '0' <= seg[k] && seg[k] <= '9'
                invariant
                    k <= seg.len(),
                    leading_digits(seg@) == digits@ + leading_digits(
                        seg@.subrange(k as int, seg@.len() as int),
                    ),
                decreases seg.len() - k,
            {
                proof {
                    lemma_leading_digits_step(seg@, k as int);
                }
                digits.push(seg[k]);
                k = k + 1;
                assert(leading_digits(seg@) =~= digits@ + leading_digits(
                    seg@.subrange(k as int, seg@.len() as int),
                ));
            }
            assert(leading_digits(seg@) =~= digits@);
            match parse_unsigned_exec(&digits, 0xffff_ffff) {
                Some(x) => Some(x as u32),
                None => None,
            }
        },
        None => None,
    }
}

/// What a line of the tool's output means.
pub enum LineEvent {
    /// An empty line: nothing to report.
    Nothing,
    /// A depot finished downloading.
    DepotCompleted(u32),
    /// Any other line, shown in the log.
    Log(String),
}

/// What a (trimmed) line of the tool's output reports.
pub fn line_event(line: &str) -> (r: LineEvent)
    ensures
        line@.len() == 0 ==> r is Nothing,
        line@.len() > 0 ==> match completed_depot(line@) {
            Some(d) => r == LineEvent::DepotCompleted(d),
            None => r matches LineEvent::Log(l) && l@ == line@,
        },
{
    if line.unicode_len() == 0 {
        return LineEvent::Nothing;
    }
    match extract_depot_id_from_completed(line) {
        Some(d) => LineEvent::DepotCompleted(d),
        None => LineEvent::Log(String::from_str(line)),
    }
}

/// Whether a line shows download progress (`%|`), so that the server in use
/// can be announced; `announced` tells whether it already was. Returns the
/// decision and the new value of `announced`.
pub fn announce_decision(line: &str, announced: bool) -> (r: (bool, bool))
    ensures
        r.0 == (contains_seq(line@, "%|"@) && !announced),
        r.1 == (announced || contains_seq(line@, "%|"@)),
{
    let v = chars_of(line);
    let p = chars_of("%|");
    let progress = contains_exec(&v, &p);
    (progress && !announced, announced || progress)
}

// ---------------------------------------------------------------------------
// A saved session
// ---------------------------------------------------------------------------

/// The cache holds a resumable session: it exists, has `config.vdf`, and a
/// manifest file.
pub fn cache_present(depot_exists: bool, has_config_vdf: bool, names: &Vec<String>) -> (r: bool)
    ensures
        r == (depot_exists && has_config_vdf && has_manifest_file(
            crate::manifest::strings_view(names@),
        )),
{
    depot_exists && has_config_vdf && any_manifest_file(names)
}

/// The game name a saved session records: its `game_name` when that is a
/// string, else empty.
pub open spec fn saved_game_name(doc: Json) -> Seq<char> {
    match get(doc, "game_name"@) {
        Some(Json::Str(s)) => s@,
        _ => Seq::empty(),
    }
}

/// Reads the game name of a saved session.
pub fn cached_game_name(doc: &Json) -> (r: String)
    ensures
        r@ == saved_game_name(*doc),
{
    match doc.get(&"game_name".to_string()) {
        Some(v) => match v.as_str() {
            Some(s) => s.clone(),
            None => String::new(),
        },
        None => String::new(),
    }
}

/// The numbers of a list that are non-negative integers, in order, each
/// cut to its low 32 bits.
pub open spec fn u32_items(items: Seq<Json>) -> Seq<u32>
    decreases items.len(),
{
    if items.len() == 0 {
        Seq::empty()
    } else {
        let prev = u32_items(items.drop_last());
        match as_u64(items.last()) {
            Some(n) => prev.push(n as u32),
            None => prev,
        }
    }
}

/// The depot ids that a saved session lists under `key`.
pub open spec fn saved_ids(doc: Json, key: Seq<char>) -> Seq<u32> {
    match get(doc, key) {
        Some(Json::Array(items)) => u32_items(items@),
        _ => Seq::empty(),
    }
}

/// Reads the depot ids listed under `key` in a saved session.
pub fn cached_ids(doc: &Json, key: &String) -> (r: Vec<u32>)
    ensures
        r@ == saved_ids(*doc, key@),
{
    let mut out: Vec<u32> = Vec::new();
    match doc.get(key) {
        Some(Json::Array(items)) => {
            let mut k: usize = 0;
            while k < items.len()
                invariant
                    k <= items.len(),
                    out@ == u32_items(items@.take(k as int)),
                decreases items.len() - k,
            {
                assert(items@.take(k + 1).drop_last() =~= items@.take(k as int));
                match items[k].as_u64() {
                    Some(n) => {
                        out.push(n as u32);
                    },
                    None => {},
                }
                k = k + 1;
            }
            assert(items@.take(items.len() as int) =~= items@);
        },
        _ => {},
    }
    out
}

/// `items` are the depot ids `ids` written as JSON numbers, in order.
pub open spec fn id_numbers(items: Seq<Json>, ids: Seq<u32>) -> bool {
    items.len() == ids.len() && forall|i: int|
        0 <= i < items.len() ==> #[trigger] items[i] == Json::Number(Some(ids[i] as u64))
}

/// `doc` records a session of the game `name` whose prepared and completed
/// depots are `prepared` and `completed`.
pub open spec fn session_written(doc: Json, name: Seq<char>, prepared: Seq<u32>, completed: Seq<u32>) -> bool {
    &&& match get(doc, "game_name"@) {
        Some(Json::Str(s)) => s@ == name,
        _ => false,
    }
    &&& match get(doc, "prepared_depot_ids"@) {
        Some(Json::Array(a)) => id_numbers(a@, prepared),
        _ => false,
    }
    &&& match get(doc, "completed_depot_ids"@) {
        Some(Json::Array(a)) => id_numbers(a@, completed),
        _ => false,
    }
}

fn id_list_json(ids: &Vec<u32>) -> (r: Vec<Json>)
    ensures
        id_numbers(r@, ids@),
{
    let mut out: Vec<Json> = Vec::new();
    let mut k: usize = 0;
    while k < ids.len()
        invariant
            k <= ids.len(),
            id_numbers(out@, ids@.take(k as int)),
        decreases ids.len() - k,
    {
        out.push(Json::Number(Some(ids[k] as u64)));
        k = k + 1;
        assert(id_numbers(out@, ids@.take(k as int)));
    }
    assert(ids@.take(ids.len() as int) =~= ids@);
    out
}

/// The document saved for a session: the game's name, its description
/// (`game_info`, as the JSON the front end sent), and the prepared and
/// completed depots.
pub fn session_document(
    game_name: String,
    game_info: Json,
    prepared: &Vec<u32>,
    completed: &Vec<u32>,
) -> (r: Json)
    ensures
        session_written(r, game_name@, prepared@, completed@),
        get(r, "game_info"@) == Some(game_info),
{
    proof {
        reveal_strlit("game_name");
        reveal_strlit("game_info");
        reveal_strlit("prepared_depot_ids");
        reveal_strlit("completed_depot_ids");
    }
    let ghost name = game_name@;
    let ghost info = game_info;
    let mut members: Vec<(String, Json)> = Vec::new();
    members.push(("game_name".to_string(), Json::Str(game_name)));
    members.push(("game_info".to_string(), game_info));
    members.push(("prepared_depot_ids".to_string(), Json::Array(id_list_json(prepared))));
    members.push(("completed_depot_ids".to_string(), Json::Array(id_list_json(completed))));
    let ghost es = members@;
    assert(es.drop_first().drop_first().drop_first()[0] == es[3]);
    assert(es.drop_first().drop_first()[0] == es[2]);
    assert(es.drop_first()[0] == es[1]);
    assert("game_info"@[5] != "game_name"@[5]);
    assert("game_info"@ != "game_name"@);
    assert("prepared_depot_ids"@.len() != "game_name"@.len());
    assert("prepared_depot_ids"@.len() != "game_info"@.len());
    assert("completed_depot_ids"@.len() != "game_name"@.len());
    assert("completed_depot_ids"@.len() != "game_info"@.len());
    assert("completed_depot_ids"@.len() != "prepared_depot_ids"@.len());
    assert("prepared_depot_ids"@ != "game_name"@);
    assert("prepared_depot_ids"@ != "game_info"@);
    assert("completed_depot_ids"@ != "game_name"@);
    assert("completed_depot_ids"@ != "game_info"@);
    assert("completed_depot_ids"@ != "prepared_depot_ids"@);
    let ghost e1 = es.drop_first();
    let ghost e2 = e1.drop_first();
    let ghost e3 = e2.drop_first();
    assert(es[0].0@ == "game_name"@);
    assert(member(es, "game_name"@) == Some(es[0].1));
    assert(member(es, "game_info"@) == member(e1, "game_info"@));
    assert(member(e1, "game_info"@) == Some(es[1].1));
    assert(member(e1, "prepared_depot_ids"@) == member(e2, "prepared_depot_ids"@));
    assert(member(e2, "prepared_depot_ids"@) == Some(es[2].1));
    assert(member(e1, "completed_depot_ids"@) == member(e2, "completed_depot_ids"@));
    assert(member(e2, "completed_depot_ids"@) == member(e3, "completed_depot_ids"@));
    assert(member(e3, "completed_depot_ids"@) == Some(es[3].1));
    Json::Object(members)
}

// ---------------------------------------------------------------------------
// Laws
// ---------------------------------------------------------------------------

proof fn lemma_leading_digits_concat(a: Seq<char>, b: Seq<char>)
    requires
        crate::text::all_digits(a),
        b.len() > 0,
        !is_digit(b[0]),
    ensures
        leading_digits(a + b) == a,
    decreases a.len(),
{
    if a.len() == 0 {
        assert(a + b =~= b);
    } else {
        assert((a + b).drop_first() =~= a.drop_first() + b);
        lemma_leading_digits_concat(a.drop_first(), b);
        assert(seq![a[0]] + a.drop_first() =~= a);
    }
}

/// The report line `Depot <id> completed` names the depot `<id>`: reading a
/// line built from a depot id gives the id back.
pub proof fn law_completed_line_round_trip(id: u32)
    ensures
        completed_depot("Depot "@ + decimal(id as nat) + " completed"@) == Some(id),
{
    reveal_strlit("Depot ");
    reveal_strlit(" completed");
    reveal_strlit("completed");
    let dec = decimal(id as nat);
    let tail = " completed"@;
    let line = "Depot "@ + dec + tail;
    crate::text::law_decimal_round_trip(id as nat, 0xffff_ffffnat);
    crate::text::lemma_decimal_digits(id as nat);
    assert(line.subrange(0, 6) =~= "Depot "@);
    assert(crate::text::occurs_at(line, "Depot "@, 0));
    let k: int = (6 + dec.len() + 1) as int;
    assert(line.subrange(k, k + 9) =~= "completed"@);
    assert(crate::text::occurs_at(line, "completed"@, k));
    assert(find_from_spec(line, "Depot "@, 0) == Some(0int));
    crate::text::lemma_find_from(line, "Depot "@, 6);
    assert forall|j: int| 6 <= j implies !crate::text::occurs_at(line, "Depot "@, j) by {
        if crate::text::occurs_at(line, "Depot "@, j) {
            assert(line.subrange(j, j + 6)[0] == 'D');
            assert(line[j] == 'D');
            if j < 6 + dec.len() {
                assert(line[j] == dec[j - 6]);
                assert(is_digit(dec[j - 6]));
            } else {
                assert(line[j] == tail[j - 6 - dec.len()]);
            }
        }
    }
    assert(find_from_spec(line, "Depot "@, 6) is None);
    assert(line.subrange(6, line.len() as int) =~= dec + tail);
    lemma_leading_digits_concat(dec, tail);
}


proof fn lemma_u32_items(items: Seq<Json>, ids: Seq<u32>)
    requires
        id_numbers(items, ids),
    ensures
        u32_items(items) == ids,
    decreases items.len(),
{
    if items.len() > 0 {
        assert(id_numbers(items.drop_last(), ids.drop_last())) by {
            assert forall|i: int| 0 <= i < items.drop_last().len() implies #[trigger] items.drop_last()[i]
                == Json::Number(Some(ids.drop_last()[i] as u64)) by {
                assert(items[i] == Json::Number(Some(ids[i] as u64)));
            }
        }
        lemma_u32_items(items.drop_last(), ids.drop_last());
        assert(items.last() == Json::Number(Some(ids[ids.len() - 1] as u64)));
        assert(ids.drop_last().push(ids.last()) =~= ids);
    }
}

/// A saved session reads back as it was saved: from a document recording
/// the game `name` and the depot lists `prepared` and `completed`, the
/// cache check reads that same name and those same lists.
pub proof fn law_session_read_back(doc: Json, name: Seq<char>, prepared: Seq<u32>, completed: Seq<u32>)
    requires
        session_written(doc, name, prepared, completed),
    ensures
        saved_game_name(doc) == name,
        saved_ids(doc, "prepared_depot_ids"@) == prepared,
        saved_ids(doc, "completed_depot_ids"@) == completed,
{
    match get(doc, "prepared_depot_ids"@) {
        Some(Json::Array(a)) => lemma_u32_items(a@, prepared),
        _ => {},
    }
    match get(doc, "completed_depot_ids"@) {
        Some(Json::Array(a)) => lemma_u32_items(a@, completed),
        _ => {},
    }
}

} // verus!
