//! The stabilization engine and folder registry: filtering raw filesystem
//! notifications down to finished PDF arrivals, debouncing them in a pending
//! set, resolving each stabilized path to the most specific watched folder,
//! and computing output and archive locations. The OS-level watch, the
//! clock, and the readability probe live outside this crate and hand plain
//! values in.

use crate::config::OutputMode;
use crate::config::OutputModeView;
use crate::config::ToolConfig;
use crate::config::ToolConfigView;
use crate::path::last_dot;
use crate::path::lemma_last_dot;
use crate::path::name_extension;
use crate::path::name_stem;
use crate::path::split_path;
use crate::path::FilePath;
use crate::text;
use vstd::prelude::*;
use vstd::string::StrSliceExecFns;
use vstd::string::StringExecFns;

verus! {

/// How long a path must rest unchanged before it counts as stable, in
/// milliseconds.
pub const DEBOUNCE_MS: u64 = 2000;

/// Cadence of the stabilization scan, in milliseconds.
pub const SCAN_INTERVAL_MS: u64 = 500;

/// The kind of a raw filesystem notification.
#[derive(Debug, Clone, Copy, PartialEq, Eq, Structural)]
pub enum EventKind {
    Create,
    Modify,
    Other,
}

/// The name carries a ".pdf" extension, case-insensitively.
pub open spec fn is_pdf_name(name: Seq<char>) -> bool {
    match name_extension(name) {
        Some(e) => text::seq_eq_ignore_case(e, "pdf"@),
        None => false,
    }
}

/// Some component of the path is "processed" or "originals",
/// case-insensitively: the path lies in an output or archive folder.
pub open spec fn in_processed_folder(p: Seq<Seq<char>>) -> bool {
    exists|i: int|
        0 <= i < p.len() && (text::seq_eq_ignore_case(#[trigger] p[i], "processed"@)
            || text::seq_eq_ignore_case(p[i], "originals"@))
}

/// The name looks temporary: a dotfile, or a ".tmp" or ".part" suffix.
pub open spec fn is_temp_name(name: Seq<char>) -> bool {
    ||| (name.len() > 0 && name[0] == '.')
    ||| text::seq_ends_with(name, ".tmp"@)
    ||| text::seq_ends_with(name, ".part"@)
}

/// The stabilization engine considers this path at all: a named PDF file,
/// not under an output or archive folder, and not a temporary name.
pub open spec fn accepts_path(p: Seq<Seq<char>>) -> bool {
    &&& p.len() > 0
    &&& is_pdf_name(p.last())
    &&& !in_processed_folder(p)
    &&& !is_temp_name(p.last())
}

/// Index of the last '.' in the name, if it has one.
fn name_last_dot(name: &str) -> (r: Option<usize>)
    ensures
        r is None ==> last_dot(name@) == -1,
        r matches Some(d) ==> d == last_dot(name@) && d < name@.len(),
{
    let n = name.unicode_len();
    let mut i: usize = n;
    while i > 0
        invariant
            i <= n,
            n == name@.len(),
            forall|k: int| i <= k < n ==> name@[k] != '.',
        decreases i,
    {
        if name.get_char(i - 1) == '.' {
            proof {
                lemma_last_dot(name@);
                if last_dot(name@) == -1 {
                    assert(name@[i - 1] != '.');
                }
                if last_dot(name@) > i - 1 {
                    assert(name@[last_dot(name@)] != '.');
                }
                if last_dot(name@) < i - 1 {
                    assert(name@[i - 1] != '.');
                }
            }
            return Some(i - 1);
        }
        i = i - 1;
    }
    proof {
        lemma_last_dot(name@);
        if last_dot(name@) >= 0 {
            assert(name@[last_dot(name@)] != '.');
        }
    }
    None
}

/// The path names a PDF file, by its extension, case-insensitively.
pub fn is_pdf_file(path: &FilePath) -> (r: bool)
    ensures
        r == (path@.len() > 0 && is_pdf_name(path@.last())),
{
    match path.file_name() {
        None => false,
        Some(name) => {
            let n = name.as_str();
            match name_last_dot(n) {
                None => false,
                Some(d) => {
                    if d == 0 {
                        false
                    } else {
                        let len = n.unicode_len();
                        proof {
                            lemma_last_dot(n@);
                        }
                        let ext = n.substring_char(d + 1, len);
                        text::str_eq_ignore_case(ext, "pdf")
                    }
                },
            }
        },
    }
}

/// The path lies under a "Processed" or "Originals" component,
/// case-insensitively.
pub fn is_in_processed_folder(path: &FilePath) -> (r: bool)
    ensures
        r == in_processed_folder(path@),
{
    let n = path.components.len();
    let mut i: usize = 0;
    while i < n
        invariant
            i <= n,
            n == path.components@.len(),
            n == path@.len(),
            forall|k: int|
                0 <= k < i ==> !(text::seq_eq_ignore_case(#[trigger] path@[k], "processed"@)
                    || text::seq_eq_ignore_case(path@[k], "originals"@)),
        decreases n - i,
    {
        proof {
            assert(path@[i as int] == path.components@[i as int]@);
        }
        let c = path.components[i].as_str();
        if text::str_eq_ignore_case(c, "processed") || text::str_eq_ignore_case(c, "originals") {
            return true;
        }
        i = i + 1;
    }
    false
}

/// The name looks temporary: a dotfile, or a ".tmp" or ".part" suffix.
fn is_temp_file_name(name: &str) -> (r: bool)
    ensures
        r == is_temp_name(name@),
{
    let n = name.unicode_len();
    if n > 0 {
        if name.get_char(0) == '.' {
            return true;
        }
    }
    text::str_ends_with(name, ".tmp") || text::str_ends_with(name, ".part")
}

/// The stabilization engine considers this path at all.
pub fn accepts(path: &FilePath) -> (r: bool)
    ensures
        r == accepts_path(path@),
{
    match path.file_name() {
        None => false,
        Some(name) => {
            let temp = is_temp_file_name(name.as_str());
            if temp {
                return false;
            }
            if !is_pdf_file(path) {
                return false;
            }
            !is_in_processed_folder(path)
        },
    }
}

/// The extension the processed output carries, by tool: Word, Excel and JPG
/// conversions have their own, everything else stays PDF.
pub open spec fn output_extension(id: Seq<char>) -> Seq<char> {
    if id == "pdf-to-word"@ {
        "docx"@
    } else if id == "pdf-to-excel"@ {
        "xlsx"@
    } else if id == "pdf-to-jpg"@ {
        "zip"@
    } else {
        "pdf"@
    }
}

/// The output file's name: input stem, '_', the tool identifier, and the
/// tool's output extension.
pub open spec fn output_file_name(input: Seq<Seq<char>>, id: Seq<char>) -> Seq<char> {
    (if input.len() > 0 {
        name_stem(input.last())
    } else {
        "output"@
    }) + "_"@ + id + "."@ + output_extension(id)
}

/// Where the processed output goes: beside the input, under a "Processed"
/// sibling, or under the configured custom directory.
pub open spec fn spec_output_path(input: Seq<Seq<char>>, cfg: ToolConfigView) -> Seq<Seq<char>> {
    let fname = output_file_name(input, cfg.id);
    let parent = if input.len() > 0 {
        input.drop_last()
    } else {
        input
    };
    match cfg.output_mode {
        OutputModeView::SameFolder => parent.push(fname),
        OutputModeView::Subfolder => parent.push("Processed"@).push(fname),
        OutputModeView::Custom(c) => split_path(c).push(fname),
    }
}

/// Compute the output path for one input file under one tool configuration.
pub fn get_output_path(input_path: &FilePath, config: &ToolConfig) -> (r: FilePath)
    ensures
        r@ == spec_output_path(input_path@, config@),
{
    let mut fname: String;
    let ghost stem: Seq<char>;
    match input_path.file_name() {
        Some(name) => {
            let n = name.as_str();
            proof {
                lemma_last_dot(n@);
            }
            match name_last_dot(n) {
                Some(d) => {
                    if d > 0 {
                        let piece = n.substring_char(0, d);
                        fname = String::from_str(piece);
                    } else {
                        fname = String::from_str(n);
                    }
                },
                None => {
                    fname = String::from_str(n);
                },
            }
            proof {
                stem = name_stem(input_path@.last());
                assert(fname@ == stem);
            }
        },
        None => {
            fname = String::from_str("output");
            proof {
                stem = "output"@;
            }
        },
    }
    fname.append("_");
    fname.append(config.id.as_str());
    fname.append(".");
    let ext: &'static str = if text::str_eq(config.id.as_str(), "pdf-to-word") {
        "docx"
    } else if text::str_eq(config.id.as_str(), "pdf-to-excel") {
        "xlsx"
    } else if text::str_eq(config.id.as_str(), "pdf-to-jpg") {
        "zip"
    } else {
        "pdf"
    };
    fname.append(ext);
    proof {
        assert(ext@ == output_extension(config.id@));
        assert(fname@ =~= output_file_name(input_path@, config@.id));
    }
    match &config.output_mode {
        OutputMode::SameFolder => {
            let r = input_path.parent().join(fname.as_str());
            proof {
                assert(r@ =~~= spec_output_path(input_path@, config@));
            }
            r
        },
        OutputMode::Subfolder => {
            let parent = input_path.parent();
            let sub = parent.join("Processed");
            let r = sub.join(fname.as_str());
            proof {
                assert(r@ =~~= spec_output_path(input_path@, config@));
            }
            r
        },
        OutputMode::Custom(c) => {
            let base = FilePath::from_string(c.as_str());
            let r = base.join(fname.as_str());
            proof {
                assert(r@ =~~= spec_output_path(input_path@, config@));
            }
            r
        },
    }
}

/// Where an archived original goes: an "Originals" sibling of its folder,
/// under its own name; if that name is already taken, the stem gains a
/// timestamp suffix.
pub open spec fn spec_archive_dest(file: Seq<Seq<char>>, taken: bool, ts: u64) -> Seq<Seq<char>> {
    let dir = file.drop_last().push("Originals"@);
    let name = file.last();
    if !taken {
        dir.push(name)
    } else {
        let ext = match name_extension(name) {
            Some(e) => e,
            None => "pdf"@,
        };
        dir.push(name_stem(name) + "_"@ + text::dec_str(ts as int) + "."@ + ext)
    }
}

/// Compute the archive destination for one input file. `already_taken` says
/// whether the plain destination name already exists there; the timestamp
/// then de-collides the name, so an existing archive is never overwritten.
pub fn archive_destination(file_path: &FilePath, already_taken: bool, timestamp: u64) -> (r:
    FilePath)
    requires
        file_path@.len() > 0,
    ensures
        r@ == spec_archive_dest(file_path@, already_taken, timestamp),
        already_taken ==> r@.last() != file_path@.last(),
{
    let parent = file_path.parent();
    let dir = parent.join("Originals");
    let name = match file_path.file_name() {
        Some(n) => n,
        None => {
            proof {
                assert(false);
            }
            unreached()
        },
    };
    let n = name.as_str();
    if !already_taken {
        let r = dir.join(n);
        proof {
            assert(r@ =~~= spec_archive_dest(file_path@, already_taken, timestamp));
        }
        return r;
    }
    let len = n.unicode_len();
    let mut fresh: String;
    let ghost gname = file_path@.last();
    proof {
        lemma_last_dot(gname);
    }
    match name_last_dot(n) {
        Some(d) => {
            if d > 0 {
                fresh = String::from_str(n.substring_char(0, d));
            } else {
                fresh = String::from_str(n);
            }
        },
        None => {
            fresh = String::from_str(n);
        },
    }
    proof {
        assert(fresh@ == name_stem(gname));
    }
    fresh.append("_");
    let digits = text::u64_to_string(timestamp);
    fresh.append(digits.as_str());
    fresh.append(".");
    match name_last_dot(n) {
        Some(d) => {
            if d > 0 {
                fresh.append(n.substring_char(d + 1, len));
            } else {
                fresh.append("pdf");
            }
        },
        None => {
            fresh.append("pdf");
        },
    }
    let ghost ext = (match name_extension(gname) {
        Some(e) => e,
        None => "pdf"@,
    });
    proof {
        assert(fresh@ =~= name_stem(gname) + "_"@ + text::dec_str(timestamp as int) + "."@ + ext);
        text::lemma_dec_str_len(timestamp as int);
        reveal_strlit("_");
        reveal_strlit(".");
        reveal_strlit("pdf");
        assert(fresh@.len() > gname.len()) by {
            if last_dot(gname) > 0 {
                assert(name_stem(gname).len() == last_dot(gname));
                assert(ext.len() == gname.len() - last_dot(gname) - 1);
            } else {
                assert(name_stem(gname).len() == gname.len());
                assert(ext.len() == 3);
            }
        }
    }
    let r = dir.join(fresh.as_str());
    proof {
        assert(r@ =~~= spec_archive_dest(file_path@, already_taken, timestamp));
        assert(r@.last() == fresh@);
        assert(r@.last() != gname);
    }
    r
}

/// One registered watched folder with its configuration.
#[derive(Debug)]
pub struct FolderEntry {
    pub path: FilePath,
    pub config: ToolConfig,
}

/// One path waiting out its debounce window, with the time of the last
/// notification seen for it, in milliseconds.
#[derive(Debug)]
pub struct PendingEntry {
    pub path: FilePath,
    pub last_seen_ms: u64,
}

/// A stabilized file with the configuration that will process it.
#[derive(Debug, Clone)]
pub struct FileEvent {
    pub path: FilePath,
    pub tool_id: String,
    pub tool_config: ToolConfig,
}

/// First index bearing the key, or -1.
pub open spec fn key_idx<V>(s: Seq<(Seq<Seq<char>>, V)>, key: Seq<Seq<char>>) -> int
    decreases s.len(),
{
    if s.len() == 0 {
        -1
    } else if s[0].0 == key {
        0
    } else {
        let r = key_idx(s.drop_first(), key);
        if r == -1 {
            -1
        } else {
            r + 1
        }
    }
}

/// No two entries bear the same key.
pub open spec fn unique_keys<V>(s: Seq<(Seq<Seq<char>>, V)>) -> bool {
    forall|i: int, j: int| #![trigger s[i], s[j]] 0 <= i < j < s.len() ==> s[i].0 != s[j].0
}

/// What `key_idx` says about the sequence: it points at an entry bearing
/// the key, with none before it, or at nothing when no entry bears it.
pub proof fn lemma_key_idx<V>(s: Seq<(Seq<Seq<char>>, V)>, key: Seq<Seq<char>>)
    ensures
        -1 <= key_idx(s, key) < s.len(),
        key_idx(s, key) == -1 ==> (forall|i: int| 0 <= i < s.len() ==> (#[trigger] s[i]).0 != key),
        key_idx(s, key) >= 0 ==> s[key_idx(s, key)].0 == key,
        key_idx(s, key) >= 0 ==> (forall|i: int|
            0 <= i < key_idx(s, key) ==> (#[trigger] s[i]).0 != key),
    decreases s.len(),
{
    if s.len() == 0 {
    } else if s[0].0 == key {
    } else {
        let rest = s.drop_first();
        lemma_key_idx(rest, key);
        if key_idx(s, key) == -1 {
            assert forall|i: int| 0 <= i < s.len() implies (#[trigger] s[i]).0 != key by {
                if i > 0 {
                    assert(rest[i - 1] == s[i]);
                    assert(rest[i - 1].0 != key);
                }
            }
        } else {
            let t = key_idx(s, key);
            assert(t == key_idx(rest, key) + 1);
            assert(s[t] == rest[t - 1]);
            assert forall|i: int| 0 <= i < t implies (#[trigger] s[i]).0 != key by {
                if i > 0 {
                    assert(rest[i - 1] == s[i]);
                    assert(rest[i - 1].0 != key);
                }
            }
        }
    }
}

/// A matching entry at `j` puts `key_idx` at or before `j`, on a match.
pub proof fn lemma_key_idx_witness<V>(s: Seq<(Seq<Seq<char>>, V)>, key: Seq<Seq<char>>, j: int)
    requires
        0 <= j < s.len(),
        s[j].0 == key,
    ensures
        0 <= key_idx(s, key) <= j,
        s[key_idx(s, key)].0 == key,
    decreases s.len(),
{
    if s[0].0 == key {
    } else {
        let rest = s.drop_first();
        assert(rest[j - 1] == s[j]);
        lemma_key_idx_witness(rest, key, j - 1);
        assert(s[key_idx(rest, key) + 1] == rest[key_idx(rest, key)]);
    }
}

/// A removed key is gone: no entry of the shortened sequence bears it.
pub proof fn lemma_removed_key_absent<V>(s: Seq<(Seq<Seq<char>>, V)>, key: Seq<Seq<char>>)
    requires
        unique_keys(s),
        key_idx(s, key) >= 0,
    ensures
        key_idx(s.remove(key_idx(s, key)), key) == -1,
{
    lemma_key_idx(s, key);
    let ki = key_idx(s, key);
    let q = s.remove(ki);
    lemma_key_idx(q, key);
    if key_idx(q, key) >= 0 {
        let m = key_idx(q, key);
        if m < ki {
            assert(q[m] == s[m]);
        } else {
            assert(q[m] == s[m + 1]);
        }
        assert(false);
    }
}

/// The pending set after one relevant notification for a path: a rejected
/// path changes nothing; an accepted path's entry gets the fresh time,
/// created if it was absent.
pub open spec fn note_one(
    pending: Seq<(Seq<Seq<char>>, u64)>,
    path: Seq<Seq<char>>,
    now: u64,
) -> Seq<(Seq<Seq<char>>, u64)> {
    if !accepts_path(path) {
        pending
    } else {
        let i = key_idx(pending, path);
        if i >= 0 {
            pending.update(i, (path, now))
        } else {
            pending.push((path, now))
        }
    }
}

/// The pending set after one notification touching several paths, in order.
pub open spec fn note_paths(
    pending: Seq<(Seq<Seq<char>>, u64)>,
    paths: Seq<Seq<Seq<char>>>,
    now: u64,
) -> Seq<(Seq<Seq<char>>, u64)>
    decreases paths.len(),
{
    if paths.len() == 0 {
        pending
    } else {
        note_paths(note_one(pending, paths[0], now), paths.drop_first(), now)
    }
}

/// Noting the paths and then one more is noting the first batch and then
/// the straggler.
pub proof fn lemma_note_paths_snoc(
    pending: Seq<(Seq<Seq<char>>, u64)>,
    paths: Seq<Seq<Seq<char>>>,
    x: Seq<Seq<char>>,
    now: u64,
)
    ensures
        note_paths(pending, paths.push(x), now) == note_one(note_paths(pending, paths, now), x, now),
    decreases paths.len(),
{
    let s = paths.push(x);
    if paths.len() == 0 {
        assert(s[0] == x);
        assert(s.drop_first() =~= Seq::<Seq<Seq<char>>>::empty());
        assert(note_paths(pending, s, now) == note_paths(
            note_one(pending, x, now),
            s.drop_first(),
            now,
        ));
        assert(note_paths(note_one(pending, x, now), s.drop_first(), now) == note_one(
            pending,
            x,
            now,
        ));
        assert(note_paths(pending, paths, now) == pending);
    } else {
        assert(s[0] == paths[0]);
        assert(s.drop_first() =~= paths.drop_first().push(x));
        assert(note_paths(pending, s, now) == note_paths(
            note_one(pending, paths[0], now),
            paths.drop_first().push(x),
            now,
        ));
        lemma_note_paths_snoc(note_one(pending, paths[0], now), paths.drop_first(), x, now);
        assert(note_paths(pending, paths, now) == note_paths(
            note_one(pending, paths[0], now),
            paths.drop_first(),
            now,
        ));
    }
}

/// One notification keeps the pending keys unique.
pub proof fn lemma_note_one_unique(
    pending: Seq<(Seq<Seq<char>>, u64)>,
    path: Seq<Seq<char>>,
    now: u64,
)
    requires
        unique_keys(pending),
    ensures
        unique_keys(note_one(pending, path, now)),
{
    if accepts_path(path) {
        lemma_key_idx(pending, path);
        let ki = key_idx(pending, path);
        let q = note_one(pending, path, now);
        if ki >= 0 {
            assert forall|a: int, b: int| 0 <= a < b < q.len() implies (#[trigger] q[a]).0 != (
            #[trigger] q[b]).0 by {
                assert(q[a].0 == pending[a].0);
                assert(q[b].0 == pending[b].0);
                assert(pending[a].0 != pending[b].0);
            }
        } else {
            assert forall|a: int, b: int| 0 <= a < b < q.len() implies (#[trigger] q[a]).0 != (
            #[trigger] q[b]).0 by {
                if b < pending.len() {
                    assert(q[a].0 == pending[a].0);
                    assert(q[b].0 == pending[b].0);
                    assert(pending[a].0 != pending[b].0);
                } else {
                    assert(q[a].0 == (#[trigger] pending[a]).0);
                    assert(q[b].0 == path);
                }
            }
        }
    }
}

/// A later notification for the same path overrides an earlier one: only
/// the last time matters.
pub proof fn lemma_note_override(
    pending: Seq<(Seq<Seq<char>>, u64)>,
    path: Seq<Seq<char>>,
    t1: u64,
    t2: u64,
)
    requires
        unique_keys(pending),
    ensures
        note_one(note_one(pending, path, t1), path, t2) == note_one(pending, path, t2),
{
    if accepts_path(path) {
        lemma_key_idx(pending, path);
        let ki = key_idx(pending, path);
        if ki >= 0 {
            let p1 = pending.update(ki, (path, t1));
            lemma_key_idx_witness(p1, path, ki);
            if key_idx(p1, path) < ki {
                assert(p1[key_idx(p1, path)] == pending[key_idx(p1, path)]);
                assert(false);
            }
            assert(p1.update(ki, (path, t2)) =~= pending.update(ki, (path, t2)));
        } else {
            let n = pending.len() as int;
            let p1 = pending.push((path, t1));
            lemma_key_idx_witness(p1, path, n);
            if key_idx(p1, path) < n {
                assert(p1[key_idx(p1, path)] == (#[trigger] pending[key_idx(p1, path)]));
                assert(false);
            }
            assert(p1.update(n, (path, t2)) =~= pending.push((path, t2)));
        }
    }
}

/// The pending set after a burst: the same path noted once per time, in
/// order.
pub open spec fn note_times(
    pending: Seq<(Seq<Seq<char>>, u64)>,
    path: Seq<Seq<char>>,
    times: Seq<u64>,
) -> Seq<(Seq<Seq<char>>, u64)>
    decreases times.len(),
{
    if times.len() == 0 {
        pending
    } else {
        note_times(note_one(pending, path, times[0]), path, times.drop_first())
    }
}

/// However many notifications a burst for one path brings, the pending set
/// ends as if only the last had arrived: one entry for the path, bearing
/// the burst's final time. With the promotion contract — which removes the
/// path's single entry — this is why one burst yields exactly one ready
/// event.
pub proof fn lemma_burst_single_note(
    pending: Seq<(Seq<Seq<char>>, u64)>,
    path: Seq<Seq<char>>,
    times: Seq<u64>,
)
    requires
        unique_keys(pending),
        times.len() > 0,
    ensures
        note_times(pending, path, times) == note_one(pending, path, times.last()),
    decreases times.len(),
{
    let p1 = note_one(pending, path, times[0]);
    assert(note_times(pending, path, times) == note_times(p1, path, times.drop_first()));
    if times.len() == 1 {
        assert(times.drop_first() =~= Seq::<u64>::empty());
        assert(note_times(p1, path, times.drop_first()) == p1);
        assert(times[0] == times.last());
    } else {
        lemma_note_one_unique(pending, path, times[0]);
        lemma_burst_single_note(p1, path, times.drop_first());
        assert(times.drop_first().last() == times.last());
        lemma_note_override(pending, path, times[0], times.last());
    }
}

/// The paths of the pending entries that have rested at least the debounce
/// span by `now`, in pending order.
pub open spec fn stale_keys(
    pending: Seq<(Seq<Seq<char>>, u64)>,
    now: u64,
    deb: u64,
) -> Seq<Seq<Seq<char>>>
    decreases pending.len(),
{
    if pending.len() == 0 {
        Seq::empty()
    } else {
        let rest = stale_keys(pending.drop_last(), now, deb);
        if pending.last().1 + deb <= now {
            rest.push(pending.last().0)
        } else {
            rest
        }
    }
}

/// The stabilization engine's state: the live folder registry and the
/// pending set of paths still inside their debounce window.
#[derive(Debug)]
pub struct FolderWatcher {
    pub watched_folders: Vec<FolderEntry>,
    pub pending_files: Vec<PendingEntry>,
}

impl FolderWatcher {
    /// The registry as key-value pairs: folder path to configuration.
    pub open spec fn folders(&self) -> Seq<(Seq<Seq<char>>, ToolConfigView)> {
        Seq::new(
            self.watched_folders@.len(),
            |i: int| (self.watched_folders@[i].path@, self.watched_folders@[i].config@),
        )
    }

    /// The pending set as key-value pairs: path to last-seen time.
    pub open spec fn pending(&self) -> Seq<(Seq<Seq<char>>, u64)> {
        Seq::new(
            self.pending_files@.len(),
            |i: int| (self.pending_files@[i].path@, self.pending_files@[i].last_seen_ms),
        )
    }

    /// Well-formedness: a folder is registered at most once, a path is
    /// pending at most once, and everything pending passed the filter.
    pub open spec fn wf(&self) -> bool {
        &&& unique_keys(self.folders())
        &&& unique_keys(self.pending())
        &&& forall|i: int|
            0 <= i < self.pending().len() ==> accepts_path((#[trigger] self.pending()[i]).0)
    }

    /// A fresh engine watching nothing.
    pub fn new() -> (r: FolderWatcher)
        ensures
            r.wf(),
            r.folders() == Seq::<(Seq<Seq<char>>, ToolConfigView)>::empty(),
            r.pending() == Seq::<(Seq<Seq<char>>, u64)>::empty(),
    {
        let r = FolderWatcher { watched_folders: Vec::new(), pending_files: Vec::new() };
        proof {
            assert(r.folders() =~= Seq::<(Seq<Seq<char>>, ToolConfigView)>::empty());
            assert(r.pending() =~= Seq::<(Seq<Seq<char>>, u64)>::empty());
        }
        r
    }

    /// Register a folder for a tool: a disabled tool or one with no folder
    /// is a no-op; otherwise the folder's entry is created or overwritten
    /// and the folder path to put the OS-level watch on is handed back.
    /// (Creating the directory and watching it is the caller's part.)
    pub fn add_folder(&mut self, tool_config: ToolConfig) -> (r: Option<FilePath>)
        requires
            old(self).wf(),
        ensures
            final(self).wf(),
            final(self).pending() == old(self).pending(),
            (tool_config.folder_path is None || !tool_config.enabled) ==> (r is None
                && *final(self) == *old(self)),
            (tool_config.folder_path is Some && tool_config.enabled) ==> (r matches Some(p) && p@
                == split_path(tool_config.folder_path->Some_0@) && {
                let ki = key_idx(old(self).folders(), p@);
                if ki >= 0 {
                    final(self).folders() == old(self).folders().update(ki, (p@, tool_config@))
                } else {
                    final(self).folders() == old(self).folders().push((p@, tool_config@))
                }
            }),
    {
        let folder_str = match &tool_config.folder_path {
            Some(p) => p.clone(),
            None => {
                return None;
            },
        };
        if !tool_config.enabled {
            return None;
        }
        let fp = FilePath::from_string(folder_str.as_str());
        let ghost f0 = self.folders();
        proof {
            lemma_key_idx(f0, fp@);
        }
        let n = self.watched_folders.len();
        let mut j: usize = 0;
        while j < n
            invariant
                j <= n,
                n == self.watched_folders@.len(),
                *self == *old(self),
                f0 == self.folders(),
                old(self).wf(),
                tool_config.enabled,
                tool_config.folder_path is Some,
                fp@ == split_path(tool_config.folder_path->Some_0@),
                forall|i: int| 0 <= i < j ==> (#[trigger] f0[i]).0 != fp@,
            decreases n - j,
        {
            proof {
                assert(f0[j as int].0 == self.watched_folders@[j as int].path@);
            }
            if self.watched_folders[j].path.path_eq(&fp) {
                proof {
                    lemma_key_idx_witness(f0, fp@, j as int);
                    if key_idx(f0, fp@) < j as int {
                        assert((#[trigger] f0[key_idx(f0, fp@)]).0 == fp@);
                        assert(false);
                    }
                }
                self.watched_folders[j] = FolderEntry { path: fp.clone(), config: tool_config };
                proof {
                    assert(self.folders() =~= f0.update(j as int, (fp@, tool_config@)));
                    assert(self.pending() =~= old(self).pending());
                    assert forall|a: int, b: int|
                        0 <= a < b < self.folders().len() implies (#[trigger] self.folders()[a]).0
                        != (#[trigger] self.folders()[b]).0 by {
                        assert(self.folders()[a].0 == f0[a].0);
                        assert(self.folders()[b].0 == f0[b].0);
                        assert(f0[a].0 != f0[b].0);
                    }
                }
                return Some(fp);
            }
            j = j + 1;
        }
        proof {
            if key_idx(f0, fp@) >= 0 {
                assert((#[trigger] f0[key_idx(f0, fp@)]).0 == fp@);
                assert(false);
            }
        }
        self.watched_folders.push(FolderEntry { path: fp.clone(), config: tool_config });
        proof {
            assert(self.folders() =~= f0.push((fp@, tool_config@)));
            assert(self.pending() =~= old(self).pending());
            assert forall|a: int, b: int|
                0 <= a < b < self.folders().len() implies (#[trigger] self.folders()[a]).0 != (
            #[trigger] self.folders()[b]).0 by {
                if b < f0.len() {
                    assert(self.folders()[a].0 == f0[a].0);
                    assert(self.folders()[b].0 == f0[b].0);
                    assert(f0[a].0 != f0[b].0);
                } else {
                    assert(self.folders()[a].0 == (#[trigger] f0[a]).0);
                    assert(self.folders()[b].0 == fp@);
                }
            }
        }
        Some(fp)
    }

    /// Unregister a folder; an unknown folder is a no-op. (Dropping the
    /// OS-level watch is the caller's part.)
    pub fn remove_folder(&mut self, folder_path: &FilePath)
        requires
            old(self).wf(),
        ensures
            final(self).wf(),
            final(self).pending() == old(self).pending(),
            key_idx(old(self).folders(), folder_path@) == -1 ==> *final(self) == *old(self),
            key_idx(old(self).folders(), folder_path@) >= 0 ==> final(self).folders() == old(
                self,
            ).folders().remove(key_idx(old(self).folders(), folder_path@)),
    {
        let ghost f0 = self.folders();
        proof {
            lemma_key_idx(f0, folder_path@);
        }
        let n = self.watched_folders.len();
        let mut j: usize = 0;
        while j < n
            invariant
                j <= n,
                n == self.watched_folders@.len(),
                *self == *old(self),
                f0 == self.folders(),
                old(self).wf(),
                forall|i: int| 0 <= i < j ==> (#[trigger] f0[i]).0 != folder_path@,
            decreases n - j,
        {
            proof {
                assert(f0[j as int].0 == self.watched_folders@[j as int].path@);
            }
            if self.watched_folders[j].path.path_eq(folder_path) {
                proof {
                    lemma_key_idx_witness(f0, folder_path@, j as int);
                    if key_idx(f0, folder_path@) < j as int {
                        assert((#[trigger] f0[key_idx(f0, folder_path@)]).0 == folder_path@);
                        assert(false);
                    }
                }
                self.watched_folders.remove(j);
                proof {
                    assert(self.folders() =~= f0.remove(j as int));
                    assert(self.pending() =~= old(self).pending());
                    assert forall|a: int, b: int|
                        0 <= a < b < self.folders().len() implies (#[trigger] self.folders()[a]).0
                        != (#[trigger] self.folders()[b]).0 by {
                        let a0 = if a < j as int {
                            a
                        } else {
                            a + 1
                        };
                        let b0 = if b < j as int {
                            b
                        } else {
                            b + 1
                        };
                        assert(self.folders()[a].0 == (#[trigger] f0[a0]).0);
                        assert(self.folders()[b].0 == (#[trigger] f0[b0]).0);
                    }
                }
                return ;
            }
            j = j + 1;
        }
        proof {
            if key_idx(f0, folder_path@) >= 0 {
                assert((#[trigger] f0[key_idx(f0, folder_path@)]).0 == folder_path@);
                assert(false);
            }
        }
    }
}


impl FolderWatcher {
    /// Note one path from a relevant notification: rejected paths change
    /// nothing; an accepted path's pending entry gets the fresh time,
    /// created if it was absent.
    fn note_path(&mut self, path: &FilePath, now_ms: u64)
        requires
            old(self).wf(),
        ensures
            final(self).wf(),
            final(self).watched_folders@ == old(self).watched_folders@,
            final(self).folders() == old(self).folders(),
            final(self).pending() == note_one(old(self).pending(), path@, now_ms),
    {
        if !accepts(path) {
            return ;
        }
        let ghost p0 = self.pending();
        proof {
            lemma_key_idx(p0, path@);
        }
        let n = self.pending_files.len();
        let mut j: usize = 0;
        while j < n
            invariant
                j <= n,
                n == self.pending_files@.len(),
                *self == *old(self),
                p0 == self.pending(),
                old(self).wf(),
                accepts_path(path@),
                forall|i: int| 0 <= i < j ==> (#[trigger] p0[i]).0 != path@,
            decreases n - j,
        {
            proof {
                assert(p0[j as int].0 == self.pending_files@[j as int].path@);
            }
            if self.pending_files[j].path.path_eq(path) {
                proof {
                    lemma_key_idx_witness(p0, path@, j as int);
                    if key_idx(p0, path@) < j as int {
                        assert((#[trigger] p0[key_idx(p0, path@)]).0 == path@);
                        assert(false);
                    }
                }
                self.pending_files[j] = PendingEntry { path: path.clone(), last_seen_ms: now_ms };
                proof {
                    assert(self.pending() =~= p0.update(j as int, (path@, now_ms)));
                    assert(self.folders() =~= old(self).folders());
                    assert forall|a: int, b: int|
                        0 <= a < b < self.pending().len() implies (#[trigger] self.pending()[a]).0
                        != (#[trigger] self.pending()[b]).0 by {
                        assert(self.pending()[a].0 == p0[a].0);
                        assert(self.pending()[b].0 == p0[b].0);
                        assert(p0[a].0 != p0[b].0);
                    }
                    assert forall|i: int| 0 <= i < self.pending().len() implies accepts_path(
                        (#[trigger] self.pending()[i]).0,
                    ) by {
                        assert(self.pending()[i].0 == (#[trigger] p0[i]).0);
                    }
                }
                return ;
            }
            j = j + 1;
        }
        proof {
            if key_idx(p0, path@) >= 0 {
                assert((#[trigger] p0[key_idx(p0, path@)]).0 == path@);
                assert(false);
            }
        }
        self.pending_files.push(PendingEntry { path: path.clone(), last_seen_ms: now_ms });
        proof {
            assert(self.pending() =~= p0.push((path@, now_ms)));
            assert(self.folders() =~= old(self).folders());
            assert forall|a: int, b: int|
                0 <= a < b < self.pending().len() implies (#[trigger] self.pending()[a]).0 != (
            #[trigger] self.pending()[b]).0 by {
                if b < p0.len() {
                    assert(self.pending()[a].0 == p0[a].0);
                    assert(self.pending()[b].0 == p0[b].0);
                    assert(p0[a].0 != p0[b].0);
                } else {
                    assert(self.pending()[a].0 == (#[trigger] p0[a]).0);
                    assert(self.pending()[b].0 == path@);
                }
            }
            assert forall|i: int| 0 <= i < self.pending().len() implies accepts_path(
                (#[trigger] self.pending()[i]).0,
            ) by {
                if i < p0.len() {
                    assert(self.pending()[i].0 == (#[trigger] p0[i]).0);
                }
            }
        }
    }

    /// Take one raw notification: create and modify events restart the
    /// debounce window of each accepted path they touch; every other kind
    /// changes nothing.
    pub fn handle_notify_event(&mut self, kind: EventKind, paths: &Vec<FilePath>, now_ms: u64)
        requires
            old(self).wf(),
        ensures
            final(self).wf(),
            final(self).folders() == old(self).folders(),
            (kind == EventKind::Create || kind == EventKind::Modify) ==> final(self).pending()
                == note_paths(old(self).pending(), paths.deep_view(), now_ms),
            kind == EventKind::Other ==> *final(self) == *old(self),
    {
        match kind {
            EventKind::Other => {
                return ;
            },
            _ => {},
        }
        let n = paths.len();
        let mut i: usize = 0;
        proof {
            assert(paths.deep_view().take(0) =~= Seq::<Seq<Seq<char>>>::empty());
        }
        while i < n
            invariant
                i <= n,
                n == paths@.len(),
                n == paths.deep_view().len(),
                self.wf(),
                self.folders() == old(self).folders(),
                old(self).wf(),
                self.pending() == note_paths(
                    old(self).pending(),
                    paths.deep_view().take(i as int),
                    now_ms,
                ),
            decreases n - i,
        {
            let ghost before = self.pending();
            self.note_path(&paths[i], now_ms);
            proof {
                assert(paths.deep_view()[i as int] == paths@[i as int]@);
                assert(paths.deep_view().take(i + 1) =~= paths.deep_view().take(i as int).push(
                    paths.deep_view()[i as int],
                ));
                lemma_note_paths_snoc(
                    old(self).pending(),
                    paths.deep_view().take(i as int),
                    paths.deep_view()[i as int],
                    now_ms,
                );
            }
            i = i + 1;
        }
        proof {
            assert(paths.deep_view().take(n as int) =~= paths.deep_view());
        }
    }

    /// The pending paths whose debounce window has fully elapsed by
    /// `now_ms`: the stabilization candidates of this scan.
    pub fn stale_paths(&self, now_ms: u64, debounce_ms: u64) -> (r: Vec<FilePath>)
        ensures
            r.deep_view() == stale_keys(self.pending(), now_ms, debounce_ms),
    {
        let mut r: Vec<FilePath> = Vec::new();
        let n = self.pending_files.len();
        let mut j: usize = 0;
        proof {
            assert(self.pending().take(0) =~= Seq::<(Seq<Seq<char>>, u64)>::empty());
            assert(r.deep_view() =~= stale_keys(self.pending().take(0), now_ms, debounce_ms));
        }
        while j < n
            invariant
                j <= n,
                n == self.pending_files@.len(),
                r.deep_view() == stale_keys(self.pending().take(j as int), now_ms, debounce_ms),
            decreases n - j,
        {
            let ghost dv0 = r.deep_view();
            let ghost pd = self.pending();
            let entry_time = self.pending_files[j].last_seen_ms;
            let is_stale = now_ms >= debounce_ms && entry_time <= now_ms - debounce_ms;
            proof {
                assert(pd[j as int] == (
                    self.pending_files@[j as int].path@,
                    self.pending_files@[j as int].last_seen_ms,
                ));
                assert(pd.take(j + 1).drop_last() =~= pd.take(j as int));
                assert(pd.take(j + 1).last() == pd[j as int]);
            }
            if is_stale {
                r.push(self.pending_files[j].path.clone());
                proof {
                    assert(r.deep_view() =~= dv0.push(pd[j as int].0));
                }
            }
            proof {
                assert(is_stale == (pd[j as int].1 + debounce_ms <= now_ms));
            }
            j = j + 1;
        }
        proof {
            assert(self.pending().take(n as int) =~= self.pending());
        }
        r
    }

    /// The registered folder containing the path, preferring the most
    /// specific one: among the registered folders whose path is a prefix of
    /// the given path, the one with the most components wins.
    pub fn find_watched_folder(&self, path: &FilePath) -> (r: Option<(FilePath, ToolConfig)>)
        ensures
            r matches Some(fc) ==> exists|i: int|
                0 <= i < self.folders().len() && (#[trigger] self.folders()[i]).0 == fc.0@
                    && self.folders()[i].1 == fc.1@ && fc.0@.is_prefix_of(path@),
            r matches Some(fc) ==> forall|k: int|
                0 <= k < self.folders().len() && (#[trigger] self.folders()[k]).0.is_prefix_of(
                    path@,
                ) ==> self.folders()[k].0.len() <= fc.0@.len(),
            r is None ==> forall|k: int|
                0 <= k < self.folders().len() ==> !(#[trigger] self.folders()[k]).0.is_prefix_of(
                    path@,
                ),
    {
        let ghost f = self.folders();
        let n = self.watched_folders.len();
        let mut best: Option<usize> = None;
        let mut best_len: usize = 0;
        let mut j: usize = 0;
        while j < n
            invariant
                j <= n,
                n == self.watched_folders@.len(),
                f == self.folders(),
                best is None ==> forall|k: int|
                    0 <= k < j ==> !(#[trigger] f[k]).0.is_prefix_of(path@),
                best matches Some(bi) ==> bi < j && (#[trigger] f[bi as int]).0.is_prefix_of(path@)
                    && best_len == f[bi as int].0.len(),
                best matches Some(bi) ==> forall|k: int|
                    0 <= k < j && (#[trigger] f[k]).0.is_prefix_of(path@) ==> f[k].0.len()
                        <= best_len,
            decreases n - j,
        {
            proof {
                assert(f[j as int] == (
                    self.watched_folders@[j as int].path@,
                    self.watched_folders@[j as int].config@,
                ));
            }
            if self.watched_folders[j].path.is_prefix_of(path) {
                let plen = self.watched_folders[j].path.components.len();
                let take_it = match best {
                    None => true,
                    Some(_) => plen > best_len,
                };
                if take_it {
                    best = Some(j);
                    best_len = plen;
                }
            }
            j = j + 1;
        }
        match best {
            None => None,
            Some(bi) => {
                proof {
                    assert(f[bi as int] == (
                        self.watched_folders@[bi as int].path@,
                        self.watched_folders@[bi as int].config@,
                    ));
                }
                let fp = self.watched_folders[bi].path.clone();
                let cfg = self.watched_folders[bi].config.clone();
                Some((fp, cfg))
            },
        }
    }

    /// Try to promote one stabilization candidate. An unreadable file is
    /// left pending untouched — it is never promoted while unreadable. A
    /// readable pending path leaves the pending set; it becomes a ready
    /// event only if a registered folder contains it, carrying the most
    /// specific folder's configuration, and a promoted path always passed
    /// the notification filter.
    pub fn promote(&mut self, path: &FilePath, readable: bool) -> (r: Option<FileEvent>)
        requires
            old(self).wf(),
        ensures
            final(self).wf(),
            final(self).folders() == old(self).folders(),
            !readable ==> (*final(self) == *old(self) && r is None),
            readable && key_idx(old(self).pending(), path@) == -1 ==> (*final(self) == *old(self)
                && r is None),
            readable && key_idx(old(self).pending(), path@) >= 0 ==> {
                &&& final(self).pending() == old(self).pending().remove(
                    key_idx(old(self).pending(), path@),
                )
                &&& (r is None ==> forall|k: int|
                    0 <= k < old(self).folders().len() ==> !(#[trigger] old(
                        self,
                    ).folders()[k]).0.is_prefix_of(path@))
                &&& (r matches Some(ev) ==> {
                    &&& ev.path@ == path@
                    &&& accepts_path(path@)
                    &&& exists|i: int|
                        0 <= i < old(self).folders().len() && (#[trigger] old(
                            self,
                        ).folders()[i]).0.is_prefix_of(path@) && ev.tool_config@ == old(
                            self,
                        ).folders()[i].1 && ev.tool_id@ == old(self).folders()[i].1.id && (
                        forall|k: int|
                            0 <= k < old(self).folders().len() && (#[trigger] old(
                                self,
                            ).folders()[k]).0.is_prefix_of(path@) ==> old(self).folders()[k].0.len()
                                <= old(self).folders()[i].0.len())
                })
            },
    {
        if !readable {
            return None;
        }
        let ghost p0 = self.pending();
        let idx = match self.pending_index_of(path) {
            None => {
                return None;
            },
            Some(i) => i,
        };
        self.pending_files.remove(idx);
        proof {
            lemma_key_idx(p0, path@);
            assert(self.pending() =~= p0.remove(idx as int));
            assert forall|a: int, b: int|
                0 <= a < b < self.pending().len() implies (#[trigger] self.pending()[a]).0 != (
            #[trigger] self.pending()[b]).0 by {
                let a0 = if a < idx as int {
                    a
                } else {
                    a + 1
                };
                let b0 = if b < idx as int {
                    b
                } else {
                    b + 1
                };
                assert(self.pending()[a].0 == (#[trigger] p0[a0]).0);
                assert(self.pending()[b].0 == (#[trigger] p0[b0]).0);
            }
            assert forall|i: int| 0 <= i < self.pending().len() implies accepts_path(
                (#[trigger] self.pending()[i]).0,
            ) by {
                let i0 = if i < idx as int {
                    i
                } else {
                    i + 1
                };
                assert(self.pending()[i].0 == (#[trigger] p0[i0]).0);
            }
            assert(self.folders() =~= old(self).folders());
            assert(accepts_path(p0[idx as int].0));
        }
        match self.find_watched_folder(path) {
            None => None,
            Some((_folder, cfg)) => {
                let tool_id = cfg.id.clone();
                let ghost cv = cfg@;
                let ev = FileEvent { path: path.clone(), tool_id, tool_config: cfg };
                proof {
                    assert(ev.tool_config@ == cv);
                }
                Some(ev)
            },
        }
    }

    /// Index of the path's pending entry, if it is pending.
    fn pending_index_of(&self, path: &FilePath) -> (r: Option<usize>)
        requires
            self.wf(),
        ensures
            r is None ==> key_idx(self.pending(), path@) == -1,
            r matches Some(i) ==> i < self.pending().len() && i as int == key_idx(
                self.pending(),
                path@,
            ),
    {
        let n = self.pending_files.len();
        let mut j: usize = 0;
        while j < n
            invariant
                j <= n,
                n == self.pending_files@.len(),
                self.wf(),
                forall|i: int| 0 <= i < j ==> (#[trigger] self.pending()[i]).0 != path@,
            decreases n - j,
        {
            proof {
                assert(self.pending()[j as int].0 == self.pending_files@[j as int].path@);
            }
            if self.pending_files[j].path.path_eq(path) {
                proof {
                    lemma_key_idx_witness(self.pending(), path@, j as int);
                    let ki = key_idx(self.pending(), path@);
                    if ki < j as int {
                        assert((#[trigger] self.pending()[ki]).0 == path@);
                        assert((#[trigger] self.pending()[j as int]).0 == path@);
                        assert(false);
                    }
                }
                return Some(j);
            }
            j = j + 1;
        }
        proof {
            lemma_key_idx(self.pending(), path@);
            if key_idx(self.pending(), path@) >= 0 {
                assert((#[trigger] self.pending()[key_idx(self.pending(), path@)]).0 == path@);
                assert(false);
            }
        }
        None
    }
}

} // verus!
