//! Clipboard persistence decisions and the clipboard writer's argument
//! vectors: where the store keeps its files, which entries it admits and
//! evicts, and how a text copy is invoked.
use vstd::prelude::*;

use crate::text::{
    chars_vec, concat, ends_with, lemma_last_segment_after_separator, owned, spec_ends_with,
    spec_last_segment, string_of_range, string_views,
};

verus! {

/// Entries kept at most; appending past this evicts the oldest.
pub const MAX_ENTRIES: usize = 100;

/// Total size of the kept entries, at most; appending past this evicts the oldest.
pub const MAX_TOTAL_BLOB_BYTES: u64 = 268435456;

/// Size of a single entry, at most; a larger entry is not stored.
pub const MAX_SINGLE_ENTRY: u64 = 33554432;

// ---------------------------------------------------------------------------
// Paths.
// ---------------------------------------------------------------------------

/// `Path::join` on Unix: an absolute `name` replaces `base`; otherwise a `/`
/// is added between them unless `base` is empty or already ends with one.
pub open spec fn spec_join_path(base: Seq<char>, name: Seq<char>) -> Seq<char> {
    if name.len() > 0 && name[0] == '/' {
        name
    } else if base.len() == 0 || base.last() == '/' {
        base + name
    } else {
        base + "/"@ + name
    }
}

pub fn join_path(base: &str, name: &str) -> (r: String)
    ensures
        r@ == spec_join_path(base@, name@),
{
    let n = chars_vec(name);
    let b = chars_vec(base);
    proof {
        reveal_strlit("/");
    }
    if n.len() > 0 && n[0] == '/' {
        owned(name)
    } else if b.len() == 0 || b[b.len() - 1] == '/' {
        concat(base, name)
    } else {
        let with_sep = concat(base, "/");
        concat(with_sep.as_str(), name)
    }
}

/// The state directory: `$XDG_STATE_HOME` when set, else `$HOME/.local/state`
/// (an unset `HOME` counting as empty).
pub open spec fn spec_state_home(xdg_state_home: Option<Seq<char>>, home: Option<Seq<char>>) -> Seq<
    char,
> {
    match xdg_state_home {
        Some(s) => s,
        None => match home {
            Some(h) => h + "/.local/state"@,
            None => "/.local/state"@,
        },
    }
}

/// The metadata file and the blob directory under a state directory.
pub open spec fn spec_default_paths(xdg_state_home: Option<Seq<char>>, home: Option<Seq<char>>) -> (
    Seq<char>,
    Seq<char>,
) {
    let base = spec_join_path(spec_state_home(xdg_state_home, home), "quantum"@);
    (spec_join_path(base, "clipboard.json"@), spec_join_path(base, "clipboard"@))
}

pub open spec fn opt_view(o: Option<&str>) -> Option<Seq<char>> {
    match o {
        Some(s) => Some(s@),
        None => None,
    }
}

/// The clipboard store's files: a JSON metadata file and a blob directory
/// holding `<id>.bin` files.
pub struct FileClipboardStore {
    json_path: String,
    blob_dir: String,
}

impl FileClipboardStore {
    /// The store at the default locations, given the values of
    /// `XDG_STATE_HOME` and `HOME` (`None` when unset).
    pub fn new(xdg_state_home: Option<&str>, home: Option<&str>) -> (r: FileClipboardStore)
        ensures
            (r.spec_json_path(), r.spec_blob_dir()) == spec_default_paths(opt_view(xdg_state_home), opt_view(home)),
    {
        let state_home = match xdg_state_home {
            Some(s) => owned(s),
            None => match home {
                Some(h) => concat(h, "/.local/state"),
                None => owned("/.local/state"),
            },
        };
        proof {
            reveal_strlit("/.local/state");
        }
        let base = join_path(state_home.as_str(), "quantum");
        let json_path = join_path(base.as_str(), "clipboard.json");
        let blob_dir = join_path(base.as_str(), "clipboard");
        FileClipboardStore { json_path, blob_dir }
    }

    /// The store at explicit locations.
    pub fn with_paths(json_path: String, blob_dir: String) -> (r: FileClipboardStore)
        ensures
            r.spec_json_path() == json_path@,
            r.spec_blob_dir() == blob_dir@,
    {
        FileClipboardStore { json_path, blob_dir }
    }

    pub closed spec fn spec_json_path(&self) -> Seq<char> {
        self.json_path@
    }

    pub closed spec fn spec_blob_dir(&self) -> Seq<char> {
        self.blob_dir@
    }

    /// The directory blob files are written to.
    pub fn blob_directory(&self) -> (r: &str)
        ensures
            r@ == self.spec_blob_dir(),
    {
        self.blob_dir.as_str()
    }

    /// The metadata file.
    pub fn json_path(&self) -> (r: &str)
        ensures
            r@ == self.spec_json_path(),
    {
        self.json_path.as_str()
    }

    /// The blob file of an entry: `<blob_dir>/<id>.bin`.
    pub fn blob_path_for(&self, id: &str) -> (r: String)
        ensures
            r@ == spec_join_path(self.spec_blob_dir(), id@ + ".bin"@),
    {
        let name = concat(id, ".bin");
        join_path(self.blob_dir.as_str(), name.as_str())
    }
}

/// The entry id a blob file name stands for: the name without its `.bin`
/// suffix; `None` for any other name.
pub fn blob_id_from_file_name(name: &str) -> (r: Option<String>)
    ensures
        match r {
            Some(id) => spec_ends_with(name@, ".bin"@) && id@ == name@.subrange(
                0,
                name@.len() - 4,
            ),
            None => !spec_ends_with(name@, ".bin"@),
        },
{
    let v = chars_vec(name);
    proof {
        reveal_strlit(".bin");
    }
    if ends_with(&v, ".bin") {
        Some(string_of_range(&v, 0, v.len() - 4))
    } else {
        None
    }
}

/// The blob file of an entry names that entry: for an id without `/`, the
/// last segment of `blob_path_for(id)` is `<id>.bin`, which ends in `.bin`
/// and gives back `id` without it.
pub proof fn law_blob_name_round_trip(blob_dir: Seq<char>, id: Seq<char>)
    requires
        !id.contains('/'),
    ensures
        spec_last_segment(spec_join_path(blob_dir, id + ".bin"@)) == id + ".bin"@,
        spec_ends_with(id + ".bin"@, ".bin"@),
        (id + ".bin"@).subrange(0, (id + ".bin"@).len() - 4) == id,
{
    reveal_strlit(".bin");
    reveal_strlit("/");
    let name = id + ".bin"@;
    assert forall|i: int| 0 <= i < name.len() implies name[i] != '/' by {
        if i < id.len() {
            assert(name[i] == id[i]);
        }
    }
    assert(name[0] != '/');
    if blob_dir.len() == 0 || blob_dir.last() == '/' {
        lemma_last_segment_after_separator(blob_dir, name);
    } else {
        assert(blob_dir + "/"@ + name =~= (blob_dir + seq!['/']) + name);
        lemma_last_segment_after_separator(blob_dir + seq!['/'], name);
    }
    assert(name.subrange(name.len() - 4, name.len() as int) =~= ".bin"@);
    assert(name.subrange(0, name.len() - 4) =~= id);
}

// ---------------------------------------------------------------------------
// Admission and eviction.
// ---------------------------------------------------------------------------

/// Whether an entry of `size_bytes` is stored at all.
pub fn admits_entry(size_bytes: u64) -> (r: bool)
    ensures
        r == (size_bytes <= MAX_SINGLE_ENTRY),
{
    size_bytes <= MAX_SINGLE_ENTRY
}

pub open spec fn spec_sum(s: Seq<u64>) -> int
    decreases s.len(),
{
    if s.len() == 0 {
        0
    } else {
        s[0] + spec_sum(s.skip(1))
    }
}

/// Keeping the entries from `k` on still breaks a cap.
pub open spec fn spec_over_caps(sizes: Seq<u64>, k: int) -> bool {
    sizes.len() - k > MAX_ENTRIES || spec_sum(sizes.skip(k)) > MAX_TOTAL_BLOB_BYTES
}

proof fn lemma_sum_bound(s: Seq<u64>)
    ensures
        0 <= spec_sum(s) <= s.len() * 0xffff_ffff_ffff_ffff,
    decreases s.len(),
{
    if s.len() > 0 {
        lemma_sum_bound(s.skip(1));
    }
}

/// How many of the oldest entries (the front of `sizes`) are evicted: the
/// fewest after whose removal at most `MAX_ENTRIES` entries remain and their
/// sizes total at most `MAX_TOTAL_BLOB_BYTES`.
pub fn evict_count(sizes: &[u64]) -> (r: usize)
    ensures
        r <= sizes@.len(),
        !spec_over_caps(sizes@, r as int),
        forall|k: int| 0 <= k < r ==> spec_over_caps(sizes@, k),
{
    let n = sizes.len();
    let mut total: u128 = 0;
    let mut i: usize = n;
    assert(sizes@.skip(n as int) =~= Seq::<u64>::empty());
    while i > 0
        invariant
            i <= n,
            n == sizes@.len(),
            total == spec_sum(sizes@.skip(i as int)),
        decreases i,
    {
        proof {
            assert(sizes@.skip(i - 1).skip(1) =~= sizes@.skip(i as int));
            lemma_sum_bound(sizes@.skip(i - 1));
            assert(n <= usize::MAX);
        }
        total = total + sizes[i - 1] as u128;
        i -= 1;
    }
    let mut k: usize = 0;
    while k < n && (n - k > MAX_ENTRIES || total > MAX_TOTAL_BLOB_BYTES as u128)
        invariant
            k <= n,
            n == sizes@.len(),
            total == spec_sum(sizes@.skip(k as int)),
            forall|j: int| 0 <= j < k ==> spec_over_caps(sizes@, j),
        decreases n - k,
    {
        proof {
            assert(sizes@.skip(k as int).skip(1) =~= sizes@.skip(k + 1));
            lemma_sum_bound(sizes@.skip(k + 1));
        }
        total = total - sizes[k] as u128;
        k += 1;
    }
    k
}

// ---------------------------------------------------------------------------
// The clipboard writer.
// ---------------------------------------------------------------------------

/// Writes to the clipboard by running a copy program (`wl-copy` by default).
pub struct WlClipboardWriter {
    program: Vec<String>,
}

impl View for WlClipboardWriter {
    type V = Seq<Seq<char>>;

    closed spec fn view(&self) -> Seq<Seq<char>> {
        string_views(self.program@)
    }
}

impl WlClipboardWriter {
    /// A writer around a copy program and its fixed leading arguments; `None`
    /// or an empty vector means `["wl-copy"]`.
    pub fn new(copy_program: Option<Vec<String>>) -> (r: WlClipboardWriter)
        ensures
            r@ == match copy_program {
                Some(p) => if p@.len() > 0 {
                    string_views(p@)
                } else {
                    seq!["wl-copy"@]
                },
                None => seq!["wl-copy"@],
            },
    {
        let program = match copy_program {
            Some(p) => if p.len() > 0 {
                p
            } else {
                default_copy_program()
            },
            None => default_copy_program(),
        };
        WlClipboardWriter { program }
    }

    /// The copy program and its fixed leading arguments.
    pub fn program(&self) -> (r: &[String])
        ensures
            string_views(r@) == self@,
    {
        self.program.as_slice()
    }
}

fn default_copy_program() -> (r: Vec<String>)
    ensures
        string_views(r@) == seq!["wl-copy"@],
{
    let mut v: Vec<String> = Vec::new();
    v.push(owned("wl-copy"));
    assert(string_views(v@) =~= seq!["wl-copy"@]);
    v
}

/// The argument vector of a text copy: the program vector, then the text.
pub fn copy_text_argv(program: &[String], text: &str) -> (r: Vec<String>)
    ensures
        string_views(r@) == string_views(program@).push(text@),
{
    let mut argv: Vec<String> = Vec::new();
    let mut i: usize = 0;
    while i < program.len()
        invariant
            i <= program@.len(),
            string_views(argv@) =~= string_views(program@).take(i as int),
        decreases program@.len() - i,
    {
        let ghost prev = string_views(argv@);
        argv.push(program[i].clone());
        assert(string_views(argv@) =~= prev.push(program@[i as int]@));
        assert(string_views(program@).take(i + 1) =~= string_views(program@).take(i as int).push(
            program@[i as int]@,
        ));
        i += 1;
    }
    let ghost prev = string_views(argv@);
    argv.push(owned(text));
    assert(string_views(argv@) =~= prev.push(text@));
    assert(string_views(program@).take(i as int) =~= string_views(program@));
    argv
}

} // verus!
