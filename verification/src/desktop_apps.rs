//! Desktop applications: the record kept per `.desktop` entry and the
//! tokenizer that turns an `Exec=` value into the argument vector launched.
use vstd::prelude::*;
use vstd::multiset::Multiset;

use crate::keyed::{lemma_entries_dom, lemma_entry_value, lemma_unique_len, spec_entries_map, spec_keys_unique, KeyedVec};
use crate::error::DomainError;
use crate::text::{lines, spec_lines, spec_starts_with, spec_trim, trim, views, concat, contains, spec_contains, spec_split, split_char, str_eq, lex_lt, lemma_lex_lt_irreflexive, lemma_lex_lt_total, lemma_lex_lt_transitive, spec_lex_lt, 
    chars_vec, owned, spec_is_whitespace, spec_to_lowercase, string_of, string_views, to_lowercase,
    is_whitespace,
};

verus! {

/// One launchable application, with lower-cased copies of the searchable
/// names computed once.
#[derive(Debug)]
pub struct AppInfo {
    pub id: String,
    pub name: String,
    pub generic_name: Option<String>,
    pub exec_line: String,
    pub icon: Option<String>,
    pub name_lower: String,
    pub generic_name_lower: Option<String>,
    pub keywords_lower: Vec<String>,
}

pub open spec fn opt_view(o: Option<String>) -> Option<Seq<char>> {
    match o {
        Some(s) => Some(s@),
        None => None,
    }
}

fn lower_all(v: &Vec<String>) -> (r: Vec<String>)
    ensures
        string_views(r@) == string_views(v@).map_values(|s: Seq<char>| spec_to_lowercase(s)),
{
    let mut out: Vec<String> = Vec::new();
    let mut i: usize = 0;
    while i < v.len()
        invariant
            i <= v.len(),
            string_views(out@) =~= string_views(v@).map_values(|s: Seq<char>| spec_to_lowercase(s)).take(
                i as int,
            ),
        decreases v.len() - i,
    {
        let ghost prev = string_views(out@);
        out.push(to_lowercase(v[i].as_str()));
        assert(string_views(out@) =~= prev.push(spec_to_lowercase(v@[i as int]@)));
        i += 1;
    }
    out
}

impl AppInfo {
    pub fn new(
        id: String,
        name: String,
        generic_name: Option<String>,
        keywords: Vec<String>,
        exec_line: String,
        icon: Option<String>,
    ) -> (r: AppInfo)
        ensures
            r.id == id,
            r.name == name,
            r.generic_name == generic_name,
            r.exec_line == exec_line,
            r.icon == icon,
            r.name_lower@ == spec_to_lowercase(name@),
            opt_view(r.generic_name_lower) == match generic_name {
                Some(g) => Some(spec_to_lowercase(g@)),
                None => None,
            },
            string_views(r.keywords_lower@) == string_views(keywords@).map_values(
                |s: Seq<char>| spec_to_lowercase(s),
            ),
    {
        let name_lower = to_lowercase(name.as_str());
        let generic_name_lower = match &generic_name {
            Some(g) => Some(to_lowercase(g.as_str())),
            None => None,
        };
        let keywords_lower = lower_all(&keywords);
        AppInfo { id, name, generic_name, exec_line, icon, name_lower, generic_name_lower, keywords_lower }
    }
}

/// The non-empty pieces of a `;`-separated `Keywords=` value.
pub open spec fn spec_split_keywords(raw: Seq<char>) -> Seq<Seq<char>>
    decreases raw.len(),
{
    spec_keywords_state(raw).0 + if spec_keywords_state(raw).1.len() > 0 {
        seq![spec_keywords_state(raw).1]
    } else {
        Seq::empty()
    }
}

/// Pieces completed so far and the pending piece after reading `raw`.
pub open spec fn spec_keywords_state(raw: Seq<char>) -> (Seq<Seq<char>>, Seq<char>)
    decreases raw.len(),
{
    if raw.len() == 0 {
        (Seq::empty(), Seq::empty())
    } else {
        let (done, cur) = spec_keywords_state(raw.drop_last());
        if raw.last() == ';' {
            if cur.len() > 0 {
                (done.push(cur), Seq::empty())
            } else {
                (done, cur)
            }
        } else {
            (done, cur.push(raw.last()))
        }
    }
}

pub fn split_keywords(raw: &str) -> (r: Vec<String>)
    ensures
        string_views(r@) == spec_split_keywords(raw@),
{
    let v = chars_vec(raw);
    let mut done: Vec<String> = Vec::new();
    let mut cur: Vec<char> = Vec::new();
    let mut i: usize = 0;
    while i < v.len()
        invariant
            i <= v.len(),
            v@ == raw@,
            (string_views(done@), cur@) == spec_keywords_state(v@.take(i as int)),
        decreases v.len() - i,
    {
        assert(v@.take(i + 1).drop_last() =~= v@.take(i as int));
        let c = v[i];
        if c == ';' {
            if cur.len() > 0 {
                let ghost prev = string_views(done@);
                done.push(string_of(&cur));
                assert(string_views(done@) =~= prev.push(cur@));
                cur = Vec::new();
            }
        } else {
            cur.push(c);
        }
        i += 1;
    }
    assert(v@.take(i as int) =~= v@);
    if cur.len() > 0 {
        let ghost prev = string_views(done@);
        done.push(string_of(&cur));
        assert(string_views(done@) =~= prev.push(cur@));
    } else {
        assert(string_views(done@) =~= string_views(done@) + Seq::<Seq<char>>::empty());
    }
    done
}

/// The application record of a parsed desktop entry, from its file stem and
/// the entry's values: a missing name reads `Unknown`, keywords are the
/// non-empty `;`-separated pieces, a missing `Exec=` is empty, and a missing
/// `Icon=` falls back to the file stem.
pub fn app_from_entry(
    stem: &str,
    name: Option<String>,
    generic_name: Option<String>,
    keywords: Option<&str>,
    exec_line: Option<String>,
    icon: Option<String>,
) -> (r: AppInfo)
    ensures
        r.id@ == stem@,
        r.name@ == match name {
            Some(n) => n@,
            None => "Unknown"@,
        },
        r.generic_name == generic_name,
        string_views(r.keywords_lower@) == match keywords {
            Some(k) => spec_split_keywords(k@),
            None => Seq::empty(),
        }.map_values(|s: Seq<char>| spec_to_lowercase(s)),
        r.exec_line@ == match exec_line {
            Some(e) => e@,
            None => Seq::empty(),
        },
        opt_view(r.icon) == Some(
            match icon {
                Some(i) => i@,
                None => stem@,
            },
        ),
{
    let app_name = match name {
        Some(n) => n,
        None => owned("Unknown"),
    };
    let kw = match keywords {
        Some(k) => split_keywords(k),
        None => {
            let v: Vec<String> = Vec::new();
            assert(string_views(v@) =~= Seq::<Seq<char>>::empty());
            v
        },
    };
    let exec_s = match exec_line {
        Some(e) => e,
        None => String::new(),
    };
    let icon_s = match icon {
        Some(i) => Some(i),
        None => Some(owned(stem)),
    };
    AppInfo::new(owned(stem), app_name, generic_name, kw, exec_s, icon_s)
}

// ---------------------------------------------------------------------------
// `Exec=` tokenizing.
// ---------------------------------------------------------------------------

/// Whether `c` is a field code of the Desktop Entry `Exec` key.
pub open spec fn spec_is_field_code(c: char) -> bool {
    c == 'f' || c == 'F' || c == 'u' || c == 'U' || c == 'd' || c == 'D' || c == 'n' || c == 'N'
        || c == 'i' || c == 'c' || c == 'k' || c == 'v' || c == 'm'
}

/// The tokenizer's state: tokens so far, the token being built, whether a
/// token is open (so an empty quoted argument is kept) and whether we are
/// inside double quotes.
pub struct TokState {
    pub tokens: Seq<Seq<char>>,
    pub cur: Seq<char>,
    pub open: bool,
    pub quoted: bool,
}

pub open spec fn spec_tok_init() -> TokState {
    TokState { tokens: Seq::empty(), cur: Seq::empty(), open: false, quoted: false }
}

/// One step at position `i` (`i < s.len()`): the next state and how many
/// characters were consumed.
///
/// Inside quotes: `"` closes; `\` before `"`, `` ` ``, `$` or `\` yields that
/// character, else a literal `\`; `%%` yields `%`; anything else is kept.
/// Outside quotes: white space ends an open token; `"` opens quotes (and a
/// token); `%%` yields `%`; `%` before a field code drops both; any other `%`
/// is dropped; anything else is kept.
pub open spec fn spec_tok_step(s: Seq<char>, i: int, st: TokState) -> (TokState, int) {
    let c = s[i];
    let has_next = i + 1 < s.len();
    let next = if has_next { s[i + 1] } else { ' ' };
    if st.quoted {
        if c == '"' {
            (TokState { quoted: false, ..st }, 1)
        } else if c == '\\' {
            if has_next && (next == '"' || next == '`' || next == '$' || next == '\\') {
                (TokState { cur: st.cur.push(next), ..st }, 2)
            } else {
                (TokState { cur: st.cur.push('\\'), ..st }, 1)
            }
        } else if c == '%' && has_next && next == '%' {
            (TokState { cur: st.cur.push('%'), ..st }, 2)
        } else {
            (TokState { cur: st.cur.push(c), ..st }, 1)
        }
    } else if spec_is_whitespace(c) {
        if st.open {
            (TokState { tokens: st.tokens.push(st.cur), cur: Seq::empty(), open: false, ..st }, 1)
        } else {
            (st, 1)
        }
    } else if c == '"' {
        (TokState { quoted: true, open: true, ..st }, 1)
    } else if c == '%' {
        if has_next && next == '%' {
            (TokState { cur: st.cur.push('%'), open: true, ..st }, 2)
        } else if has_next && spec_is_field_code(next) {
            (st, 2)
        } else {
            (st, 1)
        }
    } else {
        (TokState { cur: st.cur.push(c), open: true, ..st }, 1)
    }
}

/// The tokens of `s` read from position `i` in state `st`.
pub open spec fn spec_tok_from(s: Seq<char>, i: int, st: TokState) -> Seq<Seq<char>>
    decreases s.len() - i,
{
    if i < 0 || i >= s.len() {
        if st.open {
            st.tokens.push(st.cur)
        } else {
            st.tokens
        }
    } else {
        let (st2, adv) = spec_tok_step(s, i, st);
        spec_tok_from(s, i + adv, st2)
    }
}

/// The argument vector of an `Exec=` value.
pub open spec fn spec_tokenize_exec(line: Seq<char>) -> Seq<Seq<char>> {
    spec_tok_from(line, 0, spec_tok_init())
}

/// Split an `Exec=` value into arguments: double quotes group (with `\`
/// escapes), field codes are removed, `%%` is a literal `%`, and a `%` before
/// anything else is dropped (so `%command%` degrades to `ommand`).
pub fn tokenize_exec(line: &str) -> (r: Vec<String>)
    ensures
        string_views(r@) == spec_tokenize_exec(line@),
{
    let chars = chars_vec(line);
    let mut tokens: Vec<String> = Vec::new();
    let mut current: Vec<char> = Vec::new();
    let mut token_open = false;
    let mut in_quotes = false;
    let mut index: usize = 0;
    assert(string_views(tokens@) =~= Seq::<Seq<char>>::empty());
    assert(current@ =~= Seq::<char>::empty());
    while index < chars.len()
        invariant
            index <= chars.len(),
            chars@ == line@,
            spec_tok_from(
                chars@,
                index as int,
                TokState {
                    tokens: string_views(tokens@),
                    cur: current@,
                    open: token_open,
                    quoted: in_quotes,
                },
            ) == spec_tokenize_exec(line@),
        decreases chars.len() - index,
    {
        let ghost st = TokState {
            tokens: string_views(tokens@),
            cur: current@,
            open: token_open,
            quoted: in_quotes,
        };
        let ghost (st2, adv) = spec_tok_step(chars@, index as int, st);
        let c = chars[index];
        let has_next = index + 1 < chars.len();
        let next = if has_next {
            chars[index + 1]
        } else {
            ' '
        };
        if in_quotes {
            if c == '"' {
                in_quotes = false;
                index += 1;
            } else if c == '\\' {
                if has_next && (next == '"' || next == '`' || next == '$' || next == '\\') {
                    current.push(next);
                    index += 2;
                } else {
                    current.push('\\');
                    index += 1;
                }
            } else if c == '%' && has_next && next == '%' {
                current.push('%');
                index += 2;
            } else {
                current.push(c);
                index += 1;
            }
        } else if is_whitespace(c) {
            if token_open {
                let ghost prev = string_views(tokens@);
                tokens.push(string_of(&current));
                assert(string_views(tokens@) =~= prev.push(current@));
                current = Vec::new();
                token_open = false;
            }
            index += 1;
        } else if c == '"' {
            in_quotes = true;
            token_open = true;
            index += 1;
        } else if c == '%' {
            if has_next && next == '%' {
                current.push('%');
                token_open = true;
                index += 2;
            } else if has_next && (next == 'f' || next == 'F' || next == 'u' || next == 'U' || next
                == 'd' || next == 'D' || next == 'n' || next == 'N' || next == 'i' || next == 'c'
                || next == 'k' || next == 'v' || next == 'm') {
                index += 2;
            } else {
                index += 1;
            }
        } else {
            current.push(c);
            token_open = true;
            index += 1;
        }
        assert(TokState {
            tokens: string_views(tokens@),
            cur: current@,
            open: token_open,
            quoted: in_quotes,
        } == st2);
    }
    if token_open {
        let ghost prev = string_views(tokens@);
        tokens.push(string_of(&current));
        assert(string_views(tokens@) =~= prev.push(current@));
    }
    tokens
}

// ---------------------------------------------------------------------------
// The catalog: scanned entries deduplicated by id and ordered by name.
// ---------------------------------------------------------------------------

/// `a` does not sort after `b` by name.
pub open spec fn spec_name_le(a: AppInfo, b: AppInfo) -> bool {
    !spec_lex_lt(b.name@, a.name@)
}

/// The applications are in non-decreasing name order.
pub open spec fn spec_sorted_by_name(s: Seq<AppInfo>) -> bool {
    forall|i: int, j: int| 0 <= i < j < s.len() ==> spec_name_le(#[trigger] s[i], #[trigger] s[j])
}

/// The position of a first application with the least name in `v[from..]`.
fn least_name_from(v: &Vec<AppInfo>, from: usize) -> (r: usize)
    requires
        from < v@.len(),
    ensures
        from <= r < v@.len(),
        forall|k: int| from <= k < v@.len() ==> spec_name_le(v@[r as int], #[trigger] v@[k]),
{
    let n = v.len();
    let mut best: usize = from;
    let mut best_name = chars_vec(v[from].name.as_str());
    let mut i: usize = from + 1;
    proof {
        lemma_lex_lt_irreflexive(v@[from as int].name@);
    }
    while i < v.len()
        invariant
            from <= best < i <= v@.len(),
            best_name@ == v@[best as int].name@,
            forall|k: int| from <= k < i ==> spec_name_le(v@[best as int], #[trigger] v@[k]),
        decreases v@.len() - i,
    {
        let n = chars_vec(v[i].name.as_str());
        if lex_lt(&n, &best_name) {
            proof {
                assert forall|k: int| from <= k < i implies spec_name_le(v@[i as int], #[trigger] v@[k]) by {
                    if spec_lex_lt(v@[k].name@, v@[i as int].name@) {
                        lemma_lex_lt_transitive(v@[k].name@, v@[i as int].name@, v@[best as int].name@);
                    }
                }
                lemma_lex_lt_irreflexive(v@[i as int].name@);
            }
            best = i;
            best_name = n;
        } else {
            proof {
                lemma_lex_lt_total(n@, best_name@);
            }
        }
        i += 1;
    }
    best
}

/// The applications reordered by name (equal names keep no particular order).
pub fn sort_by_name(apps: Vec<AppInfo>) -> (r: Vec<AppInfo>)
    ensures
        spec_sorted_by_name(r@),
        r@.to_multiset() == apps@.to_multiset(),
{
    broadcast use vstd::seq_lib::group_to_multiset_ensures;
    let mut rest = apps;
    let mut out: Vec<AppInfo> = Vec::new();
    while rest.len() > 0
        invariant
            spec_sorted_by_name(out@),
            forall|i: int, j: int| 0 <= i < out@.len() && 0 <= j < rest@.len() ==> spec_name_le(#[trigger] out@[i], #[trigger] rest@[j]),
            out@.to_multiset().add(rest@.to_multiset()) == apps@.to_multiset(),
        decreases rest@.len(),
    {
        let m = least_name_from(&rest, 0);
        let ghost before_rest = rest@;
        let ghost before_out = out@;
        let x = rest.remove(m);
        assert(rest@ == before_rest.remove(m as int));
        out.push(x);
        proof {
            assert(out@ == before_out.push(x));
            assert forall|i: int, j: int| 0 <= i < out@.len() && 0 <= j < rest@.len() implies spec_name_le(
                #[trigger] out@[i], #[trigger] rest@[j]) by {
                let j2 = if j < m { j } else { j + 1 };
                assert(rest@[j] == before_rest[j2]);
                if i < before_out.len() {
                    assert(out@[i] == before_out[i]);
                } else {
                    assert(out@[i] == before_rest[m as int]);
                }
            }
            assert forall|i: int, j: int| 0 <= i < j < out@.len() implies spec_name_le(#[trigger] out@[i], #[trigger] out@[j]) by {
                if j < before_out.len() {
                    assert(out@[i] == before_out[i] && out@[j] == before_out[j]);
                } else {
                    assert(out@[i] == before_out[i]);
                    assert(out@[j] == before_rest[m as int]);
                }
            }
            before_out.to_multiset_ensures();
            before_rest.to_multiset_ensures();
            assert(before_out.push(x).to_multiset() == before_out.to_multiset().insert(x));
            assert(before_rest.remove(m as int).to_multiset() == before_rest.to_multiset().remove(before_rest[m as int]));
            assert(before_rest.to_multiset().count(x) > 0) by {
                assert(before_rest.contains(x)) by { assert(before_rest[m as int] == x); }
            }
            assert(out@.to_multiset().add(rest@.to_multiset()) =~= before_out.to_multiset().add(before_rest.to_multiset()));
        }
    }
    proof {
        assert(rest@.to_multiset() =~= Multiset::empty()) by {
            assert(rest@.len() == 0);
            assert(rest@.to_multiset().len() == 0);
        }
        assert(out@.to_multiset().add(Multiset::empty()) =~= out@.to_multiset());
    }
    out
}

/// `a` is the application `m` holds under some id.
pub open spec fn spec_is_value_of(m: Map<Seq<char>, AppInfo>, a: AppInfo) -> bool {
    exists|k: Seq<char>| m.dom().contains(k) && m[k] == a
}

/// The scanned applications by desktop id; the first entry seen for an id
/// wins, as the XDG base directory rules ask.
pub struct AppCatalog {
    by_id: KeyedVec<AppInfo>,
}

impl View for AppCatalog {
    type V = Map<Seq<char>, AppInfo>;

    closed spec fn view(&self) -> Map<Seq<char>, AppInfo> {
        self.by_id@
    }
}

impl AppCatalog {
    /// An empty catalog.
    pub fn new() -> (r: AppCatalog)
        ensures
            r@ == Map::<Seq<char>, AppInfo>::empty(),
    {
        AppCatalog { by_id: KeyedVec::new() }
    }

    /// Record `app` under `id` unless an entry with that id was seen before.
    pub fn add(&mut self, id: String, app: AppInfo)
        ensures
            final(self)@ == if old(self)@.dom().contains(id@) {
                old(self)@
            } else {
                old(self)@.insert(id@, app)
            },
    {
        if !self.by_id.contains_key(id.as_str()) {
            self.by_id.insert(id, app);
        }
    }

    /// The catalog's applications ordered by name: each application recorded
    /// appears once.
    pub fn into_sorted(self) -> (r: Vec<AppInfo>)
        ensures
            spec_sorted_by_name(r@),
            r@.len() == self@.dom().len(),
            forall|k: Seq<char>| #[trigger] self@.dom().contains(k) ==> r@.contains(self@[k]),
            forall|i: int| 0 <= i < r@.len() ==> spec_is_value_of(self@, #[trigger] r@[i]),
    {
        let ghost m = self@;
        let mut entries = self.by_id.into_entries();
        let ghost all = entries@;
        let mut apps: Vec<AppInfo> = Vec::new();
        while entries.len() > 0
            invariant
                spec_keys_unique(all),
                spec_entries_map(all) == m,
                apps@ + entries@.map_values(|e: (String, AppInfo)| e.1) == all.map_values(|e: (String, AppInfo)| e.1),
            decreases entries@.len(),
        {
            let ghost before_apps = apps@;
            let ghost before = entries@;
            let e = entries.remove(0);
            apps.push(e.1);
            assert(entries@ == before.remove(0));
            assert(apps@ + entries@.map_values(|e: (String, AppInfo)| e.1) =~= before_apps + before.map_values(|e: (String, AppInfo)| e.1));
        }
        assert(apps@ =~= all.map_values(|e: (String, AppInfo)| e.1));
        proof {
            lemma_unique_len(all);
            assert forall|k: Seq<char>| #[trigger] m.dom().contains(k) implies apps@.contains(m[k]) by {
                lemma_entries_dom(all, k);
                let j = choose|j: int| 0 <= j < all.len() && (#[trigger] all[j]).0@ == k;
                lemma_entry_value(all, j);
                assert(apps@[j] == all[j].1);
            }
        }
        let r = sort_by_name(apps);
        proof {
            broadcast use vstd::seq_lib::group_to_multiset_ensures;
            assert(r@.len() == r@.to_multiset().len());
            assert(apps@.len() == apps@.to_multiset().len());
            assert(apps@.len() == all.len());
            assert forall|k: Seq<char>| #[trigger] m.dom().contains(k) implies r@.contains(m[k]) by {
                assert(apps@.contains(m[k]));
                assert(apps@.to_multiset().count(m[k]) > 0);
            }
            assert forall|i: int| 0 <= i < r@.len() implies spec_is_value_of(m, #[trigger] r@[i]) by {
                assert(r@.contains(r@[i]));
                assert(r@.to_multiset().count(r@[i]) > 0);
                assert(apps@.to_multiset().count(r@[i]) > 0);
                assert(apps@.contains(r@[i]));
                let j = choose|j: int| 0 <= j < apps@.len() && apps@[j] == r@[i];
                lemma_entry_value(all, j);
                assert(apps@[j] == all[j].1);
                assert(m.dom().contains(all[j].0@) && r@[i] == m[all[j].0@]);
            }
        }
        r
    }
}

// ---------------------------------------------------------------------------
// Where entries are looked for, how a query meets an application, and what a
// launch runs.
// ---------------------------------------------------------------------------

pub open spec fn spec_or_empty(o: Option<Seq<char>>) -> Seq<char> {
    match o {
        Some(h) => h,
        None => Seq::empty(),
    }
}

/// How many usage-ranked applications an empty query shows when the caller
/// gives no limit.
pub const DEFAULT_EMPTY_QUERY_LIMIT: usize = 12;

/// The data directories searched, in order: `XDG_DATA_HOME` (else
/// `$HOME/.local/share`), then each `:`-separated piece of `XDG_DATA_DIRS`
/// (else `/usr/local/share:/usr/share`).
pub open spec fn spec_data_dirs(xdg_data_home: Option<Seq<char>>, home: Option<Seq<char>>, xdg_data_dirs: Option<Seq<char>>) -> Seq<Seq<char>> {
    let data_home = match xdg_data_home {
        Some(h) => h,
        None => spec_or_empty(home) + "/.local/share"@,
    };
    let dirs = match xdg_data_dirs {
        Some(d) => d,
        None => "/usr/local/share:/usr/share"@,
    };
    seq![data_home] + spec_split(dirs, ':')
}

/// The data directories searched for `applications/` folders.
pub fn data_dirs(xdg_data_home: Option<&str>, home: Option<&str>, xdg_data_dirs: Option<&str>) -> (r: Vec<String>)
    ensures
        string_views(r@) == spec_data_dirs(
            match xdg_data_home { Some(h) => Some(h@), None => None },
            match home { Some(h) => Some(h@), None => None },
            match xdg_data_dirs { Some(d) => Some(d@), None => None },
        ),
{
    let data_home = match xdg_data_home {
        Some(h) => owned(h),
        None => match home {
            Some(h) => concat(h, "/.local/share"),
            None => owned("/.local/share"),
        },
    };
    proof {
        reveal_strlit("/.local/share");
        assert(Seq::<char>::empty() + "/.local/share"@ =~= "/.local/share"@);
    }
    let pieces = match xdg_data_dirs {
        Some(d) => split_char(d, ':'),
        None => split_char("/usr/local/share:/usr/share", ':'),
    };
    let ghost head = data_home@;
    let mut out: Vec<String> = Vec::new();
    out.push(data_home);
    let mut i: usize = 0;
    assert(string_views(out@) =~= seq![head] + string_views(pieces@).take(0));
    while i < pieces.len()
        invariant
            i <= pieces@.len(),
            string_views(out@) == seq![head] + string_views(pieces@).take(i as int),
        decreases pieces@.len() - i,
    {
        let ghost before = string_views(out@);
        out.push(pieces[i].clone());
        assert(string_views(out@) =~= before.push(pieces@[i as int]@));
        assert(string_views(pieces@).take(i + 1) =~= string_views(pieces@).take(i as int).push(pieces@[i as int]@));
        assert(string_views(out@) =~= seq![head] + string_views(pieces@).take(i + 1));
        i += 1;
    }
    assert(string_views(pieces@).take(pieces@.len() as int) =~= string_views(pieces@));
    out
}

/// Which of an application's searchable texts contain the lower-cased
/// query: its name, its generic name, any keyword.
pub struct AppHits {
    pub name: bool,
    pub generic_name: bool,
    pub keyword: bool,
}

pub open spec fn spec_app_hits(app: AppInfo, ql: Seq<char>) -> (bool, bool, bool) {
    (
        spec_contains(app.name_lower@, ql),
        match app.generic_name_lower {
            Some(g) => spec_contains(g@, ql),
            None => false,
        },
        exists|i: int| 0 <= i < app.keywords_lower@.len() && spec_contains(#[trigger] app.keywords_lower@[i]@, ql),
    )
}

/// Where the lower-cased query `ql` occurs in `app`.
pub fn app_hits(app: &AppInfo, ql: &str) -> (r: AppHits)
    ensures
        (r.name, r.generic_name, r.keyword) == spec_app_hits(*app, ql@),
{
    let name = contains(&chars_vec(app.name_lower.as_str()), ql);
    let generic_name = match &app.generic_name_lower {
        Some(g) => contains(&chars_vec(g.as_str()), ql),
        None => false,
    };
    let mut keyword = false;
    let mut i: usize = 0;
    while i < app.keywords_lower.len()
        invariant
            i <= app.keywords_lower@.len(),
            keyword == exists|j: int| 0 <= j < i && spec_contains(#[trigger] app.keywords_lower@[j]@, ql@),
        decreases app.keywords_lower@.len() - i,
    {
        if contains(&chars_vec(app.keywords_lower[i].as_str()), ql) {
            keyword = true;
        }
        i += 1;
    }
    AppHits { name, generic_name, keyword }
}

/// The last position of an application with id `id`.
pub open spec fn spec_last_with_id(apps: Seq<AppInfo>, id: Seq<char>) -> Option<int>
    decreases apps.len(),
{
    if apps.len() == 0 {
        None
    } else if apps.last().id@ == id {
        Some(apps.len() - 1)
    } else {
        spec_last_with_id(apps.drop_last(), id)
    }
}

/// The positions shown for an empty query: the applications of the first
/// `limit` ranked ids, in rank order, ids without an application skipped.
pub open spec fn spec_default_positions(apps: Seq<AppInfo>, ranked: Seq<Seq<char>>) -> Seq<int>
    decreases ranked.len(),
{
    if ranked.len() == 0 {
        Seq::empty()
    } else {
        let rest = spec_default_positions(apps, ranked.drop_last());
        match spec_last_with_id(apps, ranked.last()) {
            Some(p) => rest.push(p),
            None => rest,
        }
    }
}

fn last_with_id(apps: &Vec<AppInfo>, id: &str) -> (r: Option<usize>)
    ensures
        match r {
            Some(q) => spec_last_with_id(apps@, id@) == Some(q as int),
            None => spec_last_with_id(apps@, id@) is None,
        },
{
    let mut i: usize = apps.len();
    assert(apps@.take(i as int) =~= apps@);
    while i > 0
        invariant
            i <= apps@.len(),
            spec_last_with_id(apps@, id@) == spec_last_with_id(apps@.take(i as int), id@),
        decreases i,
    {
        assert(apps@.take(i as int).drop_last() =~= apps@.take(i - 1));
        assert(apps@.take(i as int).last() == apps@[i - 1]);
        if str_eq(apps[i - 1].id.as_str(), id) {
            return Some(i - 1);
        }
        i -= 1;
    }
    None
}

/// The applications offered for an empty query, from the ids ranked by
/// usage: at most `limit` ranked ids are taken.
pub fn default_positions(apps: &Vec<AppInfo>, ranked: &Vec<String>, limit: usize) -> (r: Vec<usize>)
    ensures
        r@.map_values(|p: usize| p as int) == spec_default_positions(
            apps@,
            string_views(ranked@).take(if ranked@.len() <= limit { ranked@.len() as int } else { limit as int }),
        ),
{
    let n = if ranked.len() <= limit { ranked.len() } else { limit };
    let mut out: Vec<usize> = Vec::new();
    let mut i: usize = 0;
    assert(out@.map_values(|p: usize| p as int) =~= Seq::<int>::empty());
    while i < n
        invariant
            i <= n <= ranked@.len(),
            out@.map_values(|p: usize| p as int) == spec_default_positions(apps@, string_views(ranked@).take(i as int)),
        decreases n - i,
    {
        assert(string_views(ranked@).take(i + 1).drop_last() =~= string_views(ranked@).take(i as int));
        assert(string_views(ranked@).take(i + 1).last() == ranked@[i as int]@);
        let ghost before = out@.map_values(|p: usize| p as int);
        match last_with_id(apps, ranked[i].as_str()) {
            Some(p) => {
                out.push(p);
                assert(out@.map_values(|p: usize| p as int) =~= before.push(p as int));
            },
            None => {},
        }
        i += 1;
    }
    out
}

/// The first position of an application with id `id`.
pub open spec fn spec_first_with_id(apps: Seq<AppInfo>, id: Seq<char>) -> Option<int> {
    if exists|i: int| 0 <= i < apps.len() && apps[i].id@ == id {
        Some(choose|i: int| 0 <= i < apps.len() && apps[i].id@ == id && forall|j: int| 0 <= j < i ==> apps[j].id@ != id)
    } else {
        None
    }
}

/// What launching `desktop_id` runs and reports: the first application with
/// that id, its `Exec=` value tokenized, and `Launched <name>`; an unknown id,
/// or one whose command is empty, is refused as not found.
pub fn launch_plan(apps: &Vec<AppInfo>, desktop_id: &str) -> (r: Result<(Vec<String>, String), DomainError>)
    ensures
        match r {
            Ok((argv, message)) => exists|i: int| 0 <= i < apps@.len() && apps@[i].id@ == desktop_id@
                && (forall|j: int| 0 <= j < i ==> apps@[j].id@ != desktop_id@)
                && string_views(argv@) == spec_tokenize_exec(apps@[i].exec_line@)
                && argv@.len() > 0
                && message@ == "Launched "@ + apps@[i].name@,
            Err(e) => e == DomainError::Unsupported(e->Unsupported_0)
                && e->Unsupported_0@ == "app not found: "@ + desktop_id@
                && forall|i: int| 0 <= i < apps@.len() && apps@[i].id@ == desktop_id@
                    && (forall|j: int| 0 <= j < i ==> apps@[j].id@ != desktop_id@)
                    ==> spec_tokenize_exec(apps@[i].exec_line@).len() == 0,
        },
{
    let mut i: usize = 0;
    while i < apps.len()
        invariant
            i <= apps@.len(),
            forall|j: int| 0 <= j < i ==> apps@[j].id@ != desktop_id@,
        decreases apps@.len() - i,
    {
        if str_eq(apps[i].id.as_str(), desktop_id) {
            let argv = tokenize_exec(apps[i].exec_line.as_str());
            if argv.len() > 0 {
                return Ok((argv, concat("Launched ", apps[i].name.as_str())));
            }
            proof {
                assert forall|k: int| 0 <= k < apps@.len() && apps@[k].id@ == desktop_id@
                    && (forall|j: int| 0 <= j < k ==> apps@[j].id@ != desktop_id@)
                    implies spec_tokenize_exec(apps@[k].exec_line@).len() == 0 by {
                    if k < i {
                    } else if k > i {
                        assert(apps@[i as int].id@ == desktop_id@);
                    }
                }
            }
            return Err(DomainError::Unsupported(concat("app not found: ", desktop_id)));
        }
        i += 1;
    }
    Err(DomainError::Unsupported(concat("app not found: ", desktop_id)))
}

// ---------------------------------------------------------------------------
// Decoding `.desktop` files.
// ---------------------------------------------------------------------------

/// What a decoded desktop entry gives: its app id (the file stem) and its
/// `Name`, `GenericName`, `Keywords`, `Exec` (as `exec_line`), `Icon` and
/// `StartupWMClass` values (unlocalized).
#[derive(Debug)]
pub struct DesktopEntryFields {
    pub appid: String,
    pub name: Option<String>,
    pub generic_name: Option<String>,
    pub keywords: Option<String>,
    pub exec_line: Option<String>,
    pub icon: Option<String>,
    pub startup_wm_class: Option<String>,
}

pub open spec fn spec_entry_view(f: DesktopEntryFields) -> (
    Seq<char>,
    Option<Seq<char>>,
    Option<Seq<char>>,
    Option<Seq<char>>,
    Option<Seq<char>>,
    Option<Seq<char>>,
    Option<Seq<char>>,
) {
    (f.appid@, opt_view(f.name), opt_view(f.generic_name), opt_view(f.keywords), opt_view(f.exec_line), opt_view(f.icon), opt_view(f.startup_wm_class))
}

/// What `DesktopEntry::decode` of `freedesktop_desktop_entry` reads from a
/// file at `path` holding `content`: `None` when the path has no file stem.
pub uninterp spec fn spec_decoded_desktop_entry(path: Seq<char>, content: Seq<char>) -> Option<
    (
        Seq<char>,
        Option<Seq<char>>,
        Option<Seq<char>>,
        Option<Seq<char>>,
        Option<Seq<char>>,
        Option<Seq<char>>,
        Option<Seq<char>>,
    ),
>;

/// A line the decoder cannot take: once trimmed, it starts with `=` (an
/// empty key, on which the decoder indexes out of bounds).
pub open spec fn spec_unreadable_desktop_line(l: Seq<char>) -> bool {
    spec_trim(l).len() > 0 && spec_trim(l)[0] == '='
}

/// Every line of `content` is one the decoder takes.
pub open spec fn spec_desktop_decodable(content: Seq<char>) -> bool {
    forall|i: int| 0 <= i < spec_lines(content).len() ==> !spec_unreadable_desktop_line(#[trigger] spec_lines(content)[i])
}

/// The file names a gettext domain (`X-Ubuntu-Gettext-Domain=`), through
/// which the decoder translates names with the installed catalogs.
pub open spec fn spec_names_gettext_domain(content: Seq<char>) -> bool {
    exists|i: int| 0 <= i < spec_lines(content).len() && spec_starts_with(
        spec_trim(#[trigger] spec_lines(content)[i]),
        "X-Ubuntu-Gettext-Domain="@,
    )
}

/// `DesktopEntry::decode(Path::new(path), content)` and the entry's
/// `id()`, `name(None)`, `generic_name(None)`, `keywords()`, `exec()`,
/// `icon()` and `startup_wm_class()`. Without a gettext domain in the file the
/// result depends on the path and content alone; with one, the translated
/// names depend on the machine's catalogs and nothing is stated.
#[verifier::external_body]
fn decode_desktop_entry(path: &str, content: &str) -> (r: Option<DesktopEntryFields>)
    requires
        spec_desktop_decodable(content@),
    ensures
        !spec_names_gettext_domain(content@) ==> match r {
            Some(f) => spec_decoded_desktop_entry(path@, content@) == Some(spec_entry_view(f)),
            None => spec_decoded_desktop_entry(path@, content@) is None,
        },
{
    let de = freedesktop_desktop_entry::DesktopEntry::decode(std::path::Path::new(path), content).ok()?;
    Some(DesktopEntryFields {
        appid: de.id().to_string(),
        name: de.name(None).map(|s| s.to_string()),
        generic_name: de.generic_name(None).map(|s| s.to_string()),
        keywords: de.keywords().map(|s| s.to_string()),
        exec_line: de.exec().map(|s| s.to_string()),
        icon: de.icon().map(|s| s.to_string()),
        startup_wm_class: de.startup_wm_class().map(|s| s.to_string()),
    })
}

/// Whether every line of `content` is one the decoder takes.
pub fn desktop_decodable(content: &str) -> (r: bool)
    ensures
        r == spec_desktop_decodable(content@),
{
    let v = chars_vec(content);
    let ls = lines(&v);
    let mut i: usize = 0;
    while i < ls.len()
        invariant
            i <= ls@.len(),
            views(ls@) == spec_lines(content@),
            forall|j: int| 0 <= j < i ==> !spec_unreadable_desktop_line(#[trigger] spec_lines(content@)[j]),
        decreases ls@.len() - i,
    {
        let t = trim(&ls[i]);
        assert(views(ls@)[i as int] == ls@[i as int]@);
        if t.len() > 0 && t[0] == '=' {
            assert(spec_unreadable_desktop_line(spec_lines(content@)[i as int]));
            return false;
        }
        i += 1;
    }
    true
}

/// Decode a desktop entry file (which the caller found to be decodable).
pub fn read_desktop_entry(path: &str, content: &str) -> (r: Option<DesktopEntryFields>)
    requires
        spec_desktop_decodable(content@),
    ensures
        !spec_names_gettext_domain(content@) ==> match r {
            Some(f) => spec_decoded_desktop_entry(path@, content@) == Some(spec_entry_view(f)),
            None => spec_decoded_desktop_entry(path@, content@) is None,
        },
{
    decode_desktop_entry(path, content)
}

/// The application a `.desktop` file at `path` describes; `None` when the
/// path has no file stem.
pub fn app_from_desktop_file(path: &str, content: &str) -> (r: Option<AppInfo>)
    requires
        spec_desktop_decodable(content@),
    ensures
        !spec_names_gettext_domain(content@) ==> match spec_decoded_desktop_entry(path@, content@) {
            None => r is None,
            Some((appid, name, generic, keywords, exec, icon, _)) => r matches Some(app)
                && app.id@ == appid
                && app.name@ == (match name { Some(n) => n, None => "Unknown"@ })
                && opt_view(app.generic_name) == generic
                && string_views(app.keywords_lower@) == (match keywords {
                    Some(k) => spec_split_keywords(k),
                    None => Seq::empty(),
                }).map_values(|s: Seq<char>| spec_to_lowercase(s))
                && app.exec_line@ == (match exec { Some(e) => e, None => Seq::empty() })
                && opt_view(app.icon) == Some(match icon { Some(i) => i, None => appid }),
        },
{
    let f = match decode_desktop_entry(path, content) {
        Some(f) => f,
        None => return None,
    };
    let keywords = match &f.keywords {
        Some(k) => Some(k.as_str()),
        None => None,
    };
    Some(app_from_entry(f.appid.as_str(), f.name, f.generic_name, keywords, f.exec_line, f.icon))
}

} // verus!
