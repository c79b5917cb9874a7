//! Parsers of `pactl` text output and of `pactl subscribe` event lines, and
//! the argument vectors of the commands that act on the default devices.
use vstd::prelude::*;

use crate::audio::{spec_percent_arg, AudioCommand};
use crate::text::{
    chars_vec, contains, decimal, find_first, lines, owned, parse_unsigned, slice_vec,
    spec_contains, spec_decimal, spec_occurs_at, spec_find, spec_lines, spec_parse_unsigned, spec_starts_with,
    spec_trim, spec_trim_start, spec_words, split_whitespace, starts_with, string_of,
    string_views, trim_bounds, trim_start_index, vec_is, views,
};

verus! {

/// A word `NN%` whose number fits in a `u8`.
pub open spec fn spec_percent_word(w: Seq<char>) -> Option<u8> {
    if w.len() > 0 && w.last() == '%' {
        match spec_parse_unsigned(w.drop_last(), 255) {
            Some(n) => Some(n as u8),
            None => None,
        }
    } else {
        None
    }
}

/// The first percent word among `ws`.
pub open spec fn spec_first_percent(ws: Seq<Seq<char>>) -> Option<u8>
    decreases ws.len(),
{
    if ws.len() == 0 {
        None
    } else {
        match spec_percent_word(ws[0]) {
            Some(n) => Some(n),
            None => spec_first_percent(ws.drop_first()),
        }
    }
}

/// The first percent word of the first `Volume:` line that has one.
pub open spec fn spec_volume_in_lines(ls: Seq<Seq<char>>) -> Option<u8>
    decreases ls.len(),
{
    if ls.len() == 0 {
        None
    } else if spec_contains(ls[0], "Volume:"@) && spec_first_percent(spec_words(ls[0])) is Some {
        spec_first_percent(spec_words(ls[0]))
    } else {
        spec_volume_in_lines(ls.drop_first())
    }
}

/// The volume percent `pactl` prints, e.g. 65 in
/// `Volume: front-left: 38863 / 65% / -7.34 dB`.
pub open spec fn spec_parse_pactl_volume_percent(s: Seq<char>) -> Option<u8> {
    spec_volume_in_lines(spec_lines(s))
}

/// The mute flag of the first line that starts with `Mute:` (after
/// indentation): `yes` or `no`, anything else is unknown.
pub open spec fn spec_mute_in_lines(ls: Seq<Seq<char>>) -> Option<bool>
    decreases ls.len(),
{
    if ls.len() == 0 {
        None
    } else if spec_starts_with(spec_trim_start(ls[0]), "Mute:"@) {
        let rest = spec_trim(spec_trim_start(ls[0]).skip(5));
        if rest == "yes"@ {
            Some(true)
        } else if rest == "no"@ {
            Some(false)
        } else {
            None
        }
    } else {
        spec_mute_in_lines(ls.drop_first())
    }
}

pub open spec fn spec_parse_pactl_mute(s: Seq<char>) -> Option<bool> {
    spec_mute_in_lines(spec_lines(s))
}

fn percent_word(w: &Vec<char>) -> (r: Option<u8>)
    ensures
        r == spec_percent_word(w@),
{
    let n = w.len();
    if n > 0 && w[n - 1] == '%' {
        assert(w@.subrange(0, n - 1) == w@.drop_last());
        match parse_unsigned(w, 0, n - 1, 255) {
            Some(v) => Some(v as u8),
            None => None,
        }
    } else {
        None
    }
}

fn first_percent(ws: &Vec<Vec<char>>) -> (r: Option<u8>)
    ensures
        r == spec_first_percent(views(ws@)),
{
    let mut i: usize = 0;
    assert(views(ws@).skip(0) == views(ws@));
    while i < ws.len()
        invariant
            i <= ws.len(),
            spec_first_percent(views(ws@)) == spec_first_percent(views(ws@).skip(i as int)),
        decreases ws.len() - i,
    {
        assert(views(ws@).skip(i as int).drop_first() == views(ws@).skip(i + 1));
        assert(views(ws@).skip(i as int)[0] == ws@[i as int]@);
        let p = percent_word(&ws[i]);
        if p.is_some() {
            return p;
        }
        i += 1;
    }
    None
}

/// Volume percent of a buffer of `pactl` output.
pub fn volume_percent_of(v: &Vec<char>) -> (r: Option<u8>)
    ensures
        r == spec_parse_pactl_volume_percent(v@),
{
    let ls = lines(v);
    let mut i: usize = 0;
    assert(views(ls@).skip(0) == views(ls@));
    while i < ls.len()
        invariant
            i <= ls.len(),
            views(ls@) == spec_lines(v@),
            spec_volume_in_lines(views(ls@)) == spec_volume_in_lines(views(ls@).skip(i as int)),
        decreases ls.len() - i,
    {
        assert(views(ls@).skip(i as int).drop_first() == views(ls@).skip(i + 1));
        assert(views(ls@).skip(i as int)[0] == ls@[i as int]@);
        if contains(&ls[i], "Volume:") {
            let ws = split_whitespace(&ls[i]);
            let p = first_percent(&ws);
            if p.is_some() {
                return p;
            }
        }
        i += 1;
    }
    None
}

/// Parse `pactl` volume output to the first percentage on a `Volume:` line.
pub fn parse_pactl_volume_percent(stdout: &str) -> (r: Option<u8>)
    ensures
        r == spec_parse_pactl_volume_percent(stdout@),
{
    let v = chars_vec(stdout);
    volume_percent_of(&v)
}

/// The trimmed value after `prefix` on line `l` when the indented line starts
/// with it.
fn prefixed_value(l: &Vec<char>, prefix: &str) -> (r: Option<Vec<char>>)
    ensures
        match r {
            Some(x) => spec_starts_with(spec_trim_start(l@), prefix@) && x@ == spec_trim(
                spec_trim_start(l@).skip(prefix@.len() as int),
            ),
            None => !spec_starts_with(spec_trim_start(l@), prefix@),
        },
{
    let a = trim_start_index(l, 0, l.len());
    assert(l@.subrange(0, l.len() as int) == l@);
    let t = slice_vec(l, a, l.len());
    if starts_with(&t, prefix) {
        let p = chars_vec(prefix);
        let (x, y) = trim_bounds(&t, p.len(), t.len());
        assert(t@.subrange(p.len() as int, t.len() as int) == t@.skip(p.len() as int));
        Some(slice_vec(&t, x, y))
    } else {
        None
    }
}

/// Mute state of a buffer of `pactl` output.
pub fn mute_of(v: &Vec<char>) -> (r: Option<bool>)
    ensures
        r == spec_parse_pactl_mute(v@),
{
    let ls = lines(v);
    let mut i: usize = 0;
    assert(views(ls@).skip(0) == views(ls@));
    while i < ls.len()
        invariant
            i <= ls.len(),
            views(ls@) == spec_lines(v@),
            spec_mute_in_lines(views(ls@)) == spec_mute_in_lines(views(ls@).skip(i as int)),
        decreases ls.len() - i,
    {
        assert(views(ls@).skip(i as int).drop_first() == views(ls@).skip(i + 1));
        assert(views(ls@).skip(i as int)[0] == ls@[i as int]@);
        match prefixed_value(&ls[i], "Mute:") {
            Some(rest) => {
                proof {
                    reveal_strlit("Mute:");
                }
                if vec_is(&rest, "yes") {
                    return Some(true);
                } else if vec_is(&rest, "no") {
                    return Some(false);
                } else {
                    return None;
                }
            },
            None => {},
        }
        i += 1;
    }
    None
}

/// Parse `pactl` mute output (`Mute: yes` / `Mute: no`).
pub fn parse_pactl_mute(stdout: &str) -> (r: Option<bool>)
    ensures
        r == spec_parse_pactl_mute(stdout@),
{
    let v = chars_vec(stdout);
    mute_of(&v)
}

// ---------------------------------------------------------------------------
// Long-form `pactl list sinks` blocks.
// ---------------------------------------------------------------------------

/// Blocks completed so far and the pending block while splitting on `"\n\n"`.
pub open spec fn spec_blocks_state(s: Seq<char>) -> (Seq<Seq<char>>, Seq<char>)
    decreases s.len(),
{
    if s.len() == 0 {
        (Seq::empty(), Seq::empty())
    } else {
        let (done, cur) = spec_blocks_state(s.drop_last());
        if s.last() == '\n' && cur.len() > 0 && cur.last() == '\n' {
            (done.push(cur.drop_last()), Seq::empty())
        } else {
            (done, cur.push(s.last()))
        }
    }
}

/// `str::split("\n\n")`: the pieces between non-overlapping blank-line
/// separators, scanning left to right; the last piece is always present.
pub open spec fn spec_blocks(s: Seq<char>) -> Seq<Seq<char>> {
    let (done, cur) = spec_blocks_state(s);
    done.push(cur)
}

pub fn split_blocks(v: &Vec<char>) -> (r: Vec<Vec<char>>)
    ensures
        views(r@) == spec_blocks(v@),
{
    let mut done: Vec<Vec<char>> = Vec::new();
    let mut cur: Vec<char> = Vec::new();
    let mut i: usize = 0;
    while i < v.len()
        invariant
            i <= v.len(),
            (views(done@), cur@) == spec_blocks_state(v@.take(i as int)),
        decreases v.len() - i,
    {
        let c = v[i];
        assert(v@.take(i + 1).drop_last() == v@.take(i as int));
        let l = cur.len();
        if c == '\n' && l > 0 && cur[l - 1] == '\n' {
            cur.pop();
            done.push(cur);
            cur = Vec::new();
        } else {
            cur.push(c);
        }
        i += 1;
        assert(views(done@) == spec_blocks_state(v@.take(i as int)).0);
    }
    assert(v@.take(v.len() as int) == v@);
    done.push(cur);
    assert(views(done@) == spec_blocks(v@));
    done
}

/// The trimmed value of the first line whose indented text starts with `prefix`.
pub open spec fn spec_prefixed_in_lines(ls: Seq<Seq<char>>, prefix: Seq<char>) -> Option<
    Seq<char>,
>
    decreases ls.len(),
{
    if ls.len() == 0 {
        None
    } else if spec_starts_with(spec_trim_start(ls[0]), prefix) {
        Some(spec_trim(spec_trim_start(ls[0]).skip(prefix.len() as int)))
    } else {
        spec_prefixed_in_lines(ls.drop_first(), prefix)
    }
}

fn prefixed_in_lines(ls: &Vec<Vec<char>>, prefix: &str) -> (r: Option<Vec<char>>)
    ensures
        match spec_prefixed_in_lines(views(ls@), prefix@) {
            Some(x) => r is Some && r->0@ == x,
            None => r is None,
        },
{
    let mut i: usize = 0;
    assert(views(ls@).skip(0) == views(ls@));
    while i < ls.len()
        invariant
            i <= ls.len(),
            spec_prefixed_in_lines(views(ls@), prefix@) == spec_prefixed_in_lines(
                views(ls@).skip(i as int),
                prefix@,
            ),
        decreases ls.len() - i,
    {
        assert(views(ls@).skip(i as int).drop_first() == views(ls@).skip(i + 1));
        assert(views(ls@).skip(i as int)[0] == ls@[i as int]@);
        let r = prefixed_value(&ls[i], prefix);
        if r.is_some() {
            return r;
        }
        i += 1;
    }
    None
}

/// Description, volume and mute of the block of sink `name` among `blocks`.
pub open spec fn spec_sink_in_blocks(blocks: Seq<Seq<char>>, name: Seq<char>) -> Option<
    (Seq<char>, u8, bool),
>
    decreases blocks.len(),
{
    if blocks.len() == 0 {
        None
    } else if spec_prefixed_in_lines(spec_lines(blocks[0]), "Name:"@) == Some(name) {
        match spec_parse_pactl_volume_percent(blocks[0]) {
            None => None,
            Some(volume) => Some(
                (
                    match spec_prefixed_in_lines(spec_lines(blocks[0]), "Description:"@) {
                        Some(d) => d,
                        None => Seq::empty(),
                    },
                    volume,
                    match spec_parse_pactl_mute(blocks[0]) {
                        Some(m) => m,
                        None => false,
                    },
                ),
            ),
        }
    } else {
        spec_sink_in_blocks(blocks.drop_first(), name)
    }
}

/// `pactl list sinks` parsed for the block whose `Name:` is `sink_name`: its
/// description (empty when absent), volume percent and mute flag (false when
/// absent). `None` when no block has that name, or when the first block that
/// has it carries no volume.
pub open spec fn spec_parse_pactl_sink_block(s: Seq<char>, name: Seq<char>) -> Option<
    (Seq<char>, u8, bool),
> {
    spec_sink_in_blocks(spec_blocks(s), name)
}

pub fn parse_pactl_sink_block(stdout: &str, sink_name: &str) -> (r: Option<(String, u8, bool)>)
    ensures
        match spec_parse_pactl_sink_block(stdout@, sink_name@) {
            Some((d, v, m)) => r matches Some(t) && t.0@ == d && t.1 == v && t.2 == m,
            None => r is None,
        },
{
    let all = chars_vec(stdout);
    let name = chars_vec(sink_name);
    let blocks = split_blocks(&all);
    let mut i: usize = 0;
    assert(views(blocks@).skip(0) == views(blocks@));
    while i < blocks.len()
        invariant
            i <= blocks.len(),
            name@ == sink_name@,
            all@ == stdout@,
            views(blocks@) == spec_blocks(all@),
            spec_sink_in_blocks(views(blocks@), name@) == spec_sink_in_blocks(
                views(blocks@).skip(i as int),
                name@,
            ),
        decreases blocks.len() - i,
    {
        assert(views(blocks@).skip(i as int).drop_first() == views(blocks@).skip(i + 1));
        assert(views(blocks@).skip(i as int)[0] == blocks@[i as int]@);
        let ls = lines(&blocks[i]);
        let found = prefixed_in_lines(&ls, "Name:");
        let is_match = match &found {
            Some(n) => {
                assert(n@.subrange(0, n@.len() as int) == n@);
                crate::text::seq_eq(n, 0, n.len(), &name)
            },
            None => false,
        };
        if is_match {
            let description = match prefixed_in_lines(&ls, "Description:") {
                Some(d) => d,
                None => Vec::new(),
            };
            let volume = match volume_percent_of(&blocks[i]) {
                Some(v) => v,
                None => {
                    return None;
                },
            };
            let muted = match mute_of(&blocks[i]) {
                Some(m) => m,
                None => false,
            };
            return Some((string_of(&description), volume, muted));
        }
        i += 1;
    }
    None
}

// ---------------------------------------------------------------------------
// `pactl subscribe` event lines.
// ---------------------------------------------------------------------------

/// The facility word of an event line `Event '<kind>' on <facility> #<id>`:
/// the first word of the second ` on `-separated piece, empty when that piece
/// has no word; `None` when the line has no ` on `.
pub open spec fn spec_event_facility(l: Seq<char>) -> Option<Seq<char>> {
    match spec_find(l, " on "@) {
        None => None,
        Some(i) => {
            let rest = l.skip(i + 4);
            let piece = match spec_find(rest, " on "@) {
                Some(j) => rest.take(j),
                None => rest,
            };
            let ws = spec_words(piece);
            Some(
                if ws.len() > 0 {
                    ws[0]
                } else {
                    Seq::empty()
                },
            )
        },
    }
}

/// Whether a `pactl subscribe` line should trigger a refresh: device, server
/// and card events always do; stream events only while a session is open.
pub open spec fn spec_should_refresh(l: Seq<char>, session_active: bool) -> bool {
    match spec_event_facility(l) {
        None => false,
        Some(f) => f == "sink"@ || f == "source"@ || f == "server"@ || f == "card"@ || ((f
            == "sink-input"@ || f == "source-output"@) && session_active),
    }
}

fn event_facility(l: &Vec<char>) -> (r: Option<Vec<char>>)
    ensures
        match spec_event_facility(l@) {
            Some(f) => r is Some && r->0@ == f,
            None => r is None,
        },
{
    proof {
        reveal_strlit(" on ");
    }
    assert(" on "@.len() == 4);
    let i = match find_first(l, " on ") {
        Some(i) => i,
        None => {
            return None;
        },
    };
    assert(spec_occurs_at(l@, " on "@, i as int));
    assert(i + 4 <= l.len());
    let rest = slice_vec(l, i + 4, l.len());
    assert(rest@ == l@.skip(i + 4));
    let piece = match find_first(&rest, " on ") {
        Some(j) => {
            let p = slice_vec(&rest, 0, j);
            assert(p@ == rest@.take(j as int));
            p
        },
        None => {
            assert(rest@.subrange(0, rest@.len() as int) == rest@);
            rest
        },
    };
    let ws = split_whitespace(&piece);
    assert(piece@ == (match spec_find(rest@, " on "@) {
        Some(j) => rest@.take(j),
        None => rest@,
    }));
    if ws.len() > 0 {
        assert(views(ws@)[0] == ws@[0]@);
        let w = &ws[0];
        assert(w@.subrange(0, w@.len() as int) == w@);
        Some(slice_vec(w, 0, w.len()))
    } else {
        Some(Vec::new())
    }
}

pub fn should_refresh_for_pactl_line(line: &str, session_active: bool) -> (r: bool)
    ensures
        r == spec_should_refresh(line@, session_active),
{
    let l = chars_vec(line);
    let f = match event_facility(&l) {
        Some(f) => f,
        None => {
            return false;
        },
    };
    if vec_is(&f, "sink") || vec_is(&f, "source") || vec_is(&f, "server") || vec_is(&f, "card") {
        true
    } else if vec_is(&f, "sink-input") || vec_is(&f, "source-output") {
        session_active
    } else {
        false
    }
}

// ---------------------------------------------------------------------------
// Commands on the default devices.
// ---------------------------------------------------------------------------

/// The argv of the microphone mute toggle, which targets the default source.
pub open spec fn spec_mic_toggle_arguments() -> Seq<Seq<char>> {
    seq!["set-source-mute"@, "@DEFAULT_SOURCE@"@, "toggle"@]
}

/// The argv of a volume/mute command on the default sink `sink`: an absolute
/// volume is `N%`; a relative step is `+N%` or `-N%`, which pactl reads as a
/// change of the current volume. (A negative step is written with its sign
/// so that it lowers the volume; written as a bare `N%` it would set the
/// volume to N% instead of lowering it by N points.)
pub open spec fn spec_default_sink_arguments(c: crate::audio::AudioCommandView, sink: Seq<char>) -> Option<
    Seq<Seq<char>>,
> {
    match c {
        crate::audio::AudioCommandView::SetVolume(p) => Some(
            seq!["set-sink-volume"@, sink, spec_percent_arg(p as nat)],
        ),
        crate::audio::AudioCommandView::ToggleMute => Some(
            seq!["set-sink-mute"@, sink, "toggle"@],
        ),
        crate::audio::AudioCommandView::AdjustVolume(d) => Some(
            seq![
                "set-sink-volume"@,
                sink,
                if d >= 0 {
                    "+"@ + spec_percent_arg(d as nat)
                } else {
                    "-"@ + spec_percent_arg((-d) as nat)
                },
            ],
        ),
        _ => None,
    }
}

/// The argv that toggles the default source's mute flag.
pub fn mic_toggle_arguments() -> (r: Vec<String>)
    ensures
        string_views(r@) == spec_mic_toggle_arguments(),
{
    let mut v = Vec::new();
    v.push(owned("set-source-mute"));
    v.push(owned("@DEFAULT_SOURCE@"));
    v.push(owned("toggle"));
    assert(string_views(v@) =~= spec_mic_toggle_arguments());
    v
}

/// The argv of the commands that act on the default sink `sink`.
pub fn default_sink_arguments(command: &AudioCommand, sink: &str) -> (r: Option<Vec<String>>)
    requires
        !(command@ matches crate::audio::AudioCommandView::AdjustVolume(d) && d == i32::MIN),
    ensures
        match spec_default_sink_arguments(command@, sink@) {
            Some(a) => r is Some && string_views(r->0@) == a,
            None => r is None,
        },
{
    let third: String = match command {
        AudioCommand::SetVolume(p) => {
            let mut d = decimal(*p as u64);
            d.push('%');
            proof { reveal_strlit("%"); }
            assert(d@ == spec_percent_arg(*p as nat));
            string_of(&d)
        },
        AudioCommand::ToggleMute => owned("toggle"),
        AudioCommand::AdjustVolume(delta) => {
            let mut v: Vec<char> = Vec::new();
            let m: u64 = if *delta >= 0 {
                v.push('+');
                *delta as u64
            } else {
                v.push('-');
                (-*delta) as u64
            };
            let d = decimal(m);
            crate::text::extend_chars(&mut v, &d);
            v.push('%');
            proof { reveal_strlit("%"); reveal_strlit("+"); reveal_strlit("-"); }
            assert(v@ == (if *delta >= 0 {
                "+"@ + spec_percent_arg(*delta as nat)
            } else {
                "-"@ + spec_percent_arg((-*delta) as nat)
            }));
            string_of(&v)
        },
        _ => {
            return None;
        },
    };
    let first = match command {
        AudioCommand::ToggleMute => owned("set-sink-mute"),
        _ => owned("set-sink-volume"),
    };
    let mut v = Vec::new();
    v.push(first);
    v.push(owned(sink));
    v.push(third);
    assert(string_views(v@) =~= spec_default_sink_arguments(command@, sink@)->0);
    Some(v)
}

} // verus!
