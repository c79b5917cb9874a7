//! `/proc/stat` and `/proc/meminfo` parsing for the system stats meter.
use vstd::prelude::*;

use crate::text::{
    chars_vec, lines, parse_unsigned, slice_vec, spec_lines, spec_parse_unsigned, spec_starts_with,
    spec_words, split_whitespace, starts_with, views,
};

verus! {

/// A word read as `u64`.
pub open spec fn spec_word_u64(w: Seq<char>) -> Option<u64> {
    match spec_parse_unsigned(w, u64::MAX as nat) {
        Some(n) => Some(n as u64),
        None => None,
    }
}

/// The words that parse as `u64`, in order (`filter_map(parse)`).
pub open spec fn spec_numbers(ws: Seq<Seq<char>>) -> Seq<u64>
    decreases ws.len(),
{
    if ws.len() == 0 {
        Seq::empty()
    } else {
        let rest = spec_numbers(ws.drop_last());
        match spec_word_u64(ws.last()) {
            Some(n) => rest.push(n),
            None => rest,
        }
    }
}

/// The first line that starts with `cpu ` (the aggregate CPU line).
pub open spec fn spec_cpu_line(ls: Seq<Seq<char>>) -> Option<Seq<char>>
    decreases ls.len(),
{
    if ls.len() == 0 {
        None
    } else if spec_starts_with(ls[0], "cpu "@) {
        Some(ls[0])
    } else {
        spec_cpu_line(ls.drop_first())
    }
}

/// The numeric fields after the `cpu` label of the aggregate CPU line.
pub open spec fn spec_cpu_fields(input: Seq<char>) -> Option<Seq<u64>> {
    match spec_cpu_line(spec_lines(input)) {
        Some(l) => Some(
            spec_numbers(
                if spec_words(l).len() > 0 {
                    spec_words(l).skip(1)
                } else {
                    Seq::empty()
                },
            ),
        ),
        None => None,
    }
}

/// busy = user + nice + system + irq + softirq + steal.
pub open spec fn spec_busy(p: Seq<u64>) -> int {
    p[0] + p[1] + p[2] + p[5] + p[6] + p[7]
}

/// total = busy + idle + iowait.
pub open spec fn spec_total(p: Seq<u64>) -> int {
    spec_busy(p) + p[3] + p[4]
}

/// `(busy, total)` jiffies of the aggregate CPU line; `None` without such a
/// line or with fewer than eight numeric fields.
pub open spec fn spec_parse_proc_stat_cpu(input: Seq<char>) -> Option<(u64, u64)> {
    match spec_cpu_fields(input) {
        Some(p) => if p.len() < 8 {
            None
        } else {
            Some((spec_busy(p) as u64, spec_total(p) as u64))
        },
        None => None,
    }
}

/// The counters' sums fit in `u64` (they always do on a real system).
pub open spec fn spec_cpu_sums_fit(input: Seq<char>) -> bool {
    match spec_cpu_fields(input) {
        Some(p) => p.len() >= 8 ==> spec_total(p) <= u64::MAX,
        None => true,
    }
}

fn numbers(ws: &Vec<Vec<char>>, from: usize) -> (r: Vec<u64>)
    requires
        from <= ws.len(),
    ensures
        r@ == spec_numbers(views(ws@).skip(from as int)),
{
    let mut out: Vec<u64> = Vec::new();
    let mut i: usize = from;
    while i < ws.len()
        invariant
            from <= i <= ws.len(),
            out@ == spec_numbers(views(ws@).subrange(from as int, i as int)),
        decreases ws.len() - i,
    {
        assert(views(ws@).subrange(from as int, i + 1).drop_last() == views(ws@).subrange(
            from as int,
            i as int,
        ));
        let w = &ws[i];
        assert(w@.subrange(0, w@.len() as int) == w@);
        match parse_unsigned(w, 0, w.len(), 18446744073709551615u64) {
            Some(n) => out.push(n),
            None => {},
        }
        i += 1;
    }
    assert(views(ws@).subrange(from as int, ws.len() as int) == views(ws@).skip(from as int));
    out
}

/// The numeric fields of the aggregate CPU line of `/proc/stat`, if there is
/// such a line.
fn cpu_fields(input: &str) -> (r: Option<Vec<u64>>)
    ensures
        match spec_cpu_fields(input@) {
            Some(p) => r is Some && r->0@ == p,
            None => r is None,
        },
{
    let v = chars_vec(input);
    let ls = lines(&v);
    let mut i: usize = 0;
    assert(views(ls@).skip(0) == views(ls@));
    while i < ls.len() && !starts_with(&ls[i], "cpu ")
        invariant
            i <= ls.len(),
            spec_cpu_line(views(ls@)) == spec_cpu_line(views(ls@).skip(i as int)),
        decreases ls.len() - i,
    {
        assert(views(ls@).skip(i as int).drop_first() == views(ls@).skip(i + 1));
        assert(views(ls@).skip(i as int)[0] == ls@[i as int]@);
        i += 1;
    }
    if i == ls.len() {
        return None;
    }
    assert(views(ls@).skip(i as int)[0] == ls@[i as int]@);
    let ws = split_whitespace(&ls[i]);
    if ws.len() == 0 {
        return Some(Vec::new());
    }
    Some(numbers(&ws, 1))
}

/// Whether the CPU sums of `/proc/stat` fit in `u64`, so that
/// `parse_proc_stat_cpu` may be called on it.
pub fn proc_stat_fits(input: &str) -> (r: bool)
    ensures
        r == spec_cpu_sums_fit(input@),
{
    match cpu_fields(input) {
        Some(parts) => {
            if parts.len() < 8 {
                true
            } else {
                let busy: u128 = parts[0] as u128 + parts[1] as u128 + parts[2] as u128
                    + parts[5] as u128 + parts[6] as u128 + parts[7] as u128;
                let total: u128 = busy + parts[3] as u128 + parts[4] as u128;
                total <= u64::MAX as u128
            }
        },
        None => true,
    }
}

/// Parse the aggregate CPU line of `/proc/stat` into `(busy, total)`.
pub fn parse_proc_stat_cpu(input: &str) -> (r: Option<(u64, u64)>)
    requires
        spec_cpu_sums_fit(input@),
    ensures
        r == spec_parse_proc_stat_cpu(input@),
{
    let parts = match cpu_fields(input) {
        Some(p) => p,
        None => return None,
    };
    if parts.len() < 8 {
        return None;
    }
    let busy = parts[0] + parts[1] + parts[2] + parts[5] + parts[6] + parts[7];
    let total = busy + parts[3] + parts[4];
    Some((busy, total))
}

/// The first word of `s` read as `u64`.
pub open spec fn spec_first_word_u64(s: Seq<char>) -> Option<u64> {
    let ws = spec_words(s);
    if ws.len() > 0 {
        spec_word_u64(ws[0])
    } else {
        None
    }
}

/// One line's effect on the (total, available) readings.
pub open spec fn spec_mem_step(l: Seq<char>, t: Option<u64>, a: Option<u64>) -> (
    Option<u64>,
    Option<u64>,
) {
    if spec_starts_with(l, "MemTotal:"@) {
        (spec_first_word_u64(l.skip(9)), a)
    } else if spec_starts_with(l, "MemAvailable:"@) {
        (t, spec_first_word_u64(l.skip(13)))
    } else {
        (t, a)
    }
}

/// Scan lines until both readings are present.
pub open spec fn spec_mem_scan(ls: Seq<Seq<char>>, t: Option<u64>, a: Option<u64>) -> (
    Option<u64>,
    Option<u64>,
)
    decreases ls.len(),
{
    if ls.len() == 0 {
        (t, a)
    } else {
        let (t2, a2) = spec_mem_step(ls[0], t, a);
        if t2 is Some && a2 is Some {
            (t2, a2)
        } else {
            spec_mem_scan(ls.drop_first(), t2, a2)
        }
    }
}

/// `(used, total)` memory in bytes from `MemTotal:` and `MemAvailable:`
/// (in kB); used is total minus available, floored at zero.
pub open spec fn spec_parse_proc_meminfo(input: Seq<char>) -> Option<(u64, u64)> {
    match spec_mem_scan(spec_lines(input), None, None) {
        (Some(t), Some(a)) => Some(
            (((if t >= a { t - a } else { 0 }) * 1024) as u64, (t * 1024) as u64),
        ),
        _ => None,
    }
}

/// The readings are small enough to convert to bytes (always true in practice).
pub open spec fn spec_meminfo_fits(input: Seq<char>) -> bool {
    match spec_mem_scan(spec_lines(input), None, None) {
        (Some(t), Some(a)) => t * 1024 <= u64::MAX,
        _ => true,
    }
}

fn first_word_u64(l: &Vec<char>, from: usize) -> (r: Option<u64>)
    requires
        from <= l.len(),
    ensures
        r == spec_first_word_u64(l@.skip(from as int)),
{
    let rest = slice_vec(l, from, l.len());
    assert(rest@ == l@.skip(from as int));
    let ws = split_whitespace(&rest);
    if ws.len() > 0 {
        let w = &ws[0];
        assert(views(ws@)[0] == w@);
        assert(w@.subrange(0, w@.len() as int) == w@);
        parse_unsigned(w, 0, w.len(), 18446744073709551615u64)
    } else {
        None
    }
}

/// The `MemTotal:` and `MemAvailable:` readings of `/proc/meminfo`, in kB.
fn mem_readings(input: &str) -> (r: (Option<u64>, Option<u64>))
    ensures
        r == spec_mem_scan(spec_lines(input@), None, None),
{
    let v = chars_vec(input);
    let ls = lines(&v);
    let mut total: Option<u64> = None;
    let mut avail: Option<u64> = None;
    let mut i: usize = 0;
    assert(views(ls@).skip(0) == views(ls@));
    proof {
        reveal_strlit("MemTotal:");
        reveal_strlit("MemAvailable:");
    }
    while i < ls.len() && !(total.is_some() && avail.is_some())
        invariant
            i <= ls.len(),
            spec_mem_scan(views(ls@), None, None) == (if total is Some && avail is Some {
                (total, avail)
            } else {
                spec_mem_scan(views(ls@).skip(i as int), total, avail)
            }),
        decreases ls.len() - i,
    {
        assert(views(ls@).skip(i as int).drop_first() == views(ls@).skip(i + 1));
        assert(views(ls@).skip(i as int)[0] == ls@[i as int]@);
        proof {
            reveal_strlit("MemTotal:");
            reveal_strlit("MemAvailable:");
        }
        if starts_with(&ls[i], "MemTotal:") {
            total = first_word_u64(&ls[i], 9);
        } else if starts_with(&ls[i], "MemAvailable:") {
            avail = first_word_u64(&ls[i], 13);
        }
        i += 1;
    }
    if i == ls.len() && !(total.is_some() && avail.is_some()) {
        assert(views(ls@).skip(i as int).len() == 0);
    }
    (total, avail)
}

/// Whether the readings of `/proc/meminfo` convert to bytes within `u64`,
/// so that `parse_proc_meminfo` may be called on it.
pub fn meminfo_fits(input: &str) -> (r: bool)
    ensures
        r == spec_meminfo_fits(input@),
{
    match mem_readings(input) {
        (Some(t), Some(_)) => t <= u64::MAX / 1024,
        _ => true,
    }
}

/// Parse `/proc/meminfo` into `(used_bytes, total_bytes)`.
pub fn parse_proc_meminfo(input: &str) -> (r: Option<(u64, u64)>)
    requires
        spec_meminfo_fits(input@),
    ensures
        r == spec_parse_proc_meminfo(input@),
{
    match mem_readings(input) {
        (Some(t), Some(a)) => {
            let used = if t >= a {
                t - a
            } else {
                0
            };
            Some((used * 1024, t * 1024))
        },
        _ => None,
    }
}

/// The busy/total deltas between two samples; the first sample yields zeros.
pub fn cpu_deltas(prev: Option<(u64, u64)>, busy: u64, total: u64) -> (r: (u64, u64))
    ensures
        match prev {
            Some((pb, pt)) => r == ((if busy >= pb { busy - pb } else { 0 }) as u64, (if total
                >= pt { total - pt } else { 0 }) as u64),
            None => r == (0u64, 0u64),
        },
{
    match prev {
        Some((pb, pt)) => (
            if busy >= pb {
                busy - pb
            } else {
                0
            },
            if total >= pt {
                total - pt
            } else {
                0
            },
        ),
        None => (0, 0),
    }
}

/// The busy/total deltas of `cpu_deltas`.
pub open spec fn spec_cpu_deltas(prev: Option<(u64, u64)>, busy: u64, total: u64) -> (u64, u64) {
    match prev {
        Some((pb, pt)) => (
            (if busy >= pb { busy - pb } else { 0 }) as u64,
            (if total >= pt { total - pt } else { 0 }) as u64,
        ),
        None => (0u64, 0u64),
    }
}

/// One reading of the stats meter as it is published: CPU load in whole
/// percent, memory in bytes.
#[derive(Debug, Clone, Copy, PartialEq, Eq, Structural)]
pub struct SystemStats {
    pub cpu_percent: u128,
    pub mem_used_bytes: u64,
    pub mem_total_bytes: u64,
}

/// `100 * busy / total` rounded to the nearest whole number, halves up;
/// zero when no time elapsed.
pub open spec fn spec_rounded_percent(busy_delta: u64, total_delta: u64) -> int {
    if total_delta == 0 {
        0
    } else {
        (200 * busy_delta + total_delta) / (2 * total_delta)
    }
}

/// The reading built from the CPU deltas and the memory figures.
pub open spec fn spec_payload(
    busy_delta: u64,
    total_delta: u64,
    mem_used_bytes: u64,
    mem_total_bytes: u64,
) -> SystemStats {
    SystemStats {
        cpu_percent: spec_rounded_percent(busy_delta, total_delta) as u128,
        mem_used_bytes,
        mem_total_bytes,
    }
}

/// Build the reading from raw `/proc` deltas. The CPU load is rounded to
/// whole percent so that jitter below one percent yields the same reading
/// and the change filter can hold it back.
pub fn build_payload(
    busy_delta: u64,
    total_delta: u64,
    mem_used_bytes: u64,
    mem_total_bytes: u64,
) -> (r: SystemStats)
    ensures
        r == spec_payload(busy_delta, total_delta, mem_used_bytes, mem_total_bytes),
        0 <= spec_rounded_percent(busy_delta, total_delta) <= u128::MAX,
{
    let cpu_percent: u128 = if total_delta > 0 {
        let num: u128 = 200 * (busy_delta as u128) + (total_delta as u128);
        let den: u128 = 2 * (total_delta as u128);
        assert(num / den <= num) by (nonlinear_arith)
            requires
                den >= 2,
                num >= 0,
        ;
        num / den
    } else {
        0
    };
    SystemStats { cpu_percent, mem_used_bytes, mem_total_bytes }
}

/// What the change filter does with a reading: `(published, last)`, where
/// `published` is the reading when it differs from the last one sent and
/// `last` is the last reading sent afterwards.
pub open spec fn spec_change_filter(last: Option<SystemStats>, candidate: SystemStats) -> (
    Option<SystemStats>,
    Option<SystemStats>,
) {
    if last == Some(candidate) {
        (None, last)
    } else {
        (Some(candidate), Some(candidate))
    }
}

/// Whether the filter lets `candidate` through after `last` was sent.
pub fn stats_changed(last: &Option<SystemStats>, candidate: &SystemStats) -> (r: bool)
    ensures
        r == (*last != Some(*candidate)),
{
    match last {
        Some(l) => *l != *candidate,
        None => true,
    }
}

/// The sampling state of the stats meter: the previous CPU counters and the
/// last reading published.
pub struct StatsSampler {
    pub prev: Option<(u64, u64)>,
    pub last: Option<SystemStats>,
}

/// What one tick of the sampler does with the contents of `/proc/stat` and
/// `/proc/meminfo`: the reading it publishes, if any, and the state after.
/// A tick whose files do not parse is skipped and changes nothing.
pub open spec fn spec_sampler_tick(
    prev: Option<(u64, u64)>,
    last: Option<SystemStats>,
    stat: Seq<char>,
    meminfo: Seq<char>,
) -> (Option<SystemStats>, Option<(u64, u64)>, Option<SystemStats>) {
    match (spec_parse_proc_stat_cpu(stat), spec_parse_proc_meminfo(meminfo)) {
        (Some((busy, total)), Some((used, total_mem))) => {
            let (bd, td) = spec_cpu_deltas(prev, busy, total);
            let (published, new_last) = spec_change_filter(last, spec_payload(bd, td, used, total_mem));
            (published, Some((busy, total)), new_last)
        },
        _ => (None, prev, last),
    }
}

impl StatsSampler {
    /// A sampler that has seen nothing and published nothing.
    pub fn new() -> (r: StatsSampler)
        ensures
            r.prev is None,
            r.last is None,
    {
        StatsSampler { prev: None, last: None }
    }

    /// One tick: parse both files, take the CPU deltas against the previous
    /// counters, build the reading, and return it when it differs from the
    /// last one published.
    pub fn tick(&mut self, stat: &str, meminfo: &str) -> (r: Option<SystemStats>)
        requires
            spec_cpu_sums_fit(stat@),
            spec_meminfo_fits(meminfo@),
        ensures
            (r, final(self).prev, final(self).last) == spec_sampler_tick(
                old(self).prev,
                old(self).last,
                stat@,
                meminfo@,
            ),
    {
        let cpu = parse_proc_stat_cpu(stat);
        let mem = parse_proc_meminfo(meminfo);
        match (cpu, mem) {
            (Some((busy, total)), Some((used, total_mem))) => {
                let (bd, td) = cpu_deltas(self.prev, busy, total);
                self.prev = Some((busy, total));
                let payload = build_payload(bd, td, used, total_mem);
                if stats_changed(&self.last, &payload) {
                    self.last = Some(payload);
                    Some(payload)
                } else {
                    None
                }
            },
            _ => None,
        }
    }
}

/// A reading that has just been published is not published again: the filter
/// holds back an unchanged reading and leaves its state as it was.
pub proof fn law_unchanged_reading_is_published_once(
    last: Option<SystemStats>,
    candidate: SystemStats,
)
    ensures
        spec_change_filter(spec_change_filter(last, candidate).1, candidate) == (
            None::<SystemStats>,
            spec_change_filter(last, candidate).1,
        ),
{
}

/// While the busy time does not exceed the elapsed time, the published CPU
/// load lies between 0 and 100 percent.
pub proof fn law_cpu_percent_at_most_hundred(busy_delta: u64, total_delta: u64)
    requires
        busy_delta <= total_delta,
    ensures
        0 <= spec_rounded_percent(busy_delta, total_delta) <= 100,
{
    if total_delta > 0 {
        let b = busy_delta as int;
        let t = total_delta as int;
        assert((200 * b + t) / (2 * t) <= 100) by (nonlinear_arith)
            requires
                0 <= b <= t,
                t > 0,
        ;
        assert((200 * b + t) / (2 * t) >= 0) by (nonlinear_arith)
            requires
                0 <= b,
                t > 0,
        ;
    }
}

} // verus!
