//! Application launch usage: how often and how recently each desktop entry
//! was launched, and where that record is kept.
use vstd::prelude::*;

use crate::clipboard_store::{join_path, opt_view, spec_join_path};
use crate::keyed::KeyedVec;
use crate::text::{concat, owned};

verus! {

/// One application's usage.
#[derive(Debug, Clone, Copy, PartialEq, Eq)]
pub struct UsageRecord {
    /// Launches so far.
    pub launch_count: u64,
    /// Unix time (seconds) of the latest launch.
    pub last_used: u64,
}

/// The data directory: `$XDG_DATA_HOME` when set, else `$HOME/.local/share`.
pub open spec fn spec_data_home(xdg_data_home: Option<Seq<char>>, home: Option<Seq<char>>) -> Seq<char> {
    match xdg_data_home {
        Some(s) => s,
        None => match home {
            Some(h) => h + "/.local/share"@,
            None => "/.local/share"@,
        },
    }
}

/// `quantum/app_usage.json` under the data directory.
pub open spec fn spec_usage_path(xdg_data_home: Option<Seq<char>>, home: Option<Seq<char>>) -> Seq<char> {
    spec_join_path(spec_join_path(spec_data_home(xdg_data_home, home), "quantum"@), "app_usage.json"@)
}

/// `SystemTime::now()` as whole seconds since the Unix epoch (`0` for a clock
/// before it). It depends on the clock, so nothing is stated of its value.
#[verifier::external_body]
pub fn now_secs() -> (r: u64) {
    std::time::SystemTime::now().duration_since(std::time::UNIX_EPOCH).map(|d| d.as_secs()).unwrap_or(0)
}

/// The record after one more launch at `now`: the count grows by one
/// (saturating), the time is `now`.
pub open spec fn spec_after_launch(old: Option<UsageRecord>, now: u64) -> UsageRecord {
    let count = match old {
        Some(r) => if r.launch_count == u64::MAX {
            u64::MAX
        } else {
            (r.launch_count + 1) as u64
        },
        None => 1,
    };
    UsageRecord { launch_count: count, last_used: now }
}

/// Launch usage keyed by desktop id, with the file it is kept in.
pub struct UsageStore {
    path: String,
    records: KeyedVec<UsageRecord>,
}

impl UsageStore {
    pub closed spec fn spec_path(&self) -> Seq<char> {
        self.path@
    }

    /// The usage of every id.
    pub closed spec fn spec_records(&self) -> Map<Seq<char>, UsageRecord> {
        self.records@
    }

    fn build(path: String, records: Vec<(String, UsageRecord)>) -> (r: UsageStore)
        ensures
            r.spec_path() == path@,
            r.spec_records() == crate::keyed::spec_entries_map(records@),
    {
        let mut map: KeyedVec<UsageRecord> = KeyedVec::new();
        let mut i: usize = 0;
        assert(crate::keyed::spec_entries_map(records@.take(0)) =~= Map::<Seq<char>, UsageRecord>::empty());
        while i < records.len()
            invariant
                i <= records@.len(),
                map@ == crate::keyed::spec_entries_map(records@.take(i as int)),
            decreases records@.len() - i,
        {
            assert(records@.take(i + 1).drop_last() =~= records@.take(i as int));
            assert(records@.take(i + 1).last() == records@[i as int]);
            map.insert(records[i].0.clone(), records[i].1);
            i += 1;
        }
        assert(records@.take(i as int) =~= records@);
        UsageStore { path, records: map }
    }

    /// The store at the default location (given `XDG_DATA_HOME` and `HOME`)
    /// holding the records read from it (none when the file was missing or
    /// unreadable); a repeated id keeps its last record.
    pub fn load(xdg_data_home: Option<&str>, home: Option<&str>, records: Vec<(String, UsageRecord)>) -> (r:
        UsageStore)
        ensures
            r.spec_path() == spec_usage_path(opt_view(xdg_data_home), opt_view(home)),
            r.spec_records() == crate::keyed::spec_entries_map(records@),
    {
        let data_home = match xdg_data_home {
            Some(s) => owned(s),
            None => match home {
                Some(h) => concat(h, "/.local/share"),
                None => owned("/.local/share"),
            },
        };
        proof {
            reveal_strlit("/.local/share");
        }
        let base = join_path(data_home.as_str(), "quantum");
        let path = join_path(base.as_str(), "app_usage.json");
        UsageStore::build(path, records)
    }

    /// The store at an explicit path holding the given records.
    pub fn with_path(path: String, records: Vec<(String, UsageRecord)>) -> (r: UsageStore)
        ensures
            r.spec_path() == path@,
            r.spec_records() == crate::keyed::spec_entries_map(records@),
    {
        UsageStore::build(path, records)
    }

    /// The file the store is kept in.
    pub fn path(&self) -> (r: &str)
        ensures
            r@ == self.spec_path(),
    {
        self.path.as_str()
    }

    /// The usage of `desktop_id`, if it was ever launched.
    pub fn get(&self, desktop_id: &str) -> (r: Option<UsageRecord>)
        ensures
            match r {
                Some(u) => self.spec_records().dom().contains(desktop_id@) && u == self.spec_records()[desktop_id@],
                None => !self.spec_records().dom().contains(desktop_id@),
            },
    {
        match self.records.get(desktop_id) {
            Some(u) => Some(*u),
            None => None,
        }
    }

    /// Whether `desktop_id` has any history.
    pub fn contains(&self, desktop_id: &str) -> (r: bool)
        ensures
            r == self.spec_records().dom().contains(desktop_id@),
    {
        self.records.contains_key(desktop_id)
    }

    /// The records, as `(id, usage)` pairs with distinct ids.
    pub fn records(&self) -> (r: &Vec<(String, UsageRecord)>)
        ensures
            crate::keyed::spec_entries_map(r@) == self.spec_records(),
            crate::keyed::spec_keys_unique(r@),
    {
        self.records.entries()
    }

    /// Record a launch of `desktop_id` at `now`.
    pub fn record_at(&mut self, desktop_id: &str, now: u64)
        ensures
            final(self).spec_path() == old(self).spec_path(),
            final(self).spec_records() == old(self).spec_records().insert(
                desktop_id@,
                spec_after_launch(
                    if old(self).spec_records().dom().contains(desktop_id@) {
                        Some(old(self).spec_records()[desktop_id@])
                    } else {
                        None
                    },
                    now,
                ),
            ),
    {
        let count = match self.records.get(desktop_id) {
            Some(u) => u.launch_count.saturating_add(1),
            None => 1,
        };
        self.records.insert(owned(desktop_id), UsageRecord { launch_count: count, last_used: now });
    }

    /// Record a launch of `desktop_id` now; returns the time stamped. Saving
    /// the store is the caller's.
    pub fn record(&mut self, desktop_id: &str) -> (r: u64)
        ensures
            final(self).spec_path() == old(self).spec_path(),
            final(self).spec_records() == old(self).spec_records().insert(
                desktop_id@,
                spec_after_launch(
                    if old(self).spec_records().dom().contains(desktop_id@) {
                        Some(old(self).spec_records()[desktop_id@])
                    } else {
                        None
                    },
                    r,
                ),
            ),
    {
        let now = now_secs();
        self.record_at(desktop_id, now);
        now
    }
}

} // verus!
