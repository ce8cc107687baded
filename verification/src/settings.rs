//! User settings: visibility toggles, year filter, and the backup audit log.

use vstd::prelude::*;
use chrono::Datelike;

verus! {

/// One backup attempt, recorded whether it succeeded or failed.
#[derive(Debug, Clone, PartialEq)]
pub struct BackupEntry {
    /// Seconds since the Unix epoch.
    pub timestamp: i64,
    pub file_path: String,
    pub file_size: Option<u64>,
    pub success: bool,
    pub error_message: Option<String>,
}

/// How many backup entries the audit log keeps; the oldest is evicted first.
pub const BACKUP_HISTORY_CAP: usize = 10;

/// The process-wide singleton settings row.  Stored as one payload in the
/// store, encrypted at rest when encryption is active.
#[derive(Debug, Clone, PartialEq)]
pub struct UserSettings {
    /// Ids of categories hidden in the overview; no id occurs twice.
    pub hidden_categories: Vec<String>,
    /// Restrict views to one year; `None` shows all years.
    pub year_filter: Option<i32>,
    /// Backup audit log, oldest first, capped at `BACKUP_HISTORY_CAP`.
    pub backup_history: Vec<BackupEntry>,
    pub last_backup_path: Option<String>,
    pub auto_backup_enabled: bool,
    pub auto_backup_directory: Option<String>,
    pub auto_backup_encrypted: Option<bool>,
}

/// No category id occurs twice in the hidden list.
pub open spec fn hidden_ids_unique(ids: Seq<String>) -> bool {
    forall|i: int, j: int| 0 <= i < j < ids.len() ==> ids[i]@ != ids[j]@
}

/// Relies on chrono::Local::now: the current local calendar year; the value
/// depends on the clock, so nothing is promised of it.
#[verifier::external_body]
fn current_year() -> (r: i32)
{
    chrono::Local::now().year()
}

impl UserSettings {
    /// Hidden ids are unique and the audit log respects its cap.
    pub open spec fn wf(&self) -> bool {
        hidden_ids_unique(self.hidden_categories@)
            && self.backup_history@.len() <= BACKUP_HISTORY_CAP as int
    }

    /// Whether the category with this id is hidden.
    pub open spec fn spec_hidden(&self, id: Seq<char>) -> bool {
        exists|k: int|
            0 <= k < self.hidden_categories@.len() && self.hidden_categories@[k]@ == id
    }

    /// Fresh settings: nothing hidden, no history, the year filter set to
    /// the current year.
    pub fn new() -> (r: Self)
        ensures
            r.hidden_categories@.len() == 0,
            r.year_filter is Some,
            r.backup_history@.len() == 0,
            r.last_backup_path is None,
            !r.auto_backup_enabled,
            r.auto_backup_directory is None,
            r.auto_backup_encrypted is None,
            r.wf(),
    {
        UserSettings {
            hidden_categories: Vec::new(),
            year_filter: Some(current_year()),
            backup_history: Vec::new(),
            last_backup_path: None,
            auto_backup_enabled: false,
            auto_backup_directory: None,
            auto_backup_encrypted: None,
        }
    }

    pub fn is_category_hidden(&self, category_id: &str) -> (r: bool)
        ensures
            r == self.spec_hidden(category_id@),
    {
        find_string_index(&self.hidden_categories, category_id).is_some()
    }

    /// Hide the category if it is visible, show it if it is hidden.  Every
    /// other id's hidden state is untouched.
    pub fn toggle_category_visibility(&mut self, category_id: String)
        requires
            old(self).wf(),
        ensures
            final(self).wf(),
            final(self).spec_hidden(category_id@) == !old(self).spec_hidden(category_id@),
            forall|s: Seq<char>| s != category_id@
                ==> final(self).spec_hidden(s) == old(self).spec_hidden(s),
            final(self).year_filter == old(self).year_filter,
            final(self).backup_history == old(self).backup_history,
            final(self).last_backup_path == old(self).last_backup_path,
            final(self).auto_backup_enabled == old(self).auto_backup_enabled,
            final(self).auto_backup_directory == old(self).auto_backup_directory,
            final(self).auto_backup_encrypted == old(self).auto_backup_encrypted,
    {
        match find_string_index(&self.hidden_categories, category_id.as_str()) {
            Some(i) => {
                let ghost before = self.hidden_categories@;
                self.hidden_categories.remove(i);
                proof {
                    assert(forall|k: int|
                        0 <= k < before.len() && k != i ==> before[k]@ != category_id@);
                    lemma_remove_membership(before, i as int, category_id@);
                    assert(!self.spec_hidden(category_id@));
                    assert(old(self).spec_hidden(category_id@));
                    assert forall|s: Seq<char>| s != category_id@
                        implies self.spec_hidden(s) == old(self).spec_hidden(s) by {
                        lemma_remove_membership(before, i as int, s);
                        if old(self).spec_hidden(s) {
                            let j = choose|j: int| 0 <= j < before.len() && before[j]@ == s;
                            assert(j != i);
                        }
                    }
                    assert(hidden_ids_unique(self.hidden_categories@)) by {
                        assert forall|a: int, b: int|
                            0 <= a < b < self.hidden_categories@.len()
                            implies self.hidden_categories@[a]@ != self.hidden_categories@[b]@ by {
                            let t = before.remove(i as int);
                            if b < i {
                                assert(t[a] == before[a] && t[b] == before[b]);
                            } else if a < i {
                                assert(t[a] == before[a] && t[b] == before[b + 1]);
                            } else {
                                assert(t[a] == before[a + 1] && t[b] == before[b + 1]);
                            }
                        }
                    }
                }
            },
            None => {
                let ghost before = self.hidden_categories@;
                let ghost id = category_id@;
                self.hidden_categories.push(category_id);
                proof {
                    let after = self.hidden_categories@;
                    assert(after == before.push(after.last()));
                    assert(after.last()@ == id);
                    assert(self.spec_hidden(id)) by {
                        assert(after[after.len() - 1]@ == id);
                    }
                    assert forall|s: Seq<char>| s != id
                        implies self.spec_hidden(s) == old(self).spec_hidden(s) by {
                        assert(forall|k: int| 0 <= k < before.len() ==> after[k] == before[k]);
                        if self.spec_hidden(s) {
                            let j = choose|j: int| 0 <= j < after.len() && after[j]@ == s;
                            assert(j < before.len());
                        }
                    }
                    assert(hidden_ids_unique(after)) by {
                        assert(forall|k: int| 0 <= k < before.len() ==> after[k] == before[k]);
                        assert(forall|k: int| 0 <= k < before.len() ==> before[k]@ != id);
                    }
                }
            },
        }
    }

    pub fn set_year_filter(&mut self, year: Option<i32>)
        ensures
            *final(self) == (UserSettings { year_filter: year, ..*old(self) }),
    {
        self.year_filter = year;
    }

    pub fn get_year_filter(&self) -> (r: Option<i32>)
        ensures
            r == self.year_filter,
    {
        self.year_filter
    }

    /// Append to the audit log, evicting the oldest entry once the log
    /// holds `BACKUP_HISTORY_CAP` entries.
    pub fn add_backup_entry(&mut self, entry: BackupEntry)
        ensures
            final(self).backup_history@ == if old(self).backup_history@.len() >= BACKUP_HISTORY_CAP as int {
                old(self).backup_history@.drop_first().push(entry)
            } else {
                old(self).backup_history@.push(entry)
            },
            old(self).backup_history@.len() <= BACKUP_HISTORY_CAP as int
                ==> final(self).backup_history@.len() <= BACKUP_HISTORY_CAP as int,
            final(self).hidden_categories == old(self).hidden_categories,
            final(self).year_filter == old(self).year_filter,
            final(self).last_backup_path == old(self).last_backup_path,
            final(self).auto_backup_enabled == old(self).auto_backup_enabled,
            final(self).auto_backup_directory == old(self).auto_backup_directory,
            final(self).auto_backup_encrypted == old(self).auto_backup_encrypted,
    {
        if self.backup_history.len() >= BACKUP_HISTORY_CAP {
            self.backup_history.remove(0);
            proof {
                assert(self.backup_history@ =~= old(self).backup_history@.drop_first());
            }
        }
        self.backup_history.push(entry);
    }

    /// The most recent successful backup, if any.
    pub fn get_last_successful_backup(&self) -> (r: Option<&BackupEntry>)
        ensures
            match r {
                Some(e) => exists|k: int|
                    0 <= k < self.backup_history@.len() && self.backup_history@[k] == *e
                        && self.backup_history@[k].success && (forall|j: int|
                        k < j < self.backup_history@.len() ==> !self.backup_history@[j].success),
                None => forall|j: int|
                    0 <= j < self.backup_history@.len() ==> !self.backup_history@[j].success,
            },
    {
        let n = self.backup_history.len();
        let mut i: usize = n;
        while i > 0
            invariant
                n == self.backup_history@.len(),
                i <= n,
                forall|j: int| i <= j < n ==> !self.backup_history@[j].success,
            decreases i,
        {
            i = i - 1;
            if self.backup_history[i].success {
                return Some(&self.backup_history[i]);
            }
        }
        None
    }

    pub fn set_last_backup_path(&mut self, path: String)
        ensures
            *final(self) == (UserSettings { last_backup_path: Some(path), ..*old(self) }),
    {
        self.last_backup_path = Some(path);
    }

    pub fn set_auto_backup_enabled(&mut self, enabled: bool)
        ensures
            *final(self) == (UserSettings { auto_backup_enabled: enabled, ..*old(self) }),
    {
        self.auto_backup_enabled = enabled;
    }

    pub fn is_auto_backup_enabled(&self) -> (r: bool)
        ensures
            r == self.auto_backup_enabled,
    {
        self.auto_backup_enabled
    }

    pub fn set_auto_backup_directory(&mut self, directory: Option<String>)
        ensures
            *final(self) == (UserSettings { auto_backup_directory: directory, ..*old(self) }),
    {
        self.auto_backup_directory = directory;
    }

    pub fn get_auto_backup_directory(&self) -> (r: Option<&String>)
        ensures
            r is Some <==> self.auto_backup_directory is Some,
            r matches Some(d) ==> self.auto_backup_directory matches Some(t) && *d == t,
    {
        self.auto_backup_directory.as_ref()
    }

    pub fn set_auto_backup_encrypted(&mut self, encrypted: Option<bool>)
        ensures
            *final(self) == (UserSettings { auto_backup_encrypted: encrypted, ..*old(self) }),
    {
        self.auto_backup_encrypted = encrypted;
    }

    pub fn get_auto_backup_encrypted(&self) -> (r: Option<bool>)
        ensures
            r == self.auto_backup_encrypted,
    {
        self.auto_backup_encrypted
    }
}

/// The index of the first element whose text equals `id`, if any.
fn find_string_index(v: &Vec<String>, id: &str) -> (r: Option<usize>)
    ensures
        match r {
            Some(i) => i < v@.len() && v@[i as int]@ == id@,
            None => forall|k: int| 0 <= k < v@.len() ==> v@[k]@ != id@,
        },
{
    let n = v.len();
    let mut i: usize = 0;
    while i < n
        invariant
            n == v@.len(),
            i <= n,
            forall|k: int| 0 <= k < i ==> v@[k]@ != id@,
        decreases n - i,
    {
        if crate::models::str_eq(v[i].as_str(), id) {
            return Some(i);
        }
        i = i + 1;
    }
    None
}

/// Removing the element at `k` keeps exactly the other elements' text values.
proof fn lemma_remove_membership(s: Seq<String>, k: int, x: Seq<char>)
    requires
        0 <= k < s.len(),
    ensures
        (exists|j: int| 0 <= j < s.remove(k).len() && s.remove(k)[j]@ == x) <==> (exists|j: int|
        0 <= j < s.len() && j != k && s[j]@ == x),
{
    let t = s.remove(k);
    if exists|j: int| 0 <= j < t.len() && t[j]@ == x {
        let j = choose|j: int| 0 <= j < t.len() && t[j]@ == x;
        if j < k {
            assert(s[j]@ == x);
        } else {
            assert(s[j + 1]@ == x);
        }
    }
    if exists|j: int| 0 <= j < s.len() && j != k && s[j]@ == x {
        let j = choose|j: int| 0 <= j < s.len() && j != k && s[j]@ == x;
        if j < k {
            assert(t[j]@ == x);
        } else {
            assert(t[j - 1]@ == x);
        }
    }
}

} // verus!
