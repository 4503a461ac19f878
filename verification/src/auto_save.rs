//! Auto-saving of conversations: configuration, the bookkeeping of saves,
//! when a save is due, how save files are named, and which old files are
//! removed.

use vstd::prelude::*;
use crate::text::{chars_of, decimal, push_digits, push_str, string_from_chars};

verus! {

/// Auto-save configuration. The save directory is held as path text.
#[derive(Debug)]
pub struct AutoSaveConfig {
    pub enabled: bool,
    pub interval_seconds: u64,
    pub save_on_message_count: Option<usize>,
    pub save_on_idle_seconds: Option<u64>,
    pub max_auto_saves: usize,
    pub incremental_saves: bool,
    pub compress_saves: bool,
    pub save_directory: String,
    pub save_metadata: bool,
    pub save_memory_blocks: bool,
    pub save_token_usage: bool,
    pub save_preferences: bool,
    pub create_backups: bool,
    pub backup_retention_days: u32,
    pub save_on_exit: bool,
    pub save_on_config_change: bool,
    pub enable_conflict_resolution: bool,
}

impl Default for AutoSaveConfig {
    fn default() -> (c: AutoSaveConfig)
        ensures
            c.enabled,
            c.interval_seconds == 60,
            c.save_on_message_count == Some(5usize),
            c.save_on_idle_seconds == Some(300u64),
            c.max_auto_saves == 10,
            c.incremental_saves,
            c.compress_saves,
            c.save_directory@ == "./autosaves"@,
            c.save_metadata,
            c.save_memory_blocks,
            c.save_token_usage,
            c.save_preferences,
            c.create_backups,
            c.backup_retention_days == 7,
            c.save_on_exit,
            c.save_on_config_change,
            c.enable_conflict_resolution,
    {
        AutoSaveConfig {
            enabled: true,
            interval_seconds: 60,
            save_on_message_count: Some(5),
            save_on_idle_seconds: Some(300),
            max_auto_saves: 10,
            incremental_saves: true,
            compress_saves: true,
            save_directory: "./autosaves".to_string(),
            save_metadata: true,
            save_memory_blocks: true,
            save_token_usage: true,
            save_preferences: true,
            create_backups: true,
            backup_retention_days: 7,
            save_on_exit: true,
            save_on_config_change: true,
            enable_conflict_resolution: true,
        }
    }
}

/// The header of a save file. `created_at` is in milliseconds since the
/// Unix epoch.
#[derive(Debug)]
pub struct AutoSaveMetadata {
    pub version: String,
    pub created_at: i64,
    pub save_type: AutoSaveType,
    pub file_size: Option<usize>,
    pub checksum: Option<String>,
    pub sequence: usize,
    pub user_id: String,
    pub session_id: String,
    pub app_version: String,
    pub is_incremental: bool,
    pub previous_save: Option<String>,
}

/// The header of the next periodic save taken at `now`: format version
/// `1.0`, the next sequence number, the default user and session, app
/// version `0.1.0`, incremental as configured, no size, checksum or
/// previous save yet.
pub fn next_save_metadata(state: &AutoSaveState, config: &AutoSaveConfig, now: i64) -> (m: AutoSaveMetadata)
    requires
        state.current_sequence < usize::MAX,
    ensures
        m.version@ == "1.0"@,
        m.created_at == now,
        m.save_type == AutoSaveType::Periodic,
        m.file_size is None,
        m.checksum is None,
        m.sequence == state.current_sequence + 1,
        m.user_id@ == "default_user"@,
        m.session_id@ == "default_session"@,
        m.app_version@ == "0.1.0"@,
        m.is_incremental == config.incremental_saves,
        m.previous_save is None,
{
    AutoSaveMetadata {
        version: "1.0".to_string(),
        created_at: now,
        save_type: AutoSaveType::Periodic,
        file_size: None,
        checksum: None,
        sequence: state.current_sequence + 1,
        user_id: "default_user".to_string(),
        session_id: "default_session".to_string(),
        app_version: "0.1.0".to_string(),
        is_incremental: config.incremental_saves,
        previous_save: None,
    }
}

/// Kinds of auto-save.
#[derive(Debug, Clone, Copy, PartialEq, Eq, Structural)]
pub enum AutoSaveType {
    Periodic,
    ActivityTriggered,
    IdleTriggered,
    ExitSave,
    ConfigChange,
    Manual,
    Emergency,
}

/// Conflict resolution strategies.
#[derive(Debug, Clone, Copy, PartialEq, Eq, Structural)]
pub enum ConflictResolution {
    UseNewer,
    UseLocal,
    UseRemote,
    Merge,
    AskUser,
}

/// Auto-save bookkeeping. Times are seconds since the Unix epoch.
#[derive(Debug, Clone, Copy, PartialEq, Eq, Structural)]
pub struct AutoSaveState {
    pub last_save: Option<i64>,
    pub last_activity: i64,
    pub messages_since_save: usize,
    pub total_saves: usize,
    pub failed_saves: usize,
    pub current_sequence: usize,
    pub has_unsaved_changes: bool,
    pub last_save_size: Option<usize>,
    pub enabled: bool,
}

impl AutoSaveState {
    /// A fresh state with activity at `now`.
    pub fn new(now: i64) -> (s: AutoSaveState)
        ensures
            s.last_save is None,
            s.last_activity == now,
            s.messages_since_save == 0,
            s.total_saves == 0,
            s.failed_saves == 0,
            s.current_sequence == 0,
            !s.has_unsaved_changes,
            s.last_save_size is None,
            s.enabled,
    {
        AutoSaveState {
            last_save: None,
            last_activity: now,
            messages_since_save: 0,
            total_saves: 0,
            failed_saves: 0,
            current_sequence: 0,
            has_unsaved_changes: false,
            last_save_size: None,
            enabled: true,
        }
    }

    /// Records activity at `now`: there are unsaved changes.
    pub fn record_activity(&mut self, now: i64)
        ensures
            *final(self) == (AutoSaveState { last_activity: now, has_unsaved_changes: true, ..*old(self) }),
    {
        self.last_activity = now;
        self.has_unsaved_changes = true;
    }

    /// Records a new message at `now`; returns whether the message count
    /// threshold calls for an activity-triggered save.
    pub fn record_message(&mut self, now: i64, save_on_message_count: Option<usize>) -> (trigger: bool)
        requires
            old(self).messages_since_save < usize::MAX,
        ensures
            *final(self) == (AutoSaveState {
                last_activity: now,
                has_unsaved_changes: true,
                messages_since_save: (old(self).messages_since_save + 1) as usize,
                ..*old(self)
            }),
            trigger == match save_on_message_count {
                Some(t) => final(self).messages_since_save >= t,
                None => false,
            },
    {
        self.record_activity(now);
        self.messages_since_save = self.messages_since_save + 1;
        match save_on_message_count {
            Some(t) => self.messages_since_save >= t,
            None => false,
        }
    }

    /// Records a successful save at `now` of `file_size` bytes: the pending
    /// message count is reset, the sequence advances, nothing is unsaved.
    pub fn record_save_success(&mut self, now: i64, file_size: usize)
        requires
            old(self).total_saves < usize::MAX,
            old(self).current_sequence < usize::MAX,
        ensures
            *final(self) == (AutoSaveState {
                last_save: Some(now),
                messages_since_save: 0,
                total_saves: (old(self).total_saves + 1) as usize,
                has_unsaved_changes: false,
                last_save_size: Some(file_size),
                current_sequence: (old(self).current_sequence + 1) as usize,
                ..*old(self)
            }),
    {
        self.last_save = Some(now);
        self.messages_since_save = 0;
        self.total_saves = self.total_saves + 1;
        self.has_unsaved_changes = false;
        self.last_save_size = Some(file_size);
        self.current_sequence = self.current_sequence + 1;
    }

    /// Records a failed save.
    pub fn record_save_failure(&mut self)
        requires
            old(self).failed_saves < usize::MAX,
        ensures
            *final(self) == (AutoSaveState { failed_saves: (old(self).failed_saves + 1) as usize, ..*old(self) }),
    {
        self.failed_saves = self.failed_saves + 1;
    }
}

/// Whether a periodic check saves: auto-save is on, there are unsaved
/// changes, and the session has been idle at least the idle threshold
/// (always, when there is none).
pub open spec fn periodic_save_due(enabled: bool, unsaved: bool, idle_threshold: Option<u64>, idle_seconds: i64) -> bool {
    enabled && unsaved && match idle_threshold {
        Some(t) => idle_seconds >= t as int,
        None => true,
    }
}

/// Decides whether the periodic check saves, given the seconds since the
/// last activity.
pub fn should_periodic_save(config: &AutoSaveConfig, state: &AutoSaveState, idle_seconds: i64) -> (b: bool)
    ensures
        b == periodic_save_due(config.enabled, state.has_unsaved_changes, config.save_on_idle_seconds, idle_seconds),
{
    if !config.enabled || !state.has_unsaved_changes {
        return false;
    }
    match config.save_on_idle_seconds {
        Some(t) => {
            if t > 0x7fff_ffff_ffff_ffff {
                false
            } else {
                idle_seconds >= t as i64
            }
        },
        None => true,
    }
}

/// The file name suffix of a save kind.
pub open spec fn save_suffix(t: AutoSaveType) -> Seq<char> {
    match t {
        AutoSaveType::Periodic => "auto"@,
        AutoSaveType::ActivityTriggered => "activity"@,
        AutoSaveType::IdleTriggered => "idle"@,
        AutoSaveType::ExitSave => "exit"@,
        AutoSaveType::ConfigChange => "config"@,
        AutoSaveType::Manual => "manual"@,
        AutoSaveType::Emergency => "emergency"@,
    }
}

/// The decimal rendering of `n` left-padded with zeros to four digits.
pub open spec fn padded4(n: nat) -> Seq<char> {
    let d = decimal(n);
    if d.len() >= 4 {
        d
    } else {
        Seq::new((4 - d.len()) as nat, |i: int| '0') + d
    }
}

/// A save file name: `autosave_<timestamp>_<sequence, 4 digits>_<kind>.json`.
pub open spec fn save_file_name(timestamp: Seq<char>, sequence: nat, t: AutoSaveType) -> Seq<char> {
    "autosave_"@ + timestamp + "_"@ + padded4(sequence) + "_"@ + save_suffix(t) + ".json"@
}

fn save_suffix_exec(t: AutoSaveType) -> (s: &'static str)
    ensures
        s@ == save_suffix(t),
{
    match t {
        AutoSaveType::Periodic => "auto",
        AutoSaveType::ActivityTriggered => "activity",
        AutoSaveType::IdleTriggered => "idle",
        AutoSaveType::ExitSave => "exit",
        AutoSaveType::ConfigChange => "config",
        AutoSaveType::Manual => "manual",
        AutoSaveType::Emergency => "emergency",
    }
}

/// Names the save file for a timestamp, sequence number and kind.
pub fn save_filename(timestamp: &str, sequence: usize, save_type: AutoSaveType) -> (s: String)
    ensures
        s@ == save_file_name(timestamp@, sequence as nat, save_type),
{
    let mut digits: Vec<char> = Vec::new();
    push_digits(sequence as u128, 10, &mut digits);
    let mut out: Vec<char> = Vec::new();
    push_str(&mut out, "autosave_");
    push_str(&mut out, timestamp);
    push_str(&mut out, "_");
    let ghost before = out@;
    let mut pad: usize = 0;
    if digits.len() < 4 {
        while pad < 4 - digits.len()
            invariant
                digits@ == decimal(sequence as nat),
                digits@.len() < 4,
                pad <= 4 - digits@.len(),
                out@ =~= before + Seq::new(pad as nat, |i: int| '0'),
            decreases 4 - digits@.len() - pad,
        {
            out.push('0');
            pad = pad + 1;
        }
    }
    assert(out@ + digits@ =~= before + padded4(sequence as nat));
    out.append(&mut digits);
    push_str(&mut out, "_");
    push_str(&mut out, save_suffix_exec(save_type));
    push_str(&mut out, ".json");
    let s = string_from_chars(out.as_slice());
    assert(s@ =~= save_file_name(timestamp@, sequence as nat, save_type));
    s
}

/// Names the next save file: the current UTC time and the sequence number
/// after the current one.
pub fn generate_save_filename(state: &AutoSaveState, save_type: AutoSaveType) -> (s: String)
    requires
        state.current_sequence < usize::MAX,
    ensures
        exists|ts: Seq<char>| s@ == #[trigger] save_file_name(ts, state.current_sequence as nat + 1, save_type),
{
    let ts = crate::clock::utc_now_compact();
    let s = save_filename(ts.as_str(), state.current_sequence + 1, save_type);
    assert(s@ == save_file_name(ts@, state.current_sequence as nat + 1, save_type));
    s
}

/// Whether `s` starts with `p`.
pub open spec fn starts_with(s: Seq<char>, p: Seq<char>) -> bool {
    p.len() <= s.len() && s.subrange(0, p.len() as int) == p
}

/// Whether `s` ends with `p`.
pub open spec fn ends_with(s: Seq<char>, p: Seq<char>) -> bool {
    p.len() <= s.len() && s.subrange(s.len() - p.len(), s.len() as int) == p
}

pub(crate) fn chars_starts_with(s: &[char], p: &[char]) -> (b: bool)
    ensures
        b == starts_with(s@, p@),
{
    if p.len() > s.len() {
        return false;
    }
    let mut i: usize = 0;
    while i < p.len()
        invariant
            p@.len() <= s@.len(),
            i <= p@.len(),
            forall|k: int| 0 <= k < i ==> s@[k] == p@[k],
        decreases p@.len() - i,
    {
        if s[i] != p[i] {
            assert(s@.subrange(0, p@.len() as int)[i as int] != p@[i as int]);
            return false;
        }
        i = i + 1;
    }
    assert(s@.subrange(0, p@.len() as int) =~= p@);
    true
}

fn chars_ends_with(s: &[char], p: &[char]) -> (b: bool)
    ensures
        b == ends_with(s@, p@),
{
    if p.len() > s.len() {
        return false;
    }
    let sn = s.len();
    let off = s.len() - p.len();
    let mut i: usize = 0;
    while i < p.len()
        invariant
            sn == s@.len(),
            p@.len() <= s@.len(),
            off == s@.len() - p@.len(),
            i <= p@.len(),
            forall|k: int| 0 <= k < i ==> s@[off + k] == p@[k],
        decreases p@.len() - i,
    {
        if s[off + i] != p[i] {
            assert(s@.subrange(off as int, s@.len() as int)[i as int] != p@[i as int]);
            return false;
        }
        i = i + 1;
    }
    assert(s@.subrange(off as int, s@.len() as int) =~= p@);
    true
}

/// An auto-save file: `autosave_*.json`.
pub open spec fn is_save_file(name: Seq<char>) -> bool {
    starts_with(name, "autosave_"@) && ends_with(name, ".json"@)
}

/// Whether `names[i]`, created at `created[i]`, comes before `names[j]` in
/// newest-first order (equal times keep directory order).
pub open spec fn newer_first(created: Seq<u128>, j: int, i: int) -> bool {
    created[j] > created[i] || (created[j] == created[i] && j < i)
}

/// Number of save files among the first `n` that come before file `i`.
pub open spec fn rank_upto(names: Seq<Seq<char>>, created: Seq<u128>, i: int, n: nat) -> nat
    decreases n,
{
    if n == 0 {
        0
    } else {
        rank_upto(names, created, i, (n - 1) as nat) + if is_save_file(names[n - 1]) && newer_first(
            created,
            n - 1,
            i,
        ) {
            1nat
        } else {
            0nat
        }
    }
}

/// The save files to remove: those past the newest `max_saves` save files
/// (newest first, equal times in directory order).
pub open spec fn excess_save(names: Seq<Seq<char>>, created: Seq<u128>, max_saves: nat, i: int) -> bool {
    is_save_file(names[i]) && rank_upto(names, created, i, names.len()) >= max_saves
}

fn save_rank(flags: &Vec<bool>, created: &[u128], i: usize, Ghost(ns): Ghost<Seq<Seq<char>>>) -> (rank: usize)
    requires
        i < flags@.len(),
        flags@.len() == created@.len(),
        ns.len() == flags@.len(),
        forall|k: int| 0 <= k < flags@.len() ==> #[trigger] flags@[k] == is_save_file(ns[k]),
    ensures
        rank == rank_upto(ns, created@, i as int, ns.len()),
{
    let mut rank: usize = 0;
    let mut j: usize = 0;
    while j < flags.len()
        invariant
            j <= flags@.len(),
            i < flags@.len(),
            flags@.len() == created@.len(),
            ns.len() == flags@.len(),
            forall|k: int| 0 <= k < flags@.len() ==> #[trigger] flags@[k] == is_save_file(ns[k]),
            rank == rank_upto(ns, created@, i as int, j as nat),
            rank <= j,
        decreases flags@.len() - j,
    {
        if flags[j] && (created[j] > created[i] || (created[j] == created[i] && j < i)) {
            rank = rank + 1;
        }
        j = j + 1;
    }
    rank
}

/// Picks, among the files of the save directory (name and creation time),
/// the indices of the auto-save files beyond the newest `max_auto_saves`,
/// in directory order.
pub fn saves_to_remove(names: &[String], created: &[u128], max_auto_saves: usize) -> (r: Vec<usize>)
    requires
        names@.len() == created@.len(),
    ensures
        forall|k: int| 0 <= k < r@.len() ==> (#[trigger] r@[k]) < names@.len(),
        forall|k: int, m: int| 0 <= k < m < r@.len() ==> r@[k] < r@[m],
        forall|i: int|
            0 <= i < names@.len() ==> (r@.contains(i as usize) <==> excess_save(
                crate::agents_api::texts(names@),
                created@,
                max_auto_saves as nat,
                i,
            )),
{
    let ghost ns = crate::agents_api::texts(names@);
    let mut flags: Vec<bool> = Vec::new();
    let mut j: usize = 0;
    while j < names.len()
        invariant
            j <= names@.len(),
            ns == crate::agents_api::texts(names@),
            flags@.len() == j,
            forall|k: int| 0 <= k < j ==> #[trigger] flags@[k] == is_save_file(ns[k]),
        decreases names@.len() - j,
    {
        let v = chars_of(names[j].as_str());
        let a = chars_of("autosave_");
        let b = chars_of(".json");
        flags.push(chars_starts_with(v.as_slice(), a.as_slice()) && chars_ends_with(v.as_slice(), b.as_slice()));
        j = j + 1;
    }
    let mut r: Vec<usize> = Vec::new();
    let mut i: usize = 0;
    while i < names.len()
        invariant
            i <= names@.len(),
            names@.len() == created@.len(),
            flags@.len() == names@.len(),
            ns == crate::agents_api::texts(names@),
            forall|k: int| 0 <= k < flags@.len() ==> #[trigger] flags@[k] == is_save_file(ns[k]),
            forall|k: int| 0 <= k < r@.len() ==> (#[trigger] r@[k]) < i,
            forall|k: int, m: int| 0 <= k < m < r@.len() ==> r@[k] < r@[m],
            forall|x: int|
                0 <= x < i ==> (r@.contains(x as usize) <==> excess_save(ns, created@, max_auto_saves as nat, x)),
        decreases names@.len() - i,
    {
        let ghost before = r@;
        if flags[i] {
            let rank = save_rank(&flags, created, i, Ghost(ns));
            if rank >= max_auto_saves {
                r.push(i);
            }
        }
        proof {
            assert forall|x: int| 0 <= x < i + 1 implies (r@.contains(x as usize) <==> excess_save(
                ns,
                created@,
                max_auto_saves as nat,
                x,
            )) by {
                if x < i {
                    if r@.contains(x as usize) {
                        let k = choose|k: int| 0 <= k < r@.len() && r@[k] == x as usize;
                        assert(k < before.len());
                        assert(before.contains(x as usize));
                    }
                    if before.contains(x as usize) {
                        let k = choose|k: int| 0 <= k < before.len() && before[k] == x as usize;
                        assert(r@[k] == x as usize);
                    }
                } else {
                    if excess_save(ns, created@, max_auto_saves as nat, x) {
                        assert(r@[r@.len() - 1] == i);
                    }
                    if r@.contains(x as usize) {
                        let k = choose|k: int| 0 <= k < r@.len() && r@[k] == x as usize;
                        if k < before.len() {
                            assert(before[k] < i);
                        }
                    }
                }
            }
        }
        i = i + 1;
    }
    r
}

/// A backup file (`*.backup`) created before the cut-off time.
pub open spec fn stale_backup(name: Seq<char>, created: u128, cutoff: u128) -> bool {
    ends_with(name, ".backup"@) && created < cutoff
}

/// Picks the indices of the backup files (`*.backup`) created before the
/// cut-off time, in directory order.
pub fn backups_to_remove(names: &[String], created: &[u128], cutoff: u128) -> (r: Vec<usize>)
    requires
        names@.len() == created@.len(),
    ensures
        forall|k: int| 0 <= k < r@.len() ==> (#[trigger] r@[k]) < names@.len(),
        forall|k: int, m: int| 0 <= k < m < r@.len() ==> r@[k] < r@[m],
        forall|i: int|
            0 <= i < names@.len() ==> (r@.contains(i as usize) <==> #[trigger] stale_backup(
                names@[i]@,
                created@[i],
                cutoff,
            )),
{
    let mut r: Vec<usize> = Vec::new();
    let mut i: usize = 0;
    while i < names.len()
        invariant
            i <= names@.len(),
            names@.len() == created@.len(),
            forall|k: int| 0 <= k < r@.len() ==> (#[trigger] r@[k]) < i,
            forall|k: int, m: int| 0 <= k < m < r@.len() ==> r@[k] < r@[m],
            forall|x: int|
                0 <= x < i ==> (r@.contains(x as usize) <==> #[trigger] stale_backup(
                    names@[x]@,
                    created@[x],
                    cutoff,
                )),
        decreases names@.len() - i,
    {
        let v = chars_of(names[i].as_str());
        let b = chars_of(".backup");
        let ghost before = r@;
        let hit = chars_ends_with(v.as_slice(), b.as_slice()) && created[i] < cutoff;
        assert(hit == stale_backup(names@[i as int]@, created@[i as int], cutoff));
        if hit {
            r.push(i);
        }
        proof {
            assert forall|x: int| 0 <= x < i + 1 implies (r@.contains(x as usize)
                <==> #[trigger] stale_backup(names@[x]@, created@[x], cutoff)) by {
                if x < i {
                    if r@.contains(x as usize) {
                        let k = choose|k: int| 0 <= k < r@.len() && r@[k] == x as usize;
                        assert(k < before.len());
                        assert(before.contains(x as usize));
                    }
                    if before.contains(x as usize) {
                        let k = choose|k: int| 0 <= k < before.len() && before[k] == x as usize;
                        assert(r@[k] == x as usize);
                    }
                } else {
                    if r@.contains(x as usize) {
                        let k = choose|k: int| 0 <= k < r@.len() && r@[k] == x as usize;
                        if k < before.len() {
                            assert(before[k] < i);
                        }
                    }
                    if hit {
                        assert(r@[r@.len() - 1] == i);
                    }
                }
            }
        }
        i = i + 1;
    }
    r
}

} // verus!

verus! {

proof fn lemma_rank_compare(names: Seq<Seq<char>>, created: Seq<u128>, i: int, j: int, n: nat)
    requires
        n <= names.len(),
        n <= created.len(),
        forall|k: int| 0 <= k < n && is_save_file(names[k]) && #[trigger] newer_first(created, k, j) ==> newer_first(created, k, i),
    ensures
        rank_upto(names, created, j, n) <= rank_upto(names, created, i, n),
        (exists|k: int| 0 <= k < n && is_save_file(names[k]) && #[trigger] newer_first(created, k, i) && !newer_first(created, k, j))
            ==> rank_upto(names, created, j, n) + 1 <= rank_upto(names, created, i, n),
    decreases n,
{
    if n > 0 {
        lemma_rank_compare(names, created, i, j, (n - 1) as nat);
        if exists|k: int| 0 <= k < n && is_save_file(names[k]) && #[trigger] newer_first(created, k, i) && !newer_first(created, k, j) {
            let k = choose|k: int| 0 <= k < n && is_save_file(names[k]) && #[trigger] newer_first(created, k, i) && !newer_first(created, k, j);
            if k < n - 1 {
                assert(exists|k2: int| 0 <= k2 < n - 1 && is_save_file(names[k2]) && #[trigger] newer_first(created, k2, i) && !newer_first(created, k2, j));
            }
        }
    }
}

/// Cleaning up keeps the newest auto-saves: every save that stays is newer
/// (or, at equal times, earlier in the directory) than every save removed.
pub proof fn law_kept_saves_are_newest(names: Seq<Seq<char>>, created: Seq<u128>, max_saves: nat, i: int, j: int)
    requires
        names.len() == created.len(),
        0 <= i < names.len(),
        0 <= j < names.len(),
        is_save_file(names[i]),
        !excess_save(names, created, max_saves, i),
        excess_save(names, created, max_saves, j),
    ensures
        newer_first(created, i, j),
{
    if !newer_first(created, i, j) {
        assert(i != j);
        assert(newer_first(created, j, i));
        lemma_rank_compare(names, created, i, j, names.len());
        assert(is_save_file(names[j]) && newer_first(created, j, i) && !newer_first(created, j, j));
    }
}

} // verus!
