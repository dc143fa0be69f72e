//! The in-app console: which log targets it shows, and the bounded buffer
//! of recent entries with its change counter.

use vstd::prelude::*;
use std::collections::VecDeque;
use vstd::string::StringExecFns;
use crate::text::{chars_of, has_prefix, starts_with, same_text};

verus! {

/// One line of the in-app console.
#[derive(Clone, Debug)]
pub struct LogEntry {
    pub time: String,
    pub level: String,
    pub group: String,
    pub message: String,
    pub search_text: String,
}

/// Most entries the console keeps.
pub const MAX_LOGS: usize = 2000;

/// The last `MAX_LOGS` entries of `s` (all of them if there are fewer).
pub open spec fn retained(s: Seq<LogEntry>) -> Seq<LogEntry> {
    if s.len() > MAX_LOGS {
        s.skip(s.len() - MAX_LOGS)
    } else {
        s
    }
}

/// Recent console entries, oldest first, and a counter that changes on
/// every addition so that viewers can tell when to refresh even once the
/// buffer is full and its length no longer changes.
pub struct LogBuffer {
    entries: VecDeque<LogEntry>,
    sequence: u64,
}

impl LogBuffer {
    /// Well-formedness: never more than `MAX_LOGS` entries.
    pub closed spec fn wf(&self) -> bool {
        self.entries@.len() <= MAX_LOGS
    }

    /// The entries held, oldest first.
    pub closed spec fn contents(&self) -> Seq<LogEntry> {
        self.entries@
    }

    /// The change counter.
    pub closed spec fn seq_no(&self) -> u64 {
        self.sequence
    }

    /// An empty buffer whose counter is zero.
    pub fn new() -> (b: LogBuffer)
        ensures
            b.wf(),
            b.contents() == Seq::<LogEntry>::empty(),
            b.seq_no() == 0,
    {
        LogBuffer { entries: VecDeque::new(), sequence: 0 }
    }

    /// Appends an entry, dropping the oldest one when `MAX_LOGS` are already
    /// held, and advances the counter (wrapping).
    pub fn push(&mut self, entry: LogEntry)
        requires
            old(self).wf(),
        ensures
            final(self).wf(),
            final(self).contents() == retained(old(self).contents().push(entry)),
            final(self).seq_no() == old(self).seq_no().wrapping_add(1),
    {
        if self.entries.len() >= MAX_LOGS {
            self.entries.pop_front();
        }
        self.entries.push_back(entry);
        self.sequence = self.sequence.wrapping_add(1);
        proof {
            let old_c = old(self).contents();
            if old_c.len() >= MAX_LOGS {
                assert(old_c.push(entry).skip(old_c.push(entry).len() - MAX_LOGS) =~= old_c.subrange(
                    1,
                    old_c.len() as int,
                ).push(entry));
            }
        }
    }

    /// Number of entries held (at most `MAX_LOGS`).
    pub fn len(&self) -> (n: usize)
        requires
            self.wf(),
        ensures
            n == self.contents().len(),
            n <= MAX_LOGS,
    {
        self.entries.len()
    }

    /// The change counter.
    pub fn sequence(&self) -> (s: u64)
        ensures
            s == self.seq_no(),
    {
        self.sequence
    }

    /// The entry at `index`, oldest first.
    pub fn get(&self, index: usize) -> (e: &LogEntry)
        requires
            index < self.contents().len(),
        ensures
            *e == self.contents()[index as int],
    {
        &self.entries[index]
    }
}

/// The buffer always holds the most recent entries: pushing onto a buffer
/// that holds the last `MAX_LOGS` of a history leaves it holding the last
/// `MAX_LOGS` of that history extended by the new entry.
pub proof fn lemma_retained_push(history: Seq<LogEntry>, e: LogEntry)
    ensures
        retained(retained(history).push(e)) == retained(history.push(e)),
        retained(history).len() <= MAX_LOGS,
{
    let r = retained(history);
    if history.len() > MAX_LOGS {
        assert(retained(r.push(e)) =~= retained(history.push(e)));
    } else {
        assert(r =~= history);
    }
}

/// Targets shown in the in-app console.
pub open spec fn console_targets() -> Seq<Seq<char>> {
    seq![
        "App"@,
        "UI"@,
        "HID"@,
        "TabletManager"@,
        "Pipeline"@,
        "Config"@,
        "Startup"@,
        "Update"@,
        "Stats"@,
        "Tray"@,
        "Timer"@,
        "WebSocket"@,
        "Telemetry"@,
        "Driver"@,
        "Detect"@,
    ]
}

/// Whether a log target is shown: one of the console targets, a
/// `::`-separated child of one, or anything starting with `NextTabletDriver`.
pub open spec fn shown_target(target: Seq<char>) -> bool {
    ||| exists|i: int|
        0 <= i < 15 && (target == #[trigger] console_targets()[i] || has_prefix(
            target,
            console_targets()[i] + "::"@,
        ))
    ||| has_prefix(target, "NextTabletDriver"@)
}

/// Whether `target` is `name` itself or one of its `name::...` children.
pub open spec fn named(target: Seq<char>, name: Seq<char>) -> bool {
    target == name || has_prefix(target, name + "::"@)
}

/// The console shows exactly the records whose target is one of App, UI,
/// HID, TabletManager, Pipeline, Config, Startup, Update, Stats, Tray,
/// Timer, WebSocket, Telemetry, Driver or Detect (or a `::` child of one),
/// or starts with `NextTabletDriver`; every other target is hidden.
pub proof fn lemma_console_whitelist(target: Seq<char>)
    ensures
        shown_target(target) <==> {
            ||| named(target, "App"@)
            ||| named(target, "UI"@)
            ||| named(target, "HID"@)
            ||| named(target, "TabletManager"@)
            ||| named(target, "Pipeline"@)
            ||| named(target, "Config"@)
            ||| named(target, "Startup"@)
            ||| named(target, "Update"@)
            ||| named(target, "Stats"@)
            ||| named(target, "Tray"@)
            ||| named(target, "Timer"@)
            ||| named(target, "WebSocket"@)
            ||| named(target, "Telemetry"@)
            ||| named(target, "Driver"@)
            ||| named(target, "Detect"@)
            ||| has_prefix(target, "NextTabletDriver"@)
        },
{
    let t = console_targets();
    assert(t[0] == "App"@);
    assert(t[1] == "UI"@);
    assert(t[2] == "HID"@);
    assert(t[3] == "TabletManager"@);
    assert(t[4] == "Pipeline"@);
    assert(t[5] == "Config"@);
    assert(t[6] == "Startup"@);
    assert(t[7] == "Update"@);
    assert(t[8] == "Stats"@);
    assert(t[9] == "Tray"@);
    assert(t[10] == "Timer"@);
    assert(t[11] == "WebSocket"@);
    assert(t[12] == "Telemetry"@);
    assert(t[13] == "Driver"@);
    assert(t[14] == "Detect"@);
    if exists|i: int| 0 <= i < 15 && (target == #[trigger] t[i] || has_prefix(target, t[i] + "::"@)) {
        let i = choose|i: int| 0 <= i < 15 && (target == #[trigger] t[i] || has_prefix(target, t[i] + "::"@));
        assert(named(target, t[i]));
    }
    if named(target, "App"@) { assert(target == t[0] || has_prefix(target, t[0] + "::"@)); }
    if named(target, "UI"@) { assert(target == t[1] || has_prefix(target, t[1] + "::"@)); }
    if named(target, "HID"@) { assert(target == t[2] || has_prefix(target, t[2] + "::"@)); }
    if named(target, "TabletManager"@) { assert(target == t[3] || has_prefix(target, t[3] + "::"@)); }
    if named(target, "Pipeline"@) { assert(target == t[4] || has_prefix(target, t[4] + "::"@)); }
    if named(target, "Config"@) { assert(target == t[5] || has_prefix(target, t[5] + "::"@)); }
    if named(target, "Startup"@) { assert(target == t[6] || has_prefix(target, t[6] + "::"@)); }
    if named(target, "Update"@) { assert(target == t[7] || has_prefix(target, t[7] + "::"@)); }
    if named(target, "Stats"@) { assert(target == t[8] || has_prefix(target, t[8] + "::"@)); }
    if named(target, "Tray"@) { assert(target == t[9] || has_prefix(target, t[9] + "::"@)); }
    if named(target, "Timer"@) { assert(target == t[10] || has_prefix(target, t[10] + "::"@)); }
    if named(target, "WebSocket"@) { assert(target == t[11] || has_prefix(target, t[11] + "::"@)); }
    if named(target, "Telemetry"@) { assert(target == t[12] || has_prefix(target, t[12] + "::"@)); }
    if named(target, "Driver"@) { assert(target == t[13] || has_prefix(target, t[13] + "::"@)); }
    if named(target, "Detect"@) { assert(target == t[14] || has_prefix(target, t[14] + "::"@)); }
}

/// Whether records of `target` appear in the in-app console.
pub fn is_shown_target(target: &str) -> (shown: bool)
    ensures
        shown == shown_target(target@),
{
    let names: [&str; 15] = [
        "App",
        "UI",
        "HID",
        "TabletManager",
        "Pipeline",
        "Config",
        "Startup",
        "Update",
        "Stats",
        "Tray",
        "Timer",
        "WebSocket",
        "Telemetry",
        "Driver",
        "Detect",
    ];
    assert(names@.map_values(|s: &str| s@) =~= console_targets());
    let t = chars_of(target);
    let sep = chars_of("::");
    let mut i: usize = 0;
    while i < 15
        invariant
            t@ == target@,
            sep@ == "::"@,
            names@.map_values(|s: &str| s@) == console_targets(),
            i <= 15,
            forall|j: int|
                0 <= j < i ==> !(target@ == #[trigger] console_targets()[j] || has_prefix(
                    target@,
                    console_targets()[j] + "::"@,
                )),
        decreases 15 - i,
    {
        let name = names[i];
        assert(name@ == console_targets()[i as int]);
        if same_text(target, name) {
            return true;
        }
        let mut prefix = chars_of(name);
        crate::text::push_all(&mut prefix, sep.as_slice());
        if starts_with(t.as_slice(), prefix.as_slice()) {
            return true;
        }
        i = i + 1;
    }
    let app = chars_of("NextTabletDriver");
    starts_with(t.as_slice(), app.as_slice())
}

/// Whether `s` reads as a wall-clock time `HH:MM:SS`: eight characters,
/// colons at 2 and 5, ASCII digits elsewhere.
pub open spec fn is_clock_text(s: Seq<char>) -> bool {
    &&& s.len() == 8
    &&& s[2] == ':'
    &&& s[5] == ':'
    &&& forall|i: int|
        0 <= i < 8 && i != 2 && i != 5 ==> '0' <= #[trigger] s[i] && s[i] <= '9'
}

/// The local wall-clock time as `HH:MM:SS` (chrono's `Local::now()`
/// formatted with `%H:%M:%S`, each field zero-padded to two digits). Which
/// time it is depends on the clock and the time zone and is left open.
#[verifier::external_body]
fn local_clock_text() -> (t: String)
    ensures
        is_clock_text(t@),
{
    chrono::Local::now().format("%H:%M:%S").to_string()
}

/// Lowercase form of a text, as `str::to_lowercase` maps it (full Unicode
/// case mapping, a function of the text alone).
pub uninterp spec fn lowercase(s: Seq<char>) -> Seq<char>;

/// `str::to_lowercase`.
#[verifier::external_body]
fn to_lowercase(s: &str) -> (l: String)
    ensures
        l@ == lowercase(s@),
{
    s.to_lowercase()
}

/// The console entry for a log record of `target` at `level` with
/// `message`, stamped with the current time; `None` when the target is not
/// shown in the console. Its search text is the lowercased target and
/// message separated by a space.
pub fn console_entry(target: &str, level: String, message: String) -> (entry: Option<LogEntry>)
    ensures
        entry is None <==> !shown_target(target@),
        entry matches Some(e) ==> {
            &&& is_clock_text(e.time@)
            &&& e.level@ == level@
            &&& e.group@ == target@
            &&& e.message@ == message@
            &&& e.search_text@ == lowercase(target@) + " "@ + lowercase(message@)
        },
{
    if !is_shown_target(target) {
        return None;
    }
    let mut search_text = to_lowercase(target);
    search_text.append(" ");
    let lower_message = to_lowercase(message.as_str());
    search_text.append(lower_message.as_str());
    Some(LogEntry {
        time: local_clock_text(),
        level,
        group: target.to_owned(),
        message,
        search_text,
    })
}

} // verus!
