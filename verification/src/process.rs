//! The game process: how it is launched, how it is recognised among the
//! running processes, and when a loading game counts as idle.

use vstd::prelude::*;
use vstd::utf8::encode_utf8;
use crate::config::{Platform, Settings};
use crate::system::{named_in, pids_by_name, process_table};
use crate::text::{decimal, parse_u32, parse_u64, parse_unsigned, proc_field, proc_field_value, push_decimal};

verus! {

/// Seconds between two polls of the game's state.
pub const IDLE_POLL_INTERVAL_SECS: u64 = 2;

/// Seconds to wait after stopping the game.
pub const POST_STOP_DELAY_SECS: u64 = 5;

/// Seconds to wait for the game process to appear after launching it.
pub const STARTUP_TIMEOUT_SECS: u64 = 120;

/// Safety cap, in seconds, on waiting for a running game to finish loading.
pub const IDLE_TIMEOUT_SECS: u64 = 300;

/// Consecutive low-read samples after which the game counts as loaded.
pub const IDLE_LOW_SAMPLES: u32 = 2;

/// Seconds after the game appears during which reads are not judged, so a
/// quiet moment before loading starts is not taken for the end of loading.
pub const IDLE_STARTUP_GRACE_SECS: u64 = 5;

/// Seconds to wait for loading where read activity cannot be measured.
pub const NONLINUX_SETTLE_SECS: u64 = 60;

/// The game process, as the launcher knows it from the settings.
pub struct Process {
    process_names: Vec<String>,
    steam_app_id: u32,
    idle_read_threshold_mb_s_bits: u64,
}

/// What a [`Process`] holds.
pub struct ProcessView {
    pub process_names: Seq<Seq<char>>,
    pub steam_app_id: u32,
    pub idle_read_threshold_mb_s_bits: u64,
}

impl View for Process {
    type V = ProcessView;

    closed spec fn view(&self) -> ProcessView {
        ProcessView {
            process_names: self.process_names@.map_values(|name: String| name@),
            steam_app_id: self.steam_app_id,
            idle_read_threshold_mb_s_bits: self.idle_read_threshold_mb_s_bits,
        }
    }
}

/// The program and arguments that open a URL on a platform.
pub struct OpenerCommand {
    pub program: String,
    pub args: Vec<String>,
}

/// The command that opens `url` with the platform's URL handler:
/// `cmd /C start "" <url>` on Windows (the empty argument is `start`'s window
/// title, without which the URL would be taken as the title), `open <url>` on
/// macOS, `xdg-open <url>` on Linux.
pub open spec fn opener_command(platform: Platform, url: Seq<char>) -> (Seq<char>, Seq<Seq<char>>) {
    match platform {
        Platform::Windows => ("cmd"@, seq!["/C"@, "start"@, ""@, url]),
        Platform::MacOs => ("open"@, seq![url]),
        Platform::Linux => ("xdg-open"@, seq![url]),
    }
}

/// The `steam://` URL that makes Steam launch application `app_id`.
pub open spec fn launch_url(app_id: u32) -> Seq<char> {
    "steam://rungameid/"@ + decimal(app_id as nat)
}

/// Some configured name occurs in the name of process `pid` of `table`.
pub open spec fn is_game_process(table: Set<(u32, Seq<u8>)>, names: Seq<Seq<char>>, pid: u32) -> bool {
    exists|i: int| 0 <= i < names.len() && #[trigger] named_in(table, encode_utf8(names[i]), pid)
}

fn owned(s: &str) -> (owned: String)
    ensures
        owned@ == s@,
{
    s.to_owned()
}

impl Process {
    /// The game process described by `settings`.
    pub fn new(settings: &Settings) -> (process: Process)
        ensures
            process@.process_names == settings@.process_names,
            process@.steam_app_id == settings.steam_app_id,
            process@.idle_read_threshold_mb_s_bits == settings.idle_read_threshold_mb_s_bits,
    {
        let names = settings.process_names.clone();
        assert(names@ =~= settings.process_names@);
        Process {
            process_names: names,
            steam_app_id: settings.steam_app_id,
            idle_read_threshold_mb_s_bits: settings.idle_read_threshold_mb_s_bits,
        }
    }

    /// The idle read threshold in MB/s, as the bits of a double.
    pub fn idle_read_threshold_bits(&self) -> (bits: u64)
        ensures
            bits == self@.idle_read_threshold_mb_s_bits,
    {
        self.idle_read_threshold_mb_s_bits
    }

    /// The URL that launches the game through Steam's protocol handler, so
    /// that Steam resolves the install location itself.
    pub fn launch_url(&self) -> (url: String)
        ensures
            url@ == launch_url(self@.steam_app_id),
    {
        let mut url = owned("steam://rungameid/");
        push_decimal(&mut url, self.steam_app_id);
        url
    }

    /// The command that opens `url` on `platform`.
    pub fn url_opener(platform: Platform, url: &str) -> (command: OpenerCommand)
        ensures
            command.program@ == opener_command(platform, url@).0,
            command.args@.map_values(|arg: String| arg@) == opener_command(platform, url@).1,
    {
        let mut args: Vec<String> = Vec::new();
        let program = match platform {
            Platform::Windows => {
                args.push(owned("/C"));
                args.push(owned("start"));
                args.push(owned(""));
                args.push(owned(url));
                owned("cmd")
            },
            Platform::MacOs => {
                args.push(owned(url));
                owned("open")
            },
            Platform::Linux => {
                args.push(owned(url));
                owned("xdg-open")
            },
        };
        let command = OpenerCommand { program, args };
        assert(command.args@.map_values(|arg: String| arg@) =~= opener_command(platform, url@).1);
        command
    }

    /// The ids of the running processes whose name contains one of the
    /// configured names, each once. Names are matched by substring only, so a
    /// child process that runs under another name is not found.
    pub fn find_game_pids(&self, system: &sysinfo::System) -> (pids: Vec<u32>)
        ensures
            pids@.no_duplicates(),
            forall|pid: u32|
                #[trigger] pids@.contains(pid) == is_game_process(
                    process_table(*system),
                    self@.process_names,
                    pid,
                ),
    {
        let ghost table = process_table(*system);
        let ghost names = self@.process_names;
        let mut pids: Vec<u32> = Vec::new();
        let mut i: usize = 0;
        while i < self.process_names.len()
            invariant
                i <= self.process_names@.len(),
                names == self@.process_names,
                names.len() == self.process_names@.len(),
                table == process_table(*system),
                pids@.no_duplicates(),
                forall|pid: u32|
                    #[trigger] pids@.contains(pid) == exists|m: int|
                        0 <= m < i && #[trigger] named_in(table, encode_utf8(names[m]), pid),
            decreases self.process_names@.len() - i,
        {
            let found = pids_by_name(system, self.process_names[i].as_str());
            assert(names[i as int] == self.process_names@[i as int]@);
            let mut k: usize = 0;
            while k < found.len()
                invariant
                    k <= found@.len(),
                    i < names.len(),
                    table == process_table(*system),
                    pids@.no_duplicates(),
                    forall|pid: u32| #[trigger]
                        found@.contains(pid) == named_in(table, encode_utf8(names[i as int]), pid),
                    forall|pid: u32|
                        #[trigger] pids@.contains(pid) == ((exists|m: int|
                            0 <= m < i && #[trigger] named_in(table, encode_utf8(names[m]), pid))
                            || (exists|w: int| 0 <= w < k && #[trigger] found@[w] == pid)),
                decreases found@.len() - k,
            {
                let pid = found[k];
                let ghost before = pids@;
                if !contains_pid(&pids, pid) {
                    pids.push(pid);
                    proof {
                        assert forall|p: u32| pids@.contains(p) == (p == pid || before.contains(p)) by {
                            vstd::seq_lib::lemma_seq_contains_after_push(before, pid, p);
                        }
                    }
                    assert forall|a: int, b: int|
                        0 <= a < b < pids@.len() implies pids@[a] != pids@[b] by {
                        if b == pids@.len() - 1 {
                            assert(before.contains(pids@[a]));
                        }
                    }
                }
                assert forall|p: u32| #[trigger] pids@.contains(p) == ((exists|m: int|
                    0 <= m < i && #[trigger] named_in(table, encode_utf8(names[m]), p))
                    || (exists|w: int| 0 <= w < k + 1 && #[trigger] found@[w] == p)) by {
                    if p == pid {
                        assert(found@[k as int] == p);
                        assert(pids@.contains(p));
                    } else {
                        assert(pids@.contains(p) == before.contains(p));
                    }
                }
                k = k + 1;
            }
            assert forall|p: u32| found@.contains(p) == (exists|w: int| 0 <= w < k && #[trigger] found@[w] == p) by {
                if found@.contains(p) {
                    let w = choose|w: int| 0 <= w < found@.len() && found@[w] == p;
                    assert(found@[w] == p);
                }
            }
            i = i + 1;
            assert forall|p: u32| #[trigger] pids@.contains(p) == exists|m: int|
                0 <= m < i && #[trigger] named_in(table, encode_utf8(names[m]), p) by {
                if found@.contains(p) {
                    assert(named_in(table, encode_utf8(names[i - 1]), p));
                }
                if exists|m: int| 0 <= m < i && #[trigger] named_in(table, encode_utf8(names[m]), p) {
                    let m = choose|m: int| 0 <= m < i && #[trigger] named_in(table, encode_utf8(names[m]), p);
                    if m == i - 1 {
                        assert(found@.contains(p));
                    }
                }
            }
        }
        pids
    }
}

/// The sum of the values present in `samples`.
pub open spec fn present_sum(samples: Seq<Option<u64>>) -> nat
    decreases samples.len(),
{
    if samples.len() == 0 {
        0
    } else {
        present_sum(samples.drop_last()) + match samples.last() {
            Some(v) => v as nat,
            None => 0,
        }
    }
}

/// Some value is present in `samples`.
pub open spec fn any_present(samples: Seq<Option<u64>>) -> bool {
    exists|i: int| 0 <= i < samples.len() && #[trigger] samples[i] is Some
}

/// What reading a numeric `/proc` field gives: the value of the first `key`
/// line parsed as an unsigned integer no larger than `max`, if both succeed.
pub open spec fn proc_number(contents: Seq<char>, key: Seq<char>, max: nat) -> Option<nat> {
    match proc_field_value(contents, key) {
        Some(value) => parse_unsigned(value, max),
        None => None,
    }
}

proof fn lemma_present_sum_prefix(samples: Seq<Option<u64>>, k: int)
    requires
        0 <= k <= samples.len(),
    ensures
        present_sum(samples.take(k)) <= present_sum(samples),
    decreases samples.len(),
{
    if k < samples.len() {
        assert(samples.drop_last().take(k) =~= samples.take(k));
        lemma_present_sum_prefix(samples.drop_last(), k);
    } else {
        assert(samples.take(k) =~= samples);
    }
}

impl Process {
    /// The total of the `rchar` counters read from the game's thread-group
    /// leaders, one sample per leader (`None` where the leader is gone), or
    /// `None` when every leader is gone, that is, the game has exited.
    pub fn total_read_chars(samples: &Vec<Option<u64>>) -> (total: Option<u64>)
        requires
            present_sum(samples@) <= u64::MAX,
        ensures
            total == if any_present(samples@) {
                Some(present_sum(samples@) as u64)
            } else {
                None
            },
    {
        let mut sum: u64 = 0;
        let mut any_alive = false;
        let mut i: usize = 0;
        while i < samples.len()
            invariant
                i <= samples@.len(),
                present_sum(samples@) <= u64::MAX,
                sum as nat == present_sum(samples@.take(i as int)),
                any_alive == exists|m: int| 0 <= m < i && #[trigger] samples@[m] is Some,
            decreases samples@.len() - i,
        {
            assert(samples@.take(i + 1).drop_last() =~= samples@.take(i as int));
            proof {
                lemma_present_sum_prefix(samples@, i + 1);
            }
            match samples[i] {
                Some(rchar) => {
                    any_alive = true;
                    sum = sum + rchar;
                },
                None => {},
            }
            i = i + 1;
        }
        assert(samples@.take(i as int) =~= samples@);
        if any_alive {
            Some(sum)
        } else {
            None
        }
    }

    /// Whether [`Process::total_read_chars`] can add up `samples` in a `u64`.
    pub fn read_total_fits(samples: &Vec<Option<u64>>) -> (fits: bool)
        ensures
            fits == (present_sum(samples@) <= u64::MAX),
    {
        let mut sum: u64 = 0;
        let mut i: usize = 0;
        while i < samples.len()
            invariant
                i <= samples@.len(),
                sum as nat == present_sum(samples@.take(i as int)),
            decreases samples@.len() - i,
        {
            assert(samples@.take(i + 1).drop_last() =~= samples@.take(i as int));
            match samples[i] {
                Some(rchar) => {
                    if rchar > u64::MAX - sum {
                        proof {
                            lemma_present_sum_prefix(samples@, i + 1);
                        }
                        return false;
                    }
                    sum = sum + rchar;
                },
                None => {},
            }
            i = i + 1;
        }
        assert(samples@.take(i as int) =~= samples@);
        true
    }

    /// The thread-group id in the text of `/proc/<pid>/status`: the `Tgid:`
    /// field as a `u32`. Worker threads map to the process that owns them.
    pub fn tgid_from_status(status: &str) -> (tgid: Option<u32>)
        ensures
            match tgid {
                Some(v) => proc_number(status@, "Tgid:"@, u32::MAX as nat) == Some(v as nat),
                None => proc_number(status@, "Tgid:"@, u32::MAX as nat) is None,
            },
    {
        match proc_field(status, "Tgid:") {
            Some(value) => parse_u32(value.as_str()),
            None => None,
        }
    }

    /// The cumulative bytes read through read calls, in the text of
    /// `/proc/<tgid>/io`: the `rchar:` field as a `u64`.
    pub fn rchar_from_io(io: &str) -> (rchar: Option<u64>)
        ensures
            match rchar {
                Some(v) => proc_number(io@, "rchar:"@, u64::MAX as nat) == Some(v as nat),
                None => proc_number(io@, "rchar:"@, u64::MAX as nat) is None,
            },
    {
        match proc_field(io, "rchar:") {
            Some(value) => parse_u64(value.as_str()),
            None => None,
        }
    }

    /// The distinct thread-group leaders among `tgids`, the thread-group ids
    /// read for the game's processes (`None` where none could be read).
    pub fn thread_group_leaders(tgids: &Vec<Option<u32>>) -> (leaders: Vec<u32>)
        ensures
            leaders@.no_duplicates(),
            forall|tgid: u32|
                #[trigger] leaders@.contains(tgid) == exists|i: int|
                    0 <= i < tgids@.len() && tgids@[i] == Some(tgid),
    {
        let mut leaders: Vec<u32> = Vec::new();
        let mut i: usize = 0;
        while i < tgids.len()
            invariant
                i <= tgids@.len(),
                leaders@.no_duplicates(),
                forall|tgid: u32|
                    #[trigger] leaders@.contains(tgid) == exists|m: int|
                        0 <= m < i && tgids@[m] == Some(tgid),
            decreases tgids@.len() - i,
        {
            match tgids[i] {
                Some(tgid) => {
                    let ghost before = leaders@;
                    if !contains_pid(&leaders, tgid) {
                        leaders.push(tgid);
                        proof {
                            assert forall|a: int, b: int|
                                0 <= a < b < leaders@.len() implies leaders@[a] != leaders@[b] by {
                                if b == leaders@.len() - 1 {
                                    assert(before.contains(leaders@[a]));
                                }
                            }
                            assert forall|p: u32| leaders@.contains(p) == (p == tgid || before.contains(p)) by {
                                vstd::seq_lib::lemma_seq_contains_after_push(before, tgid, p);
                            }
                        }
                    }
                    assert forall|p: u32| #[trigger] leaders@.contains(p) == exists|m: int|
                        0 <= m < i + 1 && tgids@[m] == Some(p) by {
                        if p == tgid {
                            assert(tgids@[i as int] == Some(p));
                        } else {
                            assert(leaders@.contains(p) == before.contains(p));
                            if exists|m: int| 0 <= m < i + 1 && tgids@[m] == Some(p) {
                                let m = choose|m: int| 0 <= m < i + 1 && tgids@[m] == Some(p);
                                assert(m != i);
                            }
                        }
                    }
                },
                None => {
                    assert forall|p: u32| #[trigger] leaders@.contains(p) == exists|m: int|
                        0 <= m < i + 1 && tgids@[m] == Some(p) by {
                        if exists|m: int| 0 <= m < i + 1 && tgids@[m] == Some(p) {
                            let m = choose|m: int| 0 <= m < i + 1 && tgids@[m] == Some(p);
                            assert(m != i);
                        }
                    }
                },
            }
            i = i + 1;
        }
        leaders
    }
}

/// Whether `pid` is in `pids`.
fn contains_pid(pids: &Vec<u32>, pid: u32) -> (found: bool)
    ensures
        found == pids@.contains(pid),
{
    let mut k: usize = 0;
    while k < pids.len()
        invariant
            k <= pids@.len(),
            forall|m: int| 0 <= m < k ==> pids@[m] != pid,
        decreases pids@.len() - k,
    {
        if pids[k] == pid {
            return true;
        }
        k = k + 1;
    }
    false
}

} // verus!
