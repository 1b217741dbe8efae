use startup_millenium::config::{Platform, Settings};
use startup_millenium::process::Process;

fn settings(app_id: u32, names: &[&str]) -> Settings {
    Settings {
        steam_app_id: app_id,
        process_names: names.iter().map(|s| s.to_string()).collect(),
        idle_read_threshold_mb_s_bits: 10.0f64.to_bits(),
    }
}

#[test]
fn test_launch_url() {
    let process = Process::new(&settings(4000, &["gmod.exe"]));
    assert_eq!(process.launch_url(), "steam://rungameid/4000");
    let other = Process::new(&settings(0, &[]));
    assert_eq!(other.launch_url(), "steam://rungameid/0");
    assert_eq!(process.idle_read_threshold_bits(), 10.0f64.to_bits());
}

#[test]
fn test_url_opener_per_platform() {
    let url = "steam://rungameid/4000";
    let windows = Process::url_opener(Platform::Windows, url);
    assert_eq!(windows.program, "cmd");
    assert_eq!(windows.args, vec!["/C".to_string(), "start".to_string(), String::new(), url.to_string()]);
    let linux = Process::url_opener(Platform::Linux, url);
    assert_eq!(linux.program, "xdg-open");
    assert_eq!(linux.args, vec![url.to_string()]);
    let mac = Process::url_opener(Platform::MacOs, url);
    assert_eq!(mac.program, "open");
    assert_eq!(mac.args, vec![url.to_string()]);
}

#[test]
fn test_total_read_chars() {
    assert_eq!(Process::total_read_chars(&vec![Some(5), None, Some(7)]), Some(12));
    assert_eq!(Process::total_read_chars(&vec![None, Some(0)]), Some(0));
    assert_eq!(Process::total_read_chars(&vec![None, None]), None);
    assert_eq!(Process::total_read_chars(&vec![]), None);
}

#[test]
fn test_read_total_fits() {
    assert!(Process::read_total_fits(&vec![Some(u64::MAX), None, Some(0)]));
    assert!(!Process::read_total_fits(&vec![Some(u64::MAX), Some(1)]));
    assert!(Process::read_total_fits(&vec![]));
}

#[test]
fn test_tgid_and_rchar_parsing() {
    let status = "Name:\tgmod\nTgid:\t31337\nPid:\t31340\n";
    assert_eq!(Process::tgid_from_status(status), Some(31337));
    assert_eq!(Process::tgid_from_status("Tgid:\tnot-a-number\n"), None);
    assert_eq!(Process::tgid_from_status("Pid:\t1\n"), None);
    let io = "rchar: 123456789012\nwchar: 5\nsyscr: 1\n";
    assert_eq!(Process::rchar_from_io(io), Some(123456789012));
    assert_eq!(Process::rchar_from_io("wchar: 5\n"), None);
}

#[test]
fn test_thread_group_leaders_are_distinct() {
    let mut leaders = Process::thread_group_leaders(&vec![Some(10), None, Some(10), Some(3), Some(10)]);
    leaders.sort();
    assert_eq!(leaders, vec![3, 10]);
    assert!(Process::thread_group_leaders(&vec![None]).is_empty());
}

#[test]
fn test_find_game_pids_on_empty_snapshot() {
    let system = sysinfo::System::new().expect("system");
    let process = Process::new(&settings(4000, &["gmod"]));
    assert!(process.find_game_pids(&system).is_empty());
}

#[test]
fn test_find_game_pids_matches_every_process_once() {
    let mut system = sysinfo::System::new().expect("system");
    system.refresh_processes(sysinfo::ProcessesToUpdate::All, true);
    // The empty name occurs in every process name; listing it twice must not repeat pids.
    let process = Process::new(&settings(4000, &["", ""]));
    let mut pids = process.find_game_pids(&system);
    let count = pids.len();
    pids.sort();
    pids.dedup();
    assert_eq!(pids.len(), count);
    let mut expected: Vec<u32> = system.processes().keys().map(|pid| pid.as_u32()).collect();
    expected.sort();
    assert_eq!(pids, expected);
}

#[test]
fn test_find_game_pids_by_substring() {
    let mut system = sysinfo::System::new().expect("system");
    system.refresh_processes(sysinfo::ProcessesToUpdate::All, true);
    let process = Process::new(&settings(4000, &["no-such-process-name-xyz"]));
    assert!(process.find_game_pids(&system).is_empty());
}
