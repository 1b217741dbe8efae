use startup_millenium::config::{ConfigPlan, LoadedConfig, Platform, Settings, default_idle_read_threshold};
use startup_millenium::string_or_seq::{deserialize, NameList};
use startup_millenium::threshold::DEFAULT_IDLE_READ_THRESHOLD_BITS;

fn names(list: &[&str]) -> Vec<String> {
    list.iter().map(|s| s.to_string()).collect()
}

#[test]
fn test_default_threshold_is_ten_mb_per_second() {
    assert_eq!(f64::from_bits(default_idle_read_threshold()), 10.0);
    assert_eq!(DEFAULT_IDLE_READ_THRESHOLD_BITS, 10.0f64.to_bits());
}

#[test]
fn test_defaults_per_platform() {
    let linux = Settings::default_for(Platform::Linux);
    assert_eq!(linux.steam_app_id, 4000);
    assert_eq!(linux.process_names, names(&["hl2_linux", "gmod"]));
    assert_eq!(f64::from_bits(linux.idle_read_threshold_mb_s_bits), 10.0);
    let windows = Settings::default_for(Platform::Windows);
    assert_eq!(windows.process_names, names(&["gmod.exe"]));
    assert_eq!(windows.steam_app_id, 4000);
    let mac = Settings::default_for(Platform::MacOs);
    assert_eq!(mac.process_names, names(&["hl2_osx"]));
}

fn with_threshold(value: f64) -> Settings {
    Settings {
        steam_app_id: 4000,
        process_names: names(&["gmod.exe"]),
        idle_read_threshold_mb_s_bits: value.to_bits(),
    }
}

#[test]
fn test_nonpositive_or_nonfinite_threshold_normalizes_to_default() {
    for bad in [0.0, -0.0, -1.0, f64::NAN, f64::INFINITY, f64::NEG_INFINITY] {
        let mut settings = with_threshold(bad);
        settings.normalize();
        assert_eq!(f64::from_bits(settings.idle_read_threshold_mb_s_bits), 10.0);
        assert_eq!(settings.process_names, names(&["gmod.exe"]));
        assert_eq!(settings.steam_app_id, 4000);
    }
}

#[test]
fn test_positive_threshold_is_kept() {
    for good in [2.5, 10.0, 1e-300, f64::MIN_POSITIVE / 4.0, f64::MAX] {
        let mut settings = with_threshold(good);
        settings.normalize();
        assert_eq!(f64::from_bits(settings.idle_read_threshold_mb_s_bits), good);
    }
}

#[test]
fn test_normalize_twice_is_normalize_once() {
    let mut once = with_threshold(-3.0);
    once.normalize();
    let mut twice = once.clone();
    twice.normalize();
    assert_eq!(once, twice);
}

#[test]
fn test_resolve_parsed_config_normalizes() {
    match Settings::resolve_config(LoadedConfig::Parsed(with_threshold(0.0)), Platform::Linux) {
        ConfigPlan::Use(settings) => {
            assert_eq!(f64::from_bits(settings.idle_read_threshold_mb_s_bits), 10.0);
            assert_eq!(settings.process_names, names(&["gmod.exe"]));
        }
        ConfigPlan::Reset { .. } => panic!("a parsed config is used"),
    }
}

#[test]
fn test_resolve_missing_config_writes_defaults() {
    match Settings::resolve_config(LoadedConfig::Missing, Platform::Linux) {
        ConfigPlan::Reset { defaults, back_up_invalid } => {
            assert_eq!(defaults, Settings::default_for(Platform::Linux));
            assert!(!back_up_invalid);
        }
        ConfigPlan::Use(_) => panic!("a missing config is replaced"),
    }
}

#[test]
fn test_resolve_invalid_config_self_heals_with_backup() {
    match Settings::resolve_config(LoadedConfig::Invalid, Platform::Windows) {
        ConfigPlan::Reset { defaults, back_up_invalid } => {
            assert_eq!(defaults, Settings::default_for(Platform::Windows));
            assert!(back_up_invalid);
        }
        ConfigPlan::Use(_) => panic!("an invalid config is replaced"),
    }
}

#[test]
fn test_defaults_read_back_unchanged() {
    let defaults = Settings::default_for(Platform::Linux);
    match Settings::resolve_config(LoadedConfig::Parsed(defaults.clone()), Platform::Linux) {
        ConfigPlan::Use(settings) => assert_eq!(settings, defaults),
        ConfigPlan::Reset { .. } => panic!("parsed defaults are used"),
    }
}

#[test]
fn test_single_process_name_becomes_list() {
    assert_eq!(deserialize(NameList::One("gmod.exe".to_string())), names(&["gmod.exe"]));
}

#[test]
fn test_process_name_list_is_kept() {
    assert_eq!(
        deserialize(NameList::Many(names(&["hl2_linux", "gmod"]))),
        names(&["hl2_linux", "gmod"])
    );
    assert_eq!(deserialize(NameList::Many(Vec::new())), Vec::<String>::new());
}
