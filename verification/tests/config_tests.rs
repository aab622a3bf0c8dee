use parse_to_parquet::config::{
    default_debounce_ms, default_input_dir, default_output_dir, default_poll_interval,
    load_config_with_overrides, Config, GeneralConfig, WatchConfig,
};

#[test]
fn built_in_defaults() {
    assert_eq!(default_input_dir(), "./input");
    assert_eq!(default_output_dir(), "./output");
    assert_eq!(default_poll_interval(), 2);
    assert_eq!(default_debounce_ms(), 500);
    let c = Config::default();
    assert_eq!(c.general.input_dir, "./input");
    assert_eq!(c.general.output_dir, "./output");
    assert!(!c.general.recursive);
    assert!(!c.general.delete_source);
    assert!(c.general.default_sheet.is_none());
    assert_eq!(c.watch.poll_interval_secs, 2);
    assert_eq!(c.watch.debounce_ms, 500);
}

#[test]
fn generate_default_matches_the_defaults() {
    let c = Config::generate_default();
    assert_eq!(c.general.input_dir, "./input");
    assert_eq!(c.watch.debounce_ms, 500);
}

#[test]
fn overrides_replace_directories_and_only_raise_flags() {
    let mut g = GeneralConfig::default();
    g.apply_overrides(Some("in2".to_string()), None, true, false);
    assert_eq!(g.input_dir, "in2");
    assert_eq!(g.output_dir, "./output");
    assert!(g.delete_source);
    assert!(!g.recursive);

    let mut g2 = GeneralConfig {
        input_dir: "a".to_string(),
        output_dir: "b".to_string(),
        recursive: true,
        delete_source: true,
        default_sheet: Some("S".to_string()),
    };
    g2.apply_overrides(None, Some("c".to_string()), false, false);
    assert_eq!(g2.input_dir, "a");
    assert_eq!(g2.output_dir, "c");
    assert!(g2.recursive);
    assert!(g2.delete_source);
    assert_eq!(g2.default_sheet, Some("S".to_string()));
}

#[test]
fn loading_without_a_file_applies_overrides_to_defaults() {
    let c = load_config_with_overrides(None, Some("din".to_string()), None, false, true);
    assert_eq!(c.general.input_dir, "din");
    assert_eq!(c.general.output_dir, "./output");
    assert!(c.general.recursive);
    assert!(!c.general.delete_source);
    assert_eq!(c.watch.poll_interval_secs, 2);
}

#[test]
fn loading_with_a_file_keeps_its_values_unless_overridden() {
    let loaded = Config {
        general: GeneralConfig {
            input_dir: "filein".to_string(),
            output_dir: "fileout".to_string(),
            recursive: false,
            delete_source: true,
            default_sheet: Some("Data".to_string()),
        },
        watch: WatchConfig { poll_interval_secs: 9, debounce_ms: 50 },
    };
    let c = load_config_with_overrides(Some(loaded), None, Some("cli_out".to_string()), false, false);
    assert_eq!(c.general.input_dir, "filein");
    assert_eq!(c.general.output_dir, "cli_out");
    assert!(c.general.delete_source);
    assert!(!c.general.recursive);
    assert_eq!(c.general.default_sheet, Some("Data".to_string()));
    assert_eq!(c.watch.poll_interval_secs, 9);
    assert_eq!(c.watch.debounce_ms, 50);
}
