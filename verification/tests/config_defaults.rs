use rauc_health::config::{default_ignore_exact, default_ignore_prefixes, HealthConfig};

#[test]
fn default_config_requires_and_tracks_nothing() {
    let cfg = HealthConfig::default();
    assert!(cfg.required_services.is_empty());
    assert!(cfg.optional_services.is_empty());
}

#[test]
fn default_config_ignores_the_sentinel_services() {
    let cfg = HealthConfig::default();
    assert!(cfg.ignore_exact.contains(&"local".to_string()));
    assert!(cfg.ignore_exact.contains(&"time-first-boot".to_string()));
    assert!(cfg.ignore_prefixes.contains(&"getty.".to_string()));
    assert!(cfg.ignore_prefixes.contains(&"agetty.".to_string()));
}

#[test]
fn default_ignore_lists_have_exact_contents() {
    assert_eq!(default_ignore_exact(), vec!["time-first-boot", "local"]);
    assert_eq!(default_ignore_prefixes(), vec!["getty.", "agetty."]);
}
