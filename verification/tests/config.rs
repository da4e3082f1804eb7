use per::config::RecorderConfig;

#[test]
fn documented_defaults() {
    let config = RecorderConfig::default();
    assert_eq!(config.split_minutes, 60);
    assert!(!config.aligned);
    assert_eq!(config.quality, 2);
    assert_eq!(config.bitrate_kbps, 128);
    assert_eq!(config.channels, 2);
    assert!(config.is_valid());
}

#[test]
fn split_seconds_converts_minutes() {
    let config = RecorderConfig {
        split_minutes: 15,
        ..RecorderConfig::default()
    };
    assert_eq!(config.split_seconds(), 900);
}

#[test]
fn invalid_configurations_are_reported() {
    let zero_split = RecorderConfig {
        split_minutes: 0,
        ..RecorderConfig::default()
    };
    assert!(!zero_split.is_valid());
    let bad_quality = RecorderConfig {
        quality: 10,
        ..RecorderConfig::default()
    };
    assert!(!bad_quality.is_valid());
    let no_bitrate = RecorderConfig {
        bitrate_kbps: 0,
        ..RecorderConfig::default()
    };
    assert!(!no_bitrate.is_valid());
}
