use xmouse::action::ActionKind;
use xmouse::config::{
    default_action, default_gesture_bindings, forget_samples, learn_sample, migrate_config,
    upgrade_loaded_config, AppConfig, ConfigError, GestureBinding, TriggerButton,
    CURRENT_SCHEMA_VERSION, DEFAULT_SEARCH_URL, LEGACY_BING_SEARCH_URL,
};
use xmouse::gesture::{GestureId, Point, UserGestureTemplate, SAMPLE_COUNT};

fn diagonal_sample(gesture: GestureId) -> UserGestureTemplate {
    let points = (0..64)
        .map(|index| Point::new((index as f32).to_bits(), (index as f32).to_bits()))
        .collect();
    UserGestureTemplate { gesture, points }
}

fn all_normalize(config: &AppConfig) -> Vec<bool> {
    vec![true; config.custom_gestures.len()]
}

#[test]
fn older_config_defaults_to_no_personalized_gestures() {
    let config = AppConfig::default();
    assert!(config.custom_gestures.is_empty());
    assert!(config.gesture_guard.disable_in_fullscreen_apps);
    assert!(config.gesture_guard.excluded_processes.is_empty());
    assert!(config.history.auto_paste);
    assert_eq!(config.action_for(GestureId::LetterS), ActionKind::SearchSelection);
    assert_eq!(config.action_for(GestureId::Left), ActionKind::SwitchDesktopRight);
    assert_eq!(config.action_for(GestureId::Right), ActionKind::SwitchDesktopLeft);
    assert_eq!(config.action_for(GestureId::Seven), ActionKind::TaskManager);
    assert_eq!(config.action_for(GestureId::Circle), ActionKind::ScreenSnip);
    config.validate(&all_normalize(&config)).expect("default remains valid");
}

#[test]
fn limits_personalized_samples_per_action() {
    let sample = diagonal_sample(GestureId::LetterS);
    assert!(sample.is_valid(true));
    let mut config = AppConfig::default();
    config.custom_gestures = vec![sample.clone(), sample.clone(), sample.clone(), sample];
    assert!(config.validate(&all_normalize(&config)).is_err());
}

#[test]
fn gesture_bindings_are_customizable_and_reject_duplicates() {
    let mut config = AppConfig::default();
    config.set_action(GestureId::LetterC, ActionKind::Paste);
    assert_eq!(config.action_for(GestureId::LetterC), ActionKind::Paste);
    config.validate(&all_normalize(&config)).unwrap();

    config.gesture_bindings.push(GestureBinding {
        gesture: GestureId::LetterC,
        action: ActionKind::CopySelection,
    });
    assert!(config.validate(&all_normalize(&config)).is_err());
}

#[test]
fn schema_one_desktop_defaults_are_reversed_during_migration() {
    let mut config = AppConfig::default();
    config.schema_version = 1;
    config
        .gesture_bindings
        .retain(|binding| !matches!(binding.gesture, GestureId::Seven | GestureId::Circle));
    config.set_action(GestureId::Left, ActionKind::SwitchDesktopLeft);
    config.set_action(GestureId::Right, ActionKind::SwitchDesktopRight);

    assert!(migrate_config(&mut config).unwrap());
    assert_eq!(config.schema_version, CURRENT_SCHEMA_VERSION);
    assert_eq!(config.action_for(GestureId::Left), ActionKind::SwitchDesktopRight);
    assert_eq!(config.action_for(GestureId::Right), ActionKind::SwitchDesktopLeft);
    assert_eq!(config.action_for(GestureId::Seven), ActionKind::TaskManager);
    assert_eq!(config.action_for(GestureId::Circle), ActionKind::ScreenSnip);
}

#[test]
fn migration_preserves_custom_desktop_actions() {
    let mut config = AppConfig::default();
    config.schema_version = 1;
    config.set_action(GestureId::Left, ActionKind::BrowserBack);
    config.set_action(GestureId::Right, ActionKind::BrowserForward);

    migrate_config(&mut config).unwrap();
    assert_eq!(config.action_for(GestureId::Left), ActionKind::BrowserBack);
    assert_eq!(config.action_for(GestureId::Right), ActionKind::BrowserForward);
}

#[test]
fn binding_read_after_write_leaves_other_gestures() {
    let mut config = AppConfig::default();
    config.set_action(GestureId::Up, ActionKind::VolumeUp);
    assert_eq!(config.action_for(GestureId::Up), ActionKind::VolumeUp);
    assert_eq!(config.action_for(GestureId::LetterL), ActionKind::CloseTab);
    assert_eq!(config.gesture_bindings.len(), 9);
    config.set_action(GestureId::Up, ActionKind::Disabled);
    assert_eq!(config.action_for(GestureId::Up), ActionKind::Disabled);
    assert_eq!(config.gesture_bindings.len(), 9);
}

#[test]
fn unbound_gesture_takes_its_default_and_binding_appends() {
    let mut config = AppConfig::default();
    config.gesture_bindings.clear();
    assert_eq!(config.action_for(GestureId::Left), ActionKind::SwitchDesktopRight);
    config.set_action(GestureId::Circle, ActionKind::Paste);
    assert_eq!(config.gesture_bindings.len(), 1);
    assert_eq!(config.gesture_bindings[0], GestureBinding { gesture: GestureId::Circle, action: ActionKind::Paste });
    config.validate(&Vec::new()).unwrap();
}

#[test]
fn first_binding_wins_when_duplicated() {
    let mut config = AppConfig::default();
    config.gesture_bindings = vec![
        GestureBinding { gesture: GestureId::Up, action: ActionKind::Paste },
        GestureBinding { gesture: GestureId::Up, action: ActionKind::TaskView },
    ];
    assert_eq!(config.action_for(GestureId::Up), ActionKind::Paste);
    assert_eq!(config.validate(&Vec::new()), Err(ConfigError::DuplicateBinding(GestureId::Up)));
}

#[test]
fn default_actions_and_bindings() {
    assert_eq!(default_action(GestureId::Up), ActionKind::ToggleTopmost);
    assert_eq!(default_action(GestureId::LetterL), ActionKind::CloseTab);
    assert_eq!(default_action(GestureId::LetterV), ActionKind::OpenHistory);
    let bindings = default_gesture_bindings();
    assert_eq!(bindings.len(), 9);
    for (binding, gesture) in bindings.iter().zip(GestureId::ALL) {
        assert_eq!(binding.gesture, gesture);
        assert_eq!(binding.action, default_action(gesture));
    }
}

#[test]
fn validate_reports_each_problem_in_order() {
    let base = AppConfig::default();

    let mut c = base.clone();
    c.schema_version = 3;
    assert_eq!(c.validate(&Vec::new()), Err(ConfigError::UnsupportedVersion(3)));
    assert_eq!(ConfigError::UnsupportedVersion(3).message(), "不支持的配置版本 3");

    let mut c = base.clone();
    c.activation_delay_ms = 49;
    assert_eq!(c.validate(&Vec::new()), Err(ConfigError::ActivationDelay));
    c.activation_delay_ms = 1000;
    assert_eq!(c.validate(&Vec::new()), Ok(()));
    c.activation_delay_ms = 1001;
    assert_eq!(c.validate(&Vec::new()), Err(ConfigError::ActivationDelay));

    let mut c = base.clone();
    c.activation_distance_dip = 80.0f32.to_bits();
    assert_eq!(c.validate(&Vec::new()), Ok(()));
    c.activation_distance_dip = 80.5f32.to_bits();
    assert_eq!(c.validate(&Vec::new()), Err(ConfigError::ActivationDistance));
    c.activation_distance_dip = f32::NAN.to_bits();
    assert_eq!(c.validate(&Vec::new()), Err(ConfigError::ActivationDistance));
    c.activation_distance_dip = (-5.0f32).to_bits();
    assert_eq!(c.validate(&Vec::new()), Err(ConfigError::ActivationDistance));

    let mut c = base.clone();
    c.minimum_stroke_length_dip = 11.9f32.to_bits();
    assert_eq!(c.validate(&Vec::new()), Err(ConfigError::MinimumStrokeLength));

    let mut c = base.clone();
    c.recognition_threshold = 0.60f32.to_bits();
    assert_eq!(c.validate(&Vec::new()), Ok(()));
    c.recognition_threshold = 0.99f32.to_bits();
    assert_eq!(c.validate(&Vec::new()), Err(ConfigError::RecognitionThreshold));

    let mut c = base.clone();
    c.search_url_template = "https://example.com/?q=".to_string();
    assert_eq!(c.validate(&Vec::new()), Err(ConfigError::SearchUrlTemplate));

    let mut c = base.clone();
    c.custom_gestures = (0..28).map(|i| diagonal_sample(GestureId::ALL[i % 9])).collect();
    assert_eq!(c.validate(&all_normalize(&c)), Err(ConfigError::TooManySamples));

    let mut c = base.clone();
    c.custom_gestures = vec![diagonal_sample(GestureId::Circle); 4];
    c.custom_gestures.extend(vec![diagonal_sample(GestureId::Left); 4]);
    assert_eq!(c.validate(&all_normalize(&c)), Err(ConfigError::TooManySamplesFor(GestureId::Left)));
    assert_eq!(ConfigError::TooManySamplesFor(GestureId::Left).message(), "← 左划 的个性化样本超过 3 个");

    let mut c = base.clone();
    c.custom_gestures = vec![diagonal_sample(GestureId::Up)];
    assert_eq!(c.validate(&vec![false]), Err(ConfigError::CorruptSample));
    c.custom_gestures[0].points.pop();
    assert_eq!(c.validate(&vec![true]), Err(ConfigError::CorruptSample));
    let mut c = base.clone();
    let mut sample = diagonal_sample(GestureId::Up);
    sample.points[5].y = f32::INFINITY.to_bits();
    assert!(!sample.is_well_shaped());
    c.custom_gestures = vec![sample];
    assert_eq!(c.validate(&vec![true]), Err(ConfigError::CorruptSample));

    let mut c = base.clone();
    c.gesture_bindings.push(GestureBinding { gesture: GestureId::Up, action: ActionKind::Paste });
    assert_eq!(c.validate(&Vec::new()), Err(ConfigError::TooManyBindings));

    let mut c = base.clone();
    c.gesture_guard.excluded_processes = vec!["game.exe".to_string(), " \t".to_string()];
    assert_eq!(c.validate(&Vec::new()), Err(ConfigError::GestureExclusions));
    c.gesture_guard.excluded_processes = vec!["a".repeat(260)];
    assert_eq!(c.validate(&Vec::new()), Ok(()));
    c.gesture_guard.excluded_processes = vec!["中".repeat(87)];
    assert_eq!(c.validate(&Vec::new()), Err(ConfigError::GestureExclusions));
    c.gesture_guard.excluded_processes = vec!["x.exe".to_string(); 257];
    assert_eq!(c.validate(&Vec::new()), Err(ConfigError::GestureExclusions));

    let mut c = base.clone();
    c.history.max_items = 9;
    assert_eq!(c.validate(&Vec::new()), Err(ConfigError::HistoryItems));
    assert_eq!(ConfigError::HistoryItems.message(), "历史数量必须在 10–10000 之间");

    let mut c = base.clone();
    c.history.max_disk_mib = 16_385;
    assert_eq!(c.validate(&Vec::new()), Err(ConfigError::HistoryDisk));
}

#[test]
fn unknown_schema_is_refused_and_left_alone() {
    let mut config = AppConfig::default();
    config.schema_version = 7;
    config.gesture_bindings.clear();
    assert_eq!(migrate_config(&mut config), Err(ConfigError::UnsupportedVersion(7)));
    assert_eq!(config.schema_version, 7);
    assert!(config.gesture_bindings.is_empty());
    let mut current = AppConfig::default();
    assert_eq!(migrate_config(&mut current), Ok(false));
}

#[test]
fn loaded_config_replaces_the_old_default_search() {
    let mut config = AppConfig::default();
    config.search_url_template = LEGACY_BING_SEARCH_URL.to_string();
    assert_eq!(upgrade_loaded_config(&mut config, &Vec::new()), Ok(true));
    assert_eq!(config.search_url_template, DEFAULT_SEARCH_URL);

    let mut config = AppConfig::default();
    assert_eq!(upgrade_loaded_config(&mut config, &Vec::new()), Ok(false));

    let mut config = AppConfig::default();
    config.schema_version = 1;
    config.trigger = TriggerButton::X2;
    assert_eq!(upgrade_loaded_config(&mut config, &Vec::new()), Ok(true));
    assert_eq!(config.trigger, TriggerButton::X2);

    let mut config = AppConfig::default();
    config.history.max_items = 5;
    assert_eq!(upgrade_loaded_config(&mut config, &Vec::new()), Err(ConfigError::HistoryItems));
}

#[test]
fn learning_keeps_the_two_newest_samples_of_a_gesture() {
    let mut samples = Vec::new();
    for index in 0..5u32 {
        let mut sample = diagonal_sample(GestureId::LetterV);
        sample.points[0].x = index;
        learn_sample(&mut samples, sample);
        learn_sample(&mut samples, diagonal_sample(GestureId::Up));
    }
    let v: Vec<u32> = samples
        .iter()
        .filter(|s| s.gesture == GestureId::LetterV)
        .map(|s| s.points[0].x)
        .collect();
    assert_eq!(v, vec![2, 3, 4]);
    assert_eq!(samples.iter().filter(|s| s.gesture == GestureId::Up).count(), 3);
    assert_eq!(samples.last().unwrap().gesture, GestureId::Up);
    assert_eq!(samples[0].points.len(), SAMPLE_COUNT);

    forget_samples(&mut samples, GestureId::Up);
    assert_eq!(samples.len(), 3);
    assert!(samples.iter().all(|s| s.gesture == GestureId::LetterV));
}
