use wordle::config::{Args, ConfigOverride, GameConfig};

#[test]
fn empty_config_sets_nothing() {
    let c = GameConfig::new();
    assert!(c.random.is_none() && c.difficult.is_none() && c.stats.is_none());
    assert!(c.day.is_none() && c.seed.is_none() && c.word.is_none());
    assert!(c.final_set.is_none() && c.acceptable_set.is_none() && c.state.is_none());
}

#[test]
fn config_with_day() {
    let c = GameConfig::new_with_day(5);
    assert_eq!(c.day, Some(5));
    assert!(c.seed.is_none() && c.random.is_none());
}

#[test]
fn config_fills_what_the_command_line_left_out() {
    let mut a = Args::default();
    a.day = Some(2);
    a.word = Some("crane".to_string());
    let mut c = GameConfig::new();
    c.random = Some(true);
    c.difficult = Some(false);
    c.day = Some(9);
    c.seed = Some(77);
    c.word = Some("apple".to_string());
    c.state = Some("state.json".to_string());
    ConfigOverride(&mut a, c);
    assert!(a.random);
    assert!(!a.difficult);
    assert_eq!(a.day, Some(2));
    assert_eq!(a.seed, Some(77));
    assert_eq!(a.word, Some("crane".to_string()));
    assert_eq!(a.state, Some("state.json".to_string()));
    assert!(a.final_set.is_none());
}

#[test]
fn config_cannot_turn_a_switch_off() {
    let mut a = Args::default();
    a.stats = true;
    a.difficult = true;
    let mut c = GameConfig::new();
    c.stats = Some(false);
    c.difficult = Some(false);
    ConfigOverride(&mut a, c);
    assert!(a.stats);
    assert!(a.difficult);
}
