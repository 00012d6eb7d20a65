use wordle::stats::Stats;

fn words(ws: &[&str]) -> Vec<String> {
    ws.iter().map(|w| w.to_string()).collect()
}

#[test]
fn fresh_stats_are_empty() {
    let s = Stats::new();
    assert_eq!(s.wins(), 0);
    assert_eq!(s.losses(), 0);
    assert_eq!(s.total(), 0);
    assert_eq!(s.win_rounds(), 0);
    assert!(s.top_words(5).is_empty());
}

#[test]
fn a_win_counts_its_guesses_as_rounds() {
    let mut s = Stats::new();
    s.record(&"APPLE".to_string(), &words(&["BEAST", "APPLE"]));
    assert_eq!(s.wins(), 1);
    assert_eq!(s.losses(), 0);
    assert_eq!(s.win_rounds(), 2);
    assert_eq!(s.guess_total(), 2);
}

#[test]
fn a_loss_adds_no_rounds() {
    let mut s = Stats::new();
    s.record(&"APPLE".to_string(), &words(&["BEAST", "CRANE", "CRATE", "COUNT", "GRAPE", "HOUSE"]));
    assert_eq!(s.wins(), 0);
    assert_eq!(s.losses(), 1);
    assert_eq!(s.win_rounds(), 0);
    assert_eq!(s.guess_total(), 6);
}

#[test]
fn words_are_counted_across_sessions() {
    let mut s = Stats::new();
    s.record(&"APPLE".to_string(), &words(&["BEAST", "APPLE"]));
    s.record(&"CRANE".to_string(), &words(&["BEAST", "CRATE", "CRANE"]));
    assert_eq!(s.count_of(&"BEAST".to_string()), 2);
    assert_eq!(s.count_of(&"CRANE".to_string()), 1);
    assert_eq!(s.count_of(&"HOUSE".to_string()), 0);
    assert_eq!(s.wins(), 2);
    assert_eq!(s.win_rounds(), 5);
}

#[test]
fn top_words_by_count_then_by_word() {
    let mut s = Stats::new();
    s.record(&"APPLE".to_string(), &words(&["CRANE", "BEAST", "APPLE"]));
    s.record(&"HOUSE".to_string(), &words(&["CRANE", "BEAST", "HOUSE"]));
    s.record(&"GRAPE".to_string(), &words(&["ZEBRA", "GRAPE"]));
    let top = s.top_words(3);
    assert_eq!(
        top,
        vec![("BEAST".to_string(), 2), ("CRANE".to_string(), 2), ("APPLE".to_string(), 1)]
    );
    assert_eq!(s.top_words(10).len(), 6);
    assert_eq!(s.top_words(10)[5], ("ZEBRA".to_string(), 1));
    assert!(s.top_words(0).is_empty());
}
