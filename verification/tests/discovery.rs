use rex_cli::discovery::{keep_unseen, should_descend, within_depth};

#[test]
fn scan_skips_hidden_and_known_directories() {
    assert!(should_descend("projects"));
    assert!(should_descend("src"));
    assert!(!should_descend(".config"));
    assert!(!should_descend("node_modules"));
    assert!(!should_descend("target"));
    assert!(!should_descend("venv"));
    assert!(!should_descend("Library"));
    assert!(should_descend("targets"));
    assert!(should_descend(""));
}

#[test]
fn scan_stops_below_the_depth_limit() {
    assert!(within_depth(0));
    assert!(within_depth(8));
    assert!(!within_depth(9));
}

#[test]
fn first_found_project_wins() {
    let mut seen = vec!["alpha".to_string()];
    let ids = vec!["beta".to_string(), "alpha".to_string(), "gamma".to_string(), "beta".to_string()];
    let kept = keep_unseen(&mut seen, &ids);
    assert_eq!(kept, vec![0, 2]);
    assert_eq!(seen, vec!["alpha".to_string(), "beta".to_string(), "gamma".to_string()]);
    let again = keep_unseen(&mut seen, &ids);
    assert!(again.is_empty());
}
