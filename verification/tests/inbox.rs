use rex_cli::inbox::{is_json_file, name_lt, oldest_inbox_entry};

fn names(v: &[&str]) -> Vec<String> {
    v.iter().map(|s| s.to_string()).collect()
}

#[test]
fn json_extension_needs_a_stem() {
    assert!(is_json_file("1700000000.json"));
    assert!(!is_json_file(".json"));
    assert!(!is_json_file("17.json.tmp"));
    assert!(!is_json_file("notes.txt"));
    assert!(is_json_file("a.json"));
}

#[test]
fn names_compare_by_characters_then_length() {
    assert!(name_lt("100.json", "200.json"));
    assert!(!name_lt("200.json", "100.json"));
    assert!(name_lt("abc", "abcd"));
    assert!(!name_lt("abc", "abc"));
    assert!(name_lt("Z", "a"));
}

#[test]
fn oldest_entry_is_the_first_json_name_in_order() {
    let v = names(&["300.json", "100.json.tmp", "200.json", "250.json", "x.txt"]);
    assert_eq!(oldest_inbox_entry(&v), Some(2));
    assert_eq!(oldest_inbox_entry(&names(&["a.tmp", "b.txt"])), None);
    assert_eq!(oldest_inbox_entry(&[]), None);
}
