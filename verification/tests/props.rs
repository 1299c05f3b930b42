use mcdebug_launcher::props::PropertiesFile;

const SAMPLE: &str = "# MOTD line\nmotd=hello\n\nserver-port=25565\n# trailing\nonline-mode=false\n";

fn sample() -> PropertiesFile {
    PropertiesFile::from_lines(SAMPLE.lines().map(String::from).collect())
}

#[test]
fn test_get_scans_pairs_and_skips_comments() {
    let p = sample();
    assert_eq!(p.get("motd"), Some("hello".to_string()));
    assert_eq!(p.get("server-port"), Some("25565".to_string()));
    assert_eq!(p.get_bool("online-mode"), Some(false));
    assert_eq!(p.get("missing"), None);
}

#[test]
fn test_set_existing_preserves_comments_and_order() {
    let mut p = sample();
    p.set("motd", "changed");
    assert_eq!(p.get("motd"), Some("changed".to_string()));
    let joined = p.lines().join("\n");
    assert!(joined.contains("# MOTD line"));
    assert!(joined.contains("# trailing"));
    let motd_idx = joined.find("motd=").unwrap();
    let port_idx = joined.find("server-port=").unwrap();
    assert!(motd_idx < port_idx);
}

#[test]
fn test_set_new_appends_and_dedups() {
    let mut p = sample();
    p.set("view-distance", "12");
    p.set("view-distance", "8");
    p.set("motd", "x");
    let pairs = p.pairs();
    assert_eq!(pairs.iter().filter(|q| q.key == "view-distance").count(), 1);
    assert_eq!(pairs.iter().filter(|q| q.key == "motd").count(), 1);
    assert_eq!(p.get("view-distance"), Some("8".to_string()));
}

#[test]
fn test_remove_key() {
    let mut p = sample();
    assert!(p.remove("online-mode"));
    assert_eq!(p.get("online-mode"), None);
    assert!(!p.remove("never-existed"));
}

#[test]
fn text_roundtrip_keeps_values() {
    let mut p = sample();
    p.set("max-players", "20");
    let text = p.to_text();
    assert!(text.ends_with('\n'));
    let back = PropertiesFile::from_text(&text);
    assert_eq!(back.get("max-players"), Some("20".to_string()));
    assert_eq!(back.get_bool("online-mode"), Some(false));
}

#[test]
fn set_collapses_duplicate_rows_in_place() {
    let mut p = PropertiesFile::from_lines(vec![
        "a=1".to_string(),
        "# note".to_string(),
        "a=2".to_string(),
        "b = 3 ".to_string(),
    ]);
    p.set("a", "9");
    assert_eq!(p.lines(), &vec!["a=9".to_string(), "# note".to_string(), "b = 3 ".to_string()]);
    assert_eq!(p.get("b"), Some("3".to_string()));
    assert_eq!(p.get_bool("b"), None);
}

#[test]
fn comment_and_bang_rows_are_not_pairs() {
    let p = PropertiesFile::from_lines(vec!["!x=1".to_string(), "  #y=2".to_string(), "novalue".to_string()]);
    assert!(p.pairs().is_empty());
    assert_eq!(PropertiesFile::from_lines(Vec::new()).to_text(), "");
}
