use texmodbot::textures::TextureLog;

fn names(list: &[&str]) -> Vec<String> {
    list.iter().map(|name| name.to_string()).collect()
}

#[test]
fn new_log_is_empty() {
    let log = TextureLog::new();
    assert_eq!(log.len(), 0);
    assert!(!log.contains(&"stone.png".to_string()));
}

#[test]
fn record_reports_each_name_once_in_order() {
    let mut log = TextureLog::new();
    let fresh = log.record(&names(&["stone.png", "dirt.png", "stone.png", "grass.png"]));
    assert_eq!(fresh, names(&["stone.png", "dirt.png", "grass.png"]));
    assert_eq!(log.len(), 3);
}

#[test]
fn record_passes_over_empty_names() {
    let mut log = TextureLog::new();
    let fresh = log.record(&names(&["", "stone.png", "", ""]));
    assert_eq!(fresh, names(&["stone.png"]));
    assert!(!log.contains(&String::new()));
    assert_eq!(log.len(), 1);
}

#[test]
fn record_remembers_across_calls() {
    let mut log = TextureLog::new();
    assert_eq!(log.record(&names(&["a.png", "b.png"])), names(&["a.png", "b.png"]));
    assert_eq!(log.record(&names(&["b.png", "c.png", "a.png"])), names(&["c.png"]));
    assert_eq!(log.record(&names(&["a.png", "b.png", "c.png"])), names(&[]));
    assert!(log.contains(&"a.png".to_string()));
    assert!(log.contains(&"c.png".to_string()));
    assert!(!log.contains(&"d.png".to_string()));
    assert_eq!(log.len(), 3);
}

#[test]
fn record_of_nothing_changes_nothing() {
    let mut log = TextureLog::new();
    log.record(&names(&["a.png"]));
    assert_eq!(log.record(&Vec::new()), names(&[]));
    assert_eq!(log.len(), 1);
}

#[test]
fn names_differ_by_case() {
    let mut log = TextureLog::new();
    assert_eq!(log.record(&names(&["a.png", "A.png"])), names(&["a.png", "A.png"]));
}
