use waypoint::config::{ConfigStore, ServiceConfig};

#[test]
fn new_store_is_empty() {
    let store = ConfigStore::new();
    assert_eq!(store.records().len(), 0);
    assert!(store.get(&String::from("anything")).is_none());
}

#[test]
fn add_then_get_returns_the_path() {
    let mut store = ConfigStore::new();
    store.add(String::from("/bin/echo_loop"), String::from("echoer"));
    let cfg = store.get(&String::from("echoer")).expect("config just added");
    assert_eq!(cfg.path, "/bin/echo_loop");
    assert_eq!(cfg.display_name, "echoer");
}

#[test]
fn re_adding_a_name_overwrites_in_place() {
    let mut store = ConfigStore::new();
    store.add(String::from("/old/path"), String::from("svc"));
    store.add(String::from("/bin/other"), String::from("other"));
    store.add(String::from("/new/path"), String::from("svc"));
    let records = store.records();
    assert_eq!(records.len(), 2);
    assert_eq!(records[0].display_name, "svc");
    assert_eq!(records[0].path, "/new/path");
    assert_eq!(records[1].display_name, "other");
    let cfg = store.get(&String::from("svc")).expect("overwritten config");
    assert_eq!(cfg.path, "/new/path");
}

#[test]
fn records_round_trip_through_a_fresh_load() {
    let mut store = ConfigStore::new();
    store.add(String::from("/bin/echo_loop"), String::from("echoer"));
    store.add(String::from("/usr/bin/worker"), String::from("worker"));
    store.add(String::from("/bin/echo_loop2"), String::from("echoer"));

    let saved = store.records();
    let mut reloaded = ConfigStore::new();
    reloaded.load_records(saved);

    let records = reloaded.records();
    assert_eq!(records.len(), 2);
    assert_eq!(records[0].display_name, "echoer");
    assert_eq!(records[0].path, "/bin/echo_loop2");
    assert_eq!(records[1].display_name, "worker");
    assert_eq!(records[1].path, "/usr/bin/worker");
    let cfg = reloaded.get(&String::from("echoer")).expect("reloaded config");
    assert_eq!(cfg.path, "/bin/echo_loop2");
}

#[test]
fn loading_duplicate_names_keeps_the_last_record() {
    let mut store = ConfigStore::new();
    store.load_records(vec![
        ServiceConfig { path: String::from("/first"), display_name: String::from("svc") },
        ServiceConfig { path: String::from("/second"), display_name: String::from("svc") },
    ]);
    let records = store.records();
    assert_eq!(records.len(), 1);
    assert_eq!(records[0].path, "/second");
}

#[test]
fn loading_into_a_populated_store_overwrites_by_name() {
    let mut store = ConfigStore::new();
    store.add(String::from("/stale"), String::from("svc"));
    store.load_records(vec![ServiceConfig {
        path: String::from("/fresh"),
        display_name: String::from("svc"),
    }]);
    let records = store.records();
    assert_eq!(records.len(), 1);
    assert_eq!(records[0].path, "/fresh");
}
