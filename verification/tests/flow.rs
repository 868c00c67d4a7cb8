use trade_flow::flow::Flow;
use trade_flow::store::FlowStore;

#[test]
fn parse_well_formed_definition() {
    let f = Flow::from_file("name=alpha\ndescription=first flow\nversion=v1.0").unwrap();
    assert_eq!(f.name, "alpha");
    assert_eq!(f.description, "first flow");
    assert_eq!(f.version, "v1.0");
}

#[test]
fn parse_allows_empty_values() {
    let f = Flow::from_file("name=\ndescription=\nversion=").unwrap();
    assert_eq!(f.name, "");
    assert_eq!(f.description, "");
    assert_eq!(f.version, "");
}

#[test]
fn definition_round_trip_keeps_fields() {
    let f = Flow {
        name: "alpha".to_string(),
        description: "a sleeping flow".to_string(),
        version: "v2".to_string(),
    };
    let text = f.definition_text();
    assert_eq!(text, "name=alpha\ndescription=a sleeping flow\nversion=v2");
    let back = Flow::from_file(&text).unwrap();
    assert_eq!(back.name, f.name);
    assert_eq!(back.description, f.description);
    assert_eq!(back.version, f.version);
}

#[test]
fn parse_rejects_missing_lines() {
    assert_eq!(
        Flow::from_file("name=alpha"),
        Err("malformed flow definition".to_string())
    );
    assert_eq!(
        Flow::from_file("name=alpha\ndescription=d"),
        Err("malformed flow definition".to_string())
    );
    assert_eq!(
        Flow::from_file(""),
        Err("malformed flow definition".to_string())
    );
}

#[test]
fn parse_rejects_extra_line() {
    assert_eq!(
        Flow::from_file("name=alpha\ndescription=d\nversion=v1\n"),
        Err("malformed flow definition".to_string())
    );
}

#[test]
fn parse_rejects_wrong_keys() {
    assert_eq!(
        Flow::from_file("title=alpha\ndescription=d\nversion=v1"),
        Err("malformed flow definition".to_string())
    );
    assert_eq!(
        Flow::from_file("name=alpha\ndesc=d\nversion=v1"),
        Err("malformed flow definition".to_string())
    );
}

#[test]
fn store_round_trip_same_name() {
    let mut store = FlowStore::new();
    let written = Flow {
        name: "alpha".to_string(),
        description: "d".to_string(),
        version: "v1".to_string(),
    };
    let text = written.definition_text();
    let loaded = store.load("alpha", 7, &text).unwrap();
    assert_eq!(loaded.name, written.name);
}

#[test]
fn store_caches_under_same_stamp() {
    let mut store = FlowStore::new();
    store
        .load("alpha", 7, "name=alpha\ndescription=d\nversion=v1")
        .unwrap();
    let hit = store.cached("alpha", 7).unwrap();
    assert_eq!(hit.name, "alpha");
    assert_eq!(hit.description, "d");
    assert_eq!(hit.version, "v1");
    assert!(store.cached("alpha", 8).is_none());
    assert!(store.cached("beta", 7).is_none());
}

#[test]
fn store_keeps_cache_on_parse_error() {
    let mut store = FlowStore::new();
    store
        .load("alpha", 7, "name=alpha\ndescription=d\nversion=v1")
        .unwrap();
    assert_eq!(
        store.load("alpha", 9, "garbage"),
        Err("malformed flow definition".to_string())
    );
    let hit = store.cached("alpha", 7).unwrap();
    assert_eq!(hit.version, "v1");
}
