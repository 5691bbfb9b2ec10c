use drivers::config::{environment_from_name, port_from, setting_or, Environment, DEFAULT_PORT};
use drivers::entity::Driver;
use drivers::id::Identifier;
use drivers::repository::{document_key, index_member, index_score, join_listing, plan_fetch, RepoError};

#[test]
fn document_and_index_keys() {
    let id = Identifier::from(1700000);
    assert_eq!(document_key(&id), "drivers:5bse2");
    assert_eq!(index_member(&id), "5bse2");
    assert_eq!(index_score(&id), 1700000);
}

#[test]
fn empty_range_fetches_nothing() {
    assert!(plan_fetch(&Vec::new()).is_none());
    let keys = plan_fetch(&vec!["gk".to_string(), "26".to_string()]).unwrap();
    assert_eq!(keys, vec!["drivers:gk".to_string(), "drivers:26".to_string()]);
}

#[test]
fn listing_pairs_records_in_order() {
    let members = vec!["gk".to_string(), "26".to_string(), "5bse2".to_string()];
    let mut a = Driver::default();
    a.name = "A".to_string();
    let mut b = Driver::default();
    b.name = "B".to_string();
    let list = join_listing(&members, vec![a, b]).unwrap();
    assert_eq!(list.len(), 2);
    assert_eq!((list[0].id.value(), list[0].entity.name.as_str()), (100, "A"));
    assert_eq!((list[1].id.value(), list[1].entity.name.as_str()), (1, "B"));
    let bad = vec!["??".to_string()];
    assert!(matches!(join_listing(&bad, vec![Driver::default()]), Err(RepoError::Store(_))));
}

#[test]
fn settings() {
    assert_eq!(environment_from_name("DEV", Environment::Production), Environment::Development);
    assert_eq!(environment_from_name("Production", Environment::Development), Environment::Production);
    assert_eq!(environment_from_name("staging", Environment::Production), Environment::Production);
    assert_eq!(setting_or(None, "x"), "x");
    assert_eq!(setting_or(Some("y".to_string()), "x"), "y");
    assert_eq!(port_from(None).unwrap(), DEFAULT_PORT);
    assert_eq!(port_from(Some("9000")).unwrap(), 9000);
    assert!(port_from(Some("70000")).is_err());
}
