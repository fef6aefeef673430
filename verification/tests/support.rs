use nature::collections::{StringMap, StringSet};
use nature::error::{DaoFault, DbErrorKind, NatureError};
use nature::instance::{BizObject, Instance};
use nature::meta::{Meta, MetaType};
use nature::mock::MockTableInstance;

#[test]
fn string_set_insert_remove() {
    let mut s = StringSet::new();
    assert!(s.insert("a".to_string()));
    assert!(!s.insert("a".to_string()));
    assert!(s.insert("b".to_string()));
    assert_eq!(s.len(), 2);
    assert!(s.remove(&"a".to_string()));
    assert!(!s.remove(&"a".to_string()));
    assert!(!s.contains(&"a".to_string()));
    assert!(s.contains(&"b".to_string()));
    assert_eq!(s.len(), 1);
    let v = StringSet::from_vec(vec!["x".to_string(), "y".to_string(), "x".to_string()]);
    assert_eq!(v.len(), 2);
    assert_eq!(v.to_vec(), vec!["x".to_string(), "y".to_string()]);
    let c = v.clone();
    assert!(c.contains(&"y".to_string()));
}

#[test]
fn string_map_insert_and_get() {
    let mut m = StringMap::new();
    m.insert("k".to_string(), "1".to_string());
    m.insert("j".to_string(), "2".to_string());
    m.insert("k".to_string(), "3".to_string());
    assert_eq!(m.len(), 2);
    assert_eq!(m.get(&"k".to_string()), Some(&"3".to_string()));
    assert_eq!(m.get(&"j".to_string()), Some(&"2".to_string()));
    assert_eq!(m.get(&"z".to_string()), None);
    assert!(m.contains_key(&"j".to_string()));
    assert!(!m.contains_key(&"z".to_string()));
}

#[test]
fn dao_faults_map_to_errors() {
    assert_eq!(NatureError::from(DaoFault::Database(DbErrorKind::UniqueViolation, "\"dup\"".to_string())), NatureError::DaoDuplicated);
    assert_eq!(
        NatureError::from(DaoFault::Database(DbErrorKind::Unknown, "\"disk\"".to_string())),
        NatureError::DaoEnvironmentError("\"disk\"".to_string())
    );
    assert_eq!(
        NatureError::from(DaoFault::Database(DbErrorKind::ForeignKeyViolation, "\"fk\"".to_string())),
        NatureError::DaoLogicalError("\"fk\"".to_string())
    );
    assert_eq!(
        NatureError::from(DaoFault::Other("NotFound".to_string())),
        NatureError::DaoLogicalError("NotFound".to_string())
    );
}

#[test]
fn mock_table_answers_inserts() {
    let ins = Instance {
        id: 1,
        data: BizObject {
            meta: "/B/x:1".to_string(),
            content: String::new(),
            context: StringMap::new(),
            states: StringSet::new(),
            state_version: 0,
            from: None,
        },
    };
    assert_eq!(MockTableInstance::new(Ok(0)).insert(&ins), Ok(0));
    assert_eq!(MockTableInstance::new(Ok(2)).insert(&ins), Ok(2));
    assert_eq!(MockTableInstance::new(Err(NatureError::DaoDuplicated)).insert(&ins), Err(NatureError::DaoDuplicated));
}

#[test]
fn meta_string_is_prefix_key_and_version() {
    let m = Meta { meta_type: MetaType::Business, key: "/B/from".to_string(), version: 1, states: None };
    assert_eq!(m.meta_string(), "/B/B/from:1");
    let m = Meta { meta_type: MetaType::Null, key: "/x".to_string(), version: 1024, states: Some(vec![]) };
    assert_eq!(m.meta_string(), "/N/x:1024");
    assert!(m.is_state());
    assert_eq!(m.get_meta_type(), MetaType::Null);
    assert_eq!(MetaType::Multi.get_prefix(), "/M");
}
