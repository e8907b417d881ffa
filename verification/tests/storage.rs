use auth_gateway::database::{InMemoryStorage, PerUserData, StorageError};
use auth_gateway::measurements::{Measurement, MeasurementDescription, UnitInfo};
use std::collections::hash_map::DefaultHasher;
use std::hash::{Hash, Hasher};

fn description(id: u32, name: &str, text: &str) -> MeasurementDescription {
    MeasurementDescription::new(
        id,
        String::from(name),
        String::from(text),
        vec![UnitInfo::Kilogram, UnitInfo::Pound],
    )
}

fn measurement(datetime: u64, value: f64) -> Measurement {
    Measurement {
        datetime,
        measurement: 1,
        value: value.to_bits(),
        unit: UnitInfo::Kilogram,
        upper_bound: Some(90.0f64.to_bits()),
        lower_bound: None,
    }
}

fn hash_of(description: &MeasurementDescription) -> u64 {
    let mut hasher = DefaultHasher::new();
    description.hash(&mut hasher);
    hasher.finish()
}

fn store() -> InMemoryStorage {
    match InMemoryStorage::try_from("./database.bin") {
        Ok(store) => store,
        Err(message) => panic!("{}", message),
    }
}

#[test]
fn descriptions_are_equal_by_name() {
    let a = description(1, "weight", "body weight");
    let b = description(2, "weight", "something else");
    let c = description(1, "height", "body weight");
    assert!(a == b);
    assert!(a != c);
    assert_eq!(hash_of(&a), hash_of(&b));
}

#[test]
fn description_getters_and_clone() {
    let a = description(5, "weight", "body weight");
    let b = a.clone();
    assert_eq!(b.id(), 5);
    assert_eq!(b.name(), "weight");
    assert_eq!(b.description(), "body weight");
    assert_eq!(b.units(), &vec![UnitInfo::Kilogram, UnitInfo::Pound]);
}

#[test]
fn new_user_data_are_empty() {
    let data = PerUserData::new();
    assert!(data.entries().is_empty());
    assert!(data.get("weight").is_none());
}

#[test]
fn insert_adds_a_series() {
    let mut data = PerUserData::new();
    data.insert(description(1, "weight", "w"), vec![measurement(10, 81.5)]);
    data.insert(description(2, "height", "h"), vec![]);
    assert_eq!(data.entries().len(), 2);
    assert_eq!(data.get("weight"), Some(&vec![measurement(10, 81.5)]));
    assert_eq!(data.get("height"), Some(&vec![]));
    assert!(data.get("pulse").is_none());
    assert_eq!(f64::from_bits(data.get("weight").unwrap()[0].value), 81.5);
}

#[test]
fn insert_for_a_known_name_keeps_the_description() {
    let mut data = PerUserData::new();
    data.insert(description(1, "weight", "first"), vec![measurement(10, 81.5)]);
    data.insert(description(9, "weight", "second"), vec![measurement(20, 80.0)]);
    assert_eq!(data.entries().len(), 1);
    assert_eq!(data.entries()[0].description.id(), 1);
    assert_eq!(data.entries()[0].description.description(), "first");
    assert_eq!(data.get("weight"), Some(&vec![measurement(20, 80.0)]));
}

#[test]
fn clone_shares_nothing() {
    let mut data = PerUserData::new();
    data.insert(description(1, "weight", "w"), vec![measurement(10, 81.5)]);
    let mut copy = data.clone();
    copy.insert(description(1, "weight", "w"), vec![]);
    copy.insert(description(2, "height", "h"), vec![]);
    assert_eq!(data.entries().len(), 1);
    assert_eq!(data.get("weight"), Some(&vec![measurement(10, 81.5)]));
    assert_eq!(copy.get("weight"), Some(&vec![]));
}

#[test]
fn fresh_store_keeps_its_file_name() {
    assert_eq!(store().save_file_name(), "./database.bin");
}

#[test]
fn retrieve_for_unknown_user_is_empty() {
    let store = store();
    for user in [0u32, 1, 77, u32::MAX] {
        assert!(store.retrieve_data(user).entries().is_empty());
    }
}

#[test]
fn store_is_not_implemented() {
    let mut store = store();
    let mut data = PerUserData::new();
    data.insert(description(1, "weight", "w"), vec![measurement(10, 81.5)]);
    assert_eq!(store.store_data(77, data), Err(StorageError::NotImplemented));
    assert!(store.retrieve_data(77).entries().is_empty());
    assert!(store.retrieve_data(78).entries().is_empty());
    assert_eq!(store.save_file_name(), "./database.bin");
}
