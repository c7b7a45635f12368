use libgossip::data::WideId;
use libgossip::settings::{
    get_setting_defaulted, get_status, read_setting_from_store, set_setting, settings_row,
    OptionValue, SettingsEvent, SettingsRow, SettingsStore, StoreValue, CURRENT_NEARBY_DOC_ID,
    SHARE_NEARBY_PUBLIC_BIO,
};
use libgossip::nearby::model::Status;

fn who(byte: u8) -> WideId {
    WideId::from_bytes([byte; 32])
}

#[test]
fn an_empty_store_has_no_settings() {
    let store = SettingsStore::new();
    assert!(store.get("anything").is_none());
    assert_eq!(read_setting_from_store::<bool>(SHARE_NEARBY_PUBLIC_BIO, &store), None);
}

#[test]
fn a_setting_is_read_as_it_was_set() {
    let mut store = SettingsStore::new();
    set_setting(&mut store, SHARE_NEARBY_PUBLIC_BIO, true);
    set_setting(&mut store, CURRENT_NEARBY_DOC_ID, who(4));
    set_setting(&mut store, "count", 12i32);
    set_setting(&mut store, "name", String::from("kevin"));
    assert_eq!(read_setting_from_store::<bool>(SHARE_NEARBY_PUBLIC_BIO, &store), Some(true));
    assert_eq!(read_setting_from_store::<WideId>(CURRENT_NEARBY_DOC_ID, &store), Some(who(4)));
    assert_eq!(read_setting_from_store::<i32>("count", &store), Some(12));
    assert_eq!(read_setting_from_store::<String>("name", &store), Some(String::from("kevin")));
}

#[test]
fn a_setting_of_another_type_is_not_read() {
    let mut store = SettingsStore::new();
    set_setting(&mut store, "count", 12i32);
    assert_eq!(read_setting_from_store::<bool>("count", &store), None);
    assert_eq!(read_setting_from_store::<String>("count", &store), None);
    assert_eq!(read_setting_from_store::<WideId>("count", &store), None);
}

#[test]
fn a_missing_setting_has_its_default() {
    let mut store = SettingsStore::new();
    assert!(!get_setting_defaulted(SHARE_NEARBY_PUBLIC_BIO, &store, false));
    assert_eq!(get_setting_defaulted("count", &store, 5i32), 5);
    set_setting(&mut store, SHARE_NEARBY_PUBLIC_BIO, true);
    assert!(get_setting_defaulted(SHARE_NEARBY_PUBLIC_BIO, &store, false));
    set_setting(&mut store, "count", String::from("seven"));
    assert_eq!(get_setting_defaulted("count", &store, 5i32), 5);
}

#[test]
fn a_change_names_the_old_and_the_new_value() {
    let mut store = SettingsStore::new();
    match set_setting(&mut store, "count", 1i32) {
        SettingsEvent::SettingChanged(name, before, after) => {
            assert_eq!(name, "count");
            assert!(before.is_none());
            assert!(matches!(after, StoreValue::Int(1)));
        }
        _ => panic!("a change of a setting is announced"),
    }
    match set_setting(&mut store, "count", true) {
        SettingsEvent::SettingChanged(name, before, after) => {
            assert_eq!(name, "count");
            assert!(matches!(before, Some(StoreValue::Int(1))));
            assert!(matches!(after, StoreValue::Bool(true)));
        }
        _ => panic!("a change of a setting is announced"),
    }
    assert_eq!(read_setting_from_store::<bool>("count", &store), Some(true));
}

#[test]
fn settings_are_kept_side_by_side() {
    let mut store = SettingsStore::new();
    for i in 0..20i32 {
        store.insert(&format!("key {}", i), StoreValue::Int(i));
    }
    store.insert("key 7", StoreValue::Int(70));
    for i in 0..20i32 {
        let expected = if i == 7 { 70 } else { i };
        assert_eq!(read_setting_from_store::<i32>(&format!("key {}", i), &store), Some(expected));
    }
}

#[test]
fn values_go_into_the_store_and_come_out() {
    assert!(matches!(bool::make_store_value(true), StoreValue::Bool(true)));
    assert!(matches!(i32::make_store_value(-3), StoreValue::Int(-3)));
    assert_eq!(bool::from_store_value(StoreValue::Bool(false)), Some(false));
    assert_eq!(i32::from_store_value(StoreValue::Int(9)), Some(9));
    assert_eq!(WideId::from_store_value(StoreValue::WideId(who(2))), Some(who(2)));
    assert_eq!(
        String::from_store_value(StoreValue::String(String::from("s"))),
        Some(String::from("s"))
    );
    assert_eq!(bool::from_store_value(StoreValue::Int(1)), None);
    assert_eq!(i32::from_store_value(StoreValue::Bool(true)), None);
    match String::make_store_value(String::from("x")).clone() {
        StoreValue::String(s) => assert_eq!(s, "x"),
        _ => panic!("a text is stored as a text"),
    }
}

#[test]
fn rows_of_the_root_document_for_the_settings() {
    assert_eq!(settings_row(b"current_status"), SettingsRow::Status);
    assert_eq!(settings_row(b"public_bio"), SettingsRow::Bio);
    assert_eq!(settings_row(b"settings_store"), SettingsRow::Other);
    assert_eq!(settings_row(b"status"), SettingsRow::Other);
}

#[test]
fn a_user_without_status_has_the_default_status() {
    let (status, store_it) = get_status(None);
    assert_eq!(status.text, "whats up?");
    assert!(store_it);
    let (status, store_it) = get_status(Some(Status { text: String::from("busy") }));
    assert_eq!(status.text, "busy");
    assert!(!store_it);
}
