use libgossip::blob_dispatcher::{
    begin_hydrate, finish_collection, finish_hydrate, BlobDataState, CollectionState, NamedBlob,
};
use libgossip::data::WideId;
use libgossip::nearby::bio::{
    bio_details, bio_source, split_bio, write_bio_text, BioAction, BioError, BioSource, BioText,
};
use libgossip::nearby::Service;
use libgossip::settings::StoreValue;

fn hash(byte: u8) -> WideId {
    WideId::from_bytes([byte; 32])
}

fn blob(name: &str, byte: u8) -> NamedBlob {
    NamedBlob { name: String::from(name), hash: hash(byte) }
}

#[test]
fn a_bio_is_taken_apart() {
    let collection = vec![blob("0.png", 1), blob("bio_text.txt", 2), blob("1.png", 3)];
    let (text, pics) = split_bio(&collection);
    assert_eq!(text, Some(hash(2)));
    assert_eq!(pics, vec![hash(1), hash(3)]);
}

#[test]
fn the_last_text_of_a_bio_counts() {
    let collection = vec![blob("bio_text.txt", 1), blob("a", 2), blob("bio_text.txt", 3)];
    let (text, pics) = split_bio(&collection);
    assert_eq!(text, Some(hash(3)));
    assert_eq!(pics, vec![hash(2)]);
}

#[test]
fn an_empty_bio_has_no_parts() {
    let (text, pics) = split_bio(&vec![]);
    assert_eq!(text, None);
    assert!(pics.is_empty());
}

#[test]
fn the_text_of_a_bio_is_written_and_read() {
    let bytes = write_bio_text(&String::from("hello nearby")).unwrap();
    assert_ne!(bytes, b"hello nearby".to_vec());
    let read = flexbuffers::from_slice::<String>(&bytes).unwrap();
    assert_eq!(read, "hello nearby");
    let details = bio_details(&hash(1), &hash(1), BioText::Read(read), vec![hash(5)]).unwrap();
    assert_eq!(details.text, "hello nearby");
    assert!(details.shared);
    assert!(details.editable);
    assert_eq!(details.pics, vec![hash(5)]);
}

#[test]
fn a_bio_of_another_author_cannot_be_edited() {
    let details = bio_details(&hash(1), &hash(2), BioText::Absent, vec![]).unwrap();
    assert_eq!(details.text, "");
    assert!(!details.editable);
    assert!(details.shared);
    assert!(details.pics.is_empty());
}

#[test]
fn a_text_that_cannot_be_read_is_an_error() {
    let details = bio_details(&hash(1), &hash(1), BioText::Unreadable, vec![hash(2)]);
    assert_eq!(details.unwrap_err(), BioError::UnreadableText);
    assert_eq!(BioError::UnreadableText.message(), "the text of the bio cannot be read");
}

#[test]
fn where_a_bio_is_read_from() {
    assert_eq!(bio_source(&hash(1), &hash(1)), BioSource::Settings);
    assert_eq!(bio_source(&hash(1), &hash(2)), BioSource::Document);
}

#[test]
fn a_gallery_takes_the_place_of_the_pictures() {
    let held = vec![blob("0.png", 1), blob("bio_text.txt", 2), blob("old", 3)];
    let out = Service::set_gallery_pics(&vec![hash(10), hash(11)], &held).unwrap();
    assert_eq!(out.len(), 3);
    assert_eq!((out[0].name.as_str(), out[0].hash), ("bio_text.txt", hash(2)));
    assert_eq!((out[1].name.as_str(), out[1].hash), ("0.png", hash(10)));
    assert_eq!((out[2].name.as_str(), out[2].hash), ("1.png", hash(11)));
}

#[test]
fn a_gallery_holds_nine_pictures() {
    let pics: Vec<WideId> = (0..9).map(hash).collect();
    let out = Service::set_gallery_pics(&pics, &vec![]).unwrap();
    let names: Vec<&str> = out.iter().map(|b| b.name.as_str()).collect();
    assert_eq!(
        names,
        vec!["0.png", "1.png", "2.png", "3.png", "4.png", "5.png", "6.png", "7.png", "8.png"]
    );
    for i in 0..9 {
        assert_eq!(out[i].hash, hash(i as u8));
    }
}

#[test]
fn a_tenth_picture_is_refused() {
    let pics: Vec<WideId> = (0..10).map(hash).collect();
    let out = Service::set_gallery_pics(&pics, &vec![blob("bio_text.txt", 2)]);
    assert_eq!(out.unwrap_err(), BioError::TooManyPics);
    assert_eq!(BioError::TooManyPics.message(), "only supports up to 9 gallery pics");
}

#[test]
fn an_empty_gallery_keeps_the_text() {
    let out = Service::set_gallery_pics(&vec![], &vec![blob("x", 1), blob("bio_text.txt", 2)]).unwrap();
    assert_eq!(out.len(), 1);
    assert_eq!(out[0].name, "bio_text.txt");
}

#[test]
fn what_is_done_with_the_bio_row() {
    assert_eq!(Service::update_my_bio_on_doc(true, true), BioAction::Publish);
    assert_eq!(Service::update_my_bio_on_doc(true, false), BioAction::Nothing);
    assert_eq!(Service::update_my_bio_on_doc(false, true), BioAction::Withdraw);
    assert_eq!(Service::update_my_bio_on_doc(false, false), BioAction::Withdraw);
}

#[test]
fn only_the_share_flag_touches_the_bio_row() {
    assert!(Service::handle_setting_change("share_nearby_public_bio", &StoreValue::Bool(true)));
    assert!(Service::handle_setting_change("share_nearby_public_bio", &StoreValue::Bool(false)));
    assert!(!Service::handle_setting_change("share_nearby_public_bio", &StoreValue::Int(1)));
    assert!(!Service::handle_setting_change("current_nearby_doc_id", &StoreValue::Bool(true)));
}

#[test]
fn a_view_without_a_hash_is_told_nothing() {
    assert!(begin_hydrate(None).is_none());
}

#[test]
fn a_view_is_told_of_loading_and_of_the_bytes() {
    let (state, which) = begin_hydrate(Some(hash(3))).unwrap();
    assert!(matches!(state, BlobDataState::Loading));
    assert_eq!(which, hash(3));
    match finish_hydrate(which, Ok(vec![1, 2, 3])) {
        BlobDataState::Loaded(h, bytes) => {
            assert_eq!(h, hash(3));
            assert_eq!(bytes, vec![1, 2, 3]);
        }
        _ => panic!("the bytes are handed out"),
    }
}

#[test]
fn a_view_is_told_of_a_failure() {
    match finish_hydrate(hash(3), Err(String::from("gone"))) {
        BlobDataState::Failed(message) => assert_eq!(message, "gone"),
        _ => panic!("the failure is handed out"),
    }
    match finish_collection(Err(String::from("gone"))) {
        CollectionState::Failed(message) => assert_eq!(message, "gone"),
        _ => panic!("the failure is handed out"),
    }
}

#[test]
fn a_view_is_told_the_members_of_a_collection() {
    match finish_collection(Ok(vec![blob("a", 1)])) {
        CollectionState::Loaded(items) => {
            assert_eq!(items.len(), 1);
            assert_eq!(items[0].name, "a");
            assert_eq!(items[0].clone().hash, hash(1));
        }
        _ => panic!("the members are handed out"),
    }
}
