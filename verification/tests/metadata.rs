use crypto::digest::Digest;
use crypto::sha1::Sha1;

use opereon::model::metadata::{Metadata, Sha1Hash, Sha1HashParseError, User};
use opereon::net::Timestamp;

const HASH_TEXT: &str = "9306be9441bec94c673a494f05ffa389c1243d58";

#[test]
fn hash_text_round_trip() {
    let h = Sha1Hash::from_str(HASH_TEXT).unwrap();
    assert_eq!(h.as_bytes()[0], 0x93);
    assert_eq!(h.as_bytes()[19], 0x58);
    assert_eq!(h.to_string(), HASH_TEXT);
    assert!(!h.is_nil());
}

#[test]
fn hash_parse_accepts_upper_case() {
    let h = Sha1Hash::from_str("9306BE9441BEC94C673A494F05FFA389C1243D58").unwrap();
    assert_eq!(h.to_string(), HASH_TEXT);
}

#[test]
fn hash_parse_errors() {
    assert_eq!(Sha1Hash::from_str("9306be"), Err(Sha1HashParseError::InvalidLength));
    assert_eq!(Sha1Hash::from_str(""), Err(Sha1HashParseError::InvalidLength));
    assert_eq!(
        Sha1Hash::from_str("g306be9441bec94c673a494f05ffa389c1243d58"),
        Err(Sha1HashParseError::InvalidValue)
    );
    assert_eq!(
        Sha1Hash::from_str("9306be9441bec94c673a494f05ffa389c1243d5 "),
        Err(Sha1HashParseError::InvalidValue)
    );
}

#[test]
fn nil_hash() {
    let h = Sha1Hash::nil();
    assert!(h.is_nil());
    assert_eq!(h.to_string(), "0000000000000000000000000000000000000000");
    assert_eq!(Sha1Hash::from_str("0000000000000000000000000000000000000000").unwrap(), h);
}

#[test]
fn hash_of_hasher_input() {
    let mut sha1 = Sha1::new();
    sha1.input(b"abc");
    let h = Sha1Hash::result(&mut sha1);
    assert_eq!(h.to_string(), "a9993e364706816aba3e25717850c26c9cd0d89d");
    // asking again gives the same digest
    assert_eq!(Sha1Hash::result(&mut sha1), h);
}

#[test]
fn user_fields() {
    let u = User::new(1000, "alice".to_string());
    assert_eq!(u.uid(), 1000);
    assert_eq!(u.username(), "alice");
    let d = User::default_user();
    assert_eq!(d.uid(), 0);
    assert_eq!(d.username(), "");
}

#[test]
fn metadata_setters_change_one_field() {
    let t = Timestamp { secs: 1_600_000_000, nanos: 5 };
    let mut m = Metadata::new(Sha1Hash::nil(), "/model".to_string(), User::new(7, "bob".to_string()), t);
    assert!(!m.is_stored());
    assert!(m.id().is_nil());
    assert_eq!(m.path(), "/model");
    assert_eq!(m.user().uid(), 7);
    assert_eq!(m.timestamp(), t);

    let h = Sha1Hash::from_str(HASH_TEXT).unwrap();
    m.set_id(h);
    m.set_path("/other".to_string());
    m.set_stored(true);
    assert_eq!(m.id(), h);
    assert_eq!(m.path(), "/other");
    assert!(m.is_stored());
    assert_eq!(m.user().username(), "bob");
    assert_eq!(m.timestamp(), t);
}

#[test]
fn default_metadata_is_empty() {
    let m = Metadata::default_metadata();
    assert!(m.id().is_nil());
    assert_eq!(m.path(), "");
    assert_eq!(m.user().uid(), 0);
    assert_eq!(m.timestamp(), Timestamp { secs: 0, nanos: 0 });
    assert!(!m.is_stored());
}

#[test]
fn current_user_has_the_process_uid() {
    let u = User::current();
    assert_eq!(u.uid() as u32, users::get_current_uid());
}

#[test]
fn user_from_what_the_system_reports() {
    let u = User::from_process(501, Some("ann".to_string()));
    assert_eq!((u.uid(), u.username()), (501, "ann"));
    let v = User::from_process(7, None);
    assert_eq!((v.uid(), v.username()), (7, ""));
}

#[test]
fn printing_gives_the_lower_cased_text() {
    let text = "AbCdEf0123456789aBcDeF0123456789ABCDEF01";
    assert_eq!(Sha1Hash::from_str(text).unwrap().to_string(), text.to_ascii_lowercase());
}
