use atmo_core::at_uri::{is_valid_at_uri, AtUri};
use atmo_core::error::ParseError;
use atmo_core::nsid::{is_valid_nsid, Nsid};
use atmo_core::nullable::Nullable;
use atmo_core::rkey::{is_record_key_char, is_valid_record_key, RecordKey};
use atmo_core::tid::{is_tid_char, is_valid_tid, Tid};
use atmo_core::AtIdentifier;

#[test]
fn nsid_with_letters_only_name_is_accepted() {
    let n = Nsid::from_str("com.example.fooBar").unwrap();
    assert_eq!(n.as_str(), "com.example.fooBar");
    assert_eq!(n.to_string(), "com.example.fooBar");
    assert!(Nsid::from_str("app.bsky.feed.post").is_ok());
    assert!(Nsid::from_str("net.users.bob.ping").is_ok());
    assert!(Nsid::from_str("a.b.c").is_ok());
    assert!(Nsid::from_str("com.exa-mple.thing").is_ok());
    assert!(Nsid::from_str("com.3xample.thing").is_ok());
}

#[test]
fn nsid_name_with_digit_or_hyphen_is_rejected() {
    assert_eq!(Nsid::from_str("com.example.fooBar1"), Err(ParseError::Nsid));
    assert_eq!(Nsid::from_str("com.example.foo-Bar"), Err(ParseError::Nsid));
    assert_eq!(Nsid::from_str("com.example.3"), Err(ParseError::Nsid));
}

#[test]
fn nsid_needs_three_segments() {
    assert!(Nsid::from_str("com.example").is_err());
    assert!(Nsid::from_str("com").is_err());
    assert!(Nsid::from_str("").is_err());
}

#[test]
fn nsid_authority_rules() {
    assert!(Nsid::from_str("1com.example.foo").is_err());
    assert!(Nsid::from_str("com.-example.foo").is_err());
    assert!(Nsid::from_str("com..foo").is_err());
    assert!(Nsid::from_str(".com.example.foo").is_err());
    assert!(Nsid::from_str("com.example.foo.").is_err());
    assert!(Nsid::from_str("com.exa_mple.foo").is_err());
    assert!(Nsid::from_str("com.example.foo/bar").is_err());
}

#[test]
fn nsid_length_ceiling() {
    // five segments of 63 bytes and four dots: 319 bytes
    let seg = "a".repeat(63);
    let long = format!("{seg}.{seg}.{seg}.{seg}.{seg}");
    assert_eq!(long.len(), 319);
    assert!(Nsid::from_str(&long).is_err());
    // 63 * 4 + 61 + 4 = 317 bytes
    let fits = format!("{seg}.{seg}.{seg}.{seg}.{}", "a".repeat(61));
    assert_eq!(fits.len(), 317);
    assert!(Nsid::from_str(&fits).is_ok());
    let over = format!("{seg}.{seg}.{seg}.{seg}.{}", "a".repeat(62));
    assert_eq!(over.len(), 318);
    assert!(Nsid::from_str(&over).is_err());
}

#[test]
fn nsid_segment_length_bounds() {
    let ok = format!("com.example.{}", "a".repeat(63));
    let long = format!("com.example.{}", "a".repeat(64));
    assert!(Nsid::from_str(&ok).is_ok());
    assert!(Nsid::from_str(&long).is_err());
    let long_mid = format!("com.{}.foo", "a".repeat(64));
    assert!(Nsid::from_str(&long_mid).is_err());
}

#[test]
fn nsid_round_trip() {
    let n = Nsid::from_str("com.example.post").unwrap();
    assert_eq!(Nsid::from_str(n.as_str()).unwrap(), n);
    assert_eq!(n.clone(), n);
    assert_ne!(n, Nsid::from_str("com.example.like").unwrap());
    assert!(is_valid_nsid(b"com.example.post"));
    assert!(!is_valid_nsid(b"com.example"));
}

#[test]
fn record_key_reserved_values_are_rejected() {
    assert_eq!(RecordKey::from_str("."), Err(ParseError::RecordKey));
    assert_eq!(RecordKey::from_str(".."), Err(ParseError::RecordKey));
}

#[test]
fn record_key_simple_is_accepted() {
    let k = RecordKey::from_str("3jzfcijpj2z2a").unwrap();
    assert_eq!(k.as_str(), "3jzfcijpj2z2a");
    assert_eq!(k.to_string(), "3jzfcijpj2z2a");
    assert!(RecordKey::from_str("self").is_ok());
    assert!(RecordKey::from_str("...").is_ok());
    assert!(RecordKey::from_str(".a").is_ok());
    assert!(RecordKey::from_str("a.").is_ok());
    assert!(RecordKey::from_str("example.com").is_ok());
    assert!(RecordKey::from_str("~1.2-3_").is_ok());
    assert!(RecordKey::from_str("pre:fix").is_ok());
    assert!(RecordKey::from_str("-").is_ok());
    assert!(RecordKey::from_str(":").is_ok());
}

#[test]
fn record_key_length_bounds() {
    assert!(RecordKey::from_str("").is_err());
    assert!(RecordKey::from_str("a").is_ok());
    assert!(RecordKey::from_str(&"a".repeat(512)).is_ok());
    assert!(RecordKey::from_str(&"a".repeat(513)).is_err());
}

#[test]
fn record_key_charset() {
    assert!(RecordKey::from_str("a/b").is_err());
    assert!(RecordKey::from_str("a b").is_err());
    assert!(RecordKey::from_str("a#b").is_err());
    assert!(RecordKey::from_str("a@b").is_err());
    assert!(RecordKey::from_str("a%23b").is_err());
    assert!(RecordKey::from_str("caf\u{e9}").is_err());
    for b in 0u8..=255 {
        let expected = b.is_ascii_alphanumeric() || b".-_:~".contains(&b);
        assert_eq!(is_record_key_char(b), expected);
    }
}

#[test]
fn record_key_round_trip() {
    let k = RecordKey::from_str("self").unwrap();
    assert_eq!(RecordKey::from_str(k.as_str()).unwrap(), k);
    assert_eq!(k.clone(), k);
    assert_ne!(k, RecordKey::from_str("other").unwrap());
    assert!(is_valid_record_key(b"self"));
    assert!(!is_valid_record_key(b".."));
}

#[test]
fn tid_simple_is_accepted() {
    let t = Tid::from_str("3jzfcijpj2z2a").unwrap();
    assert_eq!(t.as_str(), "3jzfcijpj2z2a");
    assert_eq!(t.to_string(), "3jzfcijpj2z2a");
    assert!(Tid::from_str("7777777777777").is_ok());
    assert!(Tid::from_str("2222222222222").is_ok());
}

#[test]
fn tid_length_is_exact() {
    assert_eq!(Tid::from_str("3jzfcijpj2z2"), Err(ParseError::Tid));
    assert_eq!(Tid::from_str("3jzfcijpj2z2aa"), Err(ParseError::Tid));
    assert_eq!(Tid::from_str(""), Err(ParseError::Tid));
}

#[test]
fn tid_alphabet() {
    assert!(Tid::from_str("3jzfcijpj2z21").is_err());
    assert!(Tid::from_str("0000000000000").is_err());
    assert!(Tid::from_str("3jzfcijpj2z2A").is_err());
    assert!(Tid::from_str("3jzf-cij-pj2z").is_err());
    assert!(Tid::from_str("3jzfcijpj2z28").is_err());
    assert!(Tid::from_str("3jzfcijpj2z29").is_err());
    for b in 0u8..=255 {
        let expected = b"234567abcdefghijklmnopqrstuvwxyz".contains(&b);
        assert_eq!(is_tid_char(b), expected);
    }
}

#[test]
fn tid_round_trip() {
    let t = Tid::from_str("3jzfcijpj2z2a").unwrap();
    assert_eq!(Tid::from_str(t.as_str()).unwrap(), t);
    assert_eq!(t.clone(), t);
    assert_ne!(t, Tid::from_str("3jzfcijpj2z2b").unwrap());
    assert!(is_valid_tid(b"3jzfcijpj2z2a"));
    assert!(!is_valid_tid(b"3jzfcijpj2z2"));
}

#[test]
fn at_uri_with_record_decomposes() {
    let uri = AtUri::from_str("at://alice.example.com/com.example.post/3jzfcijpj2z2a").unwrap();
    assert!(matches!(uri.authority(), AtIdentifier::Handle(_)));
    assert_eq!(uri.authority().as_str(), "alice.example.com");
    assert_eq!(uri.collection().unwrap().as_str(), "com.example.post");
    assert_eq!(uri.rkey().unwrap().as_str(), "3jzfcijpj2z2a");
    assert_eq!(uri.fragment(), None);
    assert_eq!(uri.as_str(), "at://alice.example.com/com.example.post/3jzfcijpj2z2a");
    assert_eq!(uri.to_string(), "at://alice.example.com/com.example.post/3jzfcijpj2z2a");
}

#[test]
fn at_uri_with_did_authority() {
    let uri = AtUri::from_str("at://did:plc:abc123/app.bsky.feed.post/self").unwrap();
    assert!(matches!(uri.authority(), AtIdentifier::Did(_)));
    assert_eq!(uri.authority().as_str(), "did:plc:abc123");
    assert_eq!(uri.collection().unwrap().as_str(), "app.bsky.feed.post");
    assert_eq!(uri.rkey().unwrap().as_str(), "self");
}

#[test]
fn at_uri_authority_only() {
    let uri = AtUri::from_str("at://alice.example.com").unwrap();
    assert_eq!(uri.authority().as_str(), "alice.example.com");
    assert!(uri.collection().is_none());
    assert!(uri.rkey().is_none());
    assert!(uri.fragment().is_none());
}

#[test]
fn at_uri_with_collection_only() {
    let uri = AtUri::from_str("at://did:plc:abc123/com.example.post").unwrap();
    assert_eq!(uri.collection().unwrap().as_str(), "com.example.post");
    assert!(uri.rkey().is_none());
}

#[test]
fn at_uri_with_fragment() {
    let uri = AtUri::from_str("at://did:plc:abc123/com.example.post/self#/text").unwrap();
    assert_eq!(uri.authority().as_str(), "did:plc:abc123");
    assert_eq!(uri.collection().unwrap().as_str(), "com.example.post");
    assert_eq!(uri.rkey().unwrap().as_str(), "self");
    assert_eq!(uri.fragment(), Some("/text"));
    let uri = AtUri::from_str("at://alice.example.com#frag/with/slashes#more").unwrap();
    assert_eq!(uri.authority().as_str(), "alice.example.com");
    assert!(uri.collection().is_none());
    assert_eq!(uri.fragment(), Some("frag/with/slashes#more"));
}

#[test]
fn at_uri_needs_the_prefix() {
    assert_eq!(AtUri::from_str("alice.example.com"), Err(ParseError::AtUri));
    assert_eq!(AtUri::from_str("at:/alice.example.com"), Err(ParseError::AtUri));
    assert_eq!(AtUri::from_str("AT://alice.example.com"), Err(ParseError::AtUri));
    assert_eq!(AtUri::from_str("http://alice.example.com"), Err(ParseError::AtUri));
    assert_eq!(AtUri::from_str("at://"), Err(ParseError::AtUri));
    assert_eq!(AtUri::from_str(""), Err(ParseError::AtUri));
}

#[test]
fn at_uri_other_path_shapes_are_rejected() {
    assert!(AtUri::from_str("at://alice.example.com/").is_err());
    assert!(AtUri::from_str("at://alice.example.com/com.example.post/").is_err());
    assert!(AtUri::from_str("at://alice.example.com/com.example.post/self/more").is_err());
    assert!(AtUri::from_str("at://alice.example.com//self").is_err());
    assert!(AtUri::from_str("at://alice.example.com/notansid/self").is_err());
    assert!(AtUri::from_str("at://alice.example.com/com.example.post/..").is_err());
    assert!(AtUri::from_str("at:///com.example.post/self").is_err());
    assert!(AtUri::from_str("at://-alice.example.com/com.example.post/self").is_err());
}

#[test]
fn at_uri_outside_ascii_is_rejected() {
    assert!(AtUri::from_str("at://alice.example.com#caf\u{e9}").is_err());
    assert!(AtUri::from_str("at://caf\u{e9}.example.com").is_err());
}

#[test]
fn at_uri_round_trip() {
    let uri = AtUri::from_str("at://did:plc:abc123/com.example.post/self#/text").unwrap();
    let again = AtUri::from_str(uri.as_str()).unwrap();
    assert_eq!(uri, again);
    assert_eq!(uri.clone(), uri);
    assert_eq!(uri.clone().rkey().unwrap().as_str(), "self");
    assert_ne!(uri, AtUri::from_str("at://did:plc:abc123/com.example.post/self").unwrap());
}

#[test]
fn at_uri_bytes_validator() {
    assert!(is_valid_at_uri(b"at://alice.example.com/com.example.post/3jzfcijpj2z2a"));
    assert!(is_valid_at_uri(b"at://did:plc:abc123"));
    assert!(is_valid_at_uri(b"at://did:plc:abc123#x"));
    assert!(!is_valid_at_uri(b"at://did:plc:abc123/x"));
    assert!(!is_valid_at_uri(b"did:plc:abc123"));
}

#[test]
fn nullable_states_are_told_apart() {
    let absent: Nullable<u32> = Nullable::Absent;
    let null: Nullable<u32> = Nullable::Null;
    let present: Nullable<u32> = Nullable::Present(7);
    assert_eq!(absent.into_field(), None);
    assert_eq!(null.into_field(), Some(None));
    assert_eq!(present.into_field(), Some(Some(7)));
}

#[test]
fn nullable_reads_back_what_was_written() {
    assert!(Nullable::<u32>::from_field(None).is_absent());
    assert!(Nullable::<u32>::from_field(Some(None)).is_null());
    let present = Nullable::from_field(Some(Some(7u32)));
    assert_eq!(present.value(), Some(&7));
    assert!(!present.is_absent());
    assert!(!present.is_null());
    assert_eq!(Nullable::<u32>::Null.value(), None);
    assert_eq!(Nullable::<u32>::Absent.value(), None);
    assert_eq!(Nullable::from_field(Nullable::Present(3u8).into_field()).value(), Some(&3));
}

#[test]
fn nsid_parts() {
    let n = Nsid::from_str("com.example.fooBar").unwrap();
    assert_eq!(n.authority(), "com.example");
    assert_eq!(n.name(), "fooBar");
    let n = Nsid::from_str("app.bsky.feed.post").unwrap();
    assert_eq!(n.authority(), "app.bsky.feed");
    assert_eq!(n.name(), "post");
    let n = Nsid::from_str("a.b.c").unwrap();
    assert_eq!(n.authority(), "a.b");
    assert_eq!(n.name(), "c");
}
