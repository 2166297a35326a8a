use atmo_core::did::{is_valid_did, is_valid_method, is_valid_method_id, Did};
use atmo_core::error::ParseError;
use atmo_core::handle::{is_valid_handle, Handle};
use atmo_core::{is_valid_at_identifier, AtIdentifier};

#[test]
fn handle_simple_is_accepted() {
    let h = Handle::from_str("alice.example.com").unwrap();
    assert_eq!(h.as_str(), "alice.example.com");
    assert_eq!(h.to_string(), "alice.example.com");
}

#[test]
fn handle_with_leading_hyphen_is_rejected() {
    assert_eq!(Handle::from_str("-alice.example.com"), Err(ParseError::Handle));
}

#[test]
fn handle_with_single_letter_tld_is_accepted() {
    assert!(Handle::from_str("a.c").is_ok());
}

#[test]
fn handle_needs_two_segments() {
    assert_eq!(Handle::from_str("localhost"), Err(ParseError::Handle));
    assert_eq!(Handle::from_str(""), Err(ParseError::Handle));
}

#[test]
fn handle_with_empty_segment_is_rejected() {
    assert!(Handle::from_str("alice..com").is_err());
    assert!(Handle::from_str(".example.com").is_err());
    assert!(Handle::from_str("example.com.").is_err());
    assert!(Handle::from_str(".").is_err());
}

#[test]
fn handle_tld_must_start_with_letter() {
    assert!(Handle::from_str("example.1com").is_err());
    assert!(Handle::from_str("example.c1").is_ok());
    assert!(Handle::from_str("1example.com").is_ok());
    assert!(Handle::from_str("127.0.0.1").is_err());
}

#[test]
fn handle_segment_length_bounds() {
    let ok = format!("{}.com", "a".repeat(63));
    let long = format!("{}.com", "a".repeat(64));
    assert!(Handle::from_str(&ok).is_ok());
    assert!(Handle::from_str(&long).is_err());
    let ok_tld = format!("example.{}", "a".repeat(63));
    let long_tld = format!("example.{}", "a".repeat(64));
    assert!(Handle::from_str(&ok_tld).is_ok());
    assert!(Handle::from_str(&long_tld).is_err());
}

#[test]
fn handle_bad_bytes_are_rejected() {
    assert!(Handle::from_str("al_ice.example.com").is_err());
    assert!(Handle::from_str("alice.example.com ").is_err());
    assert!(Handle::from_str("alice@example.com").is_err());
    assert!(Handle::from_str("caf\u{e9}.example.com").is_err());
    assert!(Handle::from_str("alice.example-.com").is_err());
}

#[test]
fn handle_keeps_case() {
    let h = Handle::from_str("Alice.Example.COM").unwrap();
    assert_eq!(h.as_str(), "Alice.Example.COM");
}

#[test]
fn handle_round_trip() {
    let h = Handle::from_str("xn--ls8h.test").unwrap();
    let again = Handle::from_str(h.as_str()).unwrap();
    assert_eq!(h, again);
    assert_eq!(h.clone(), h);
    assert_ne!(h, Handle::from_str("other.test").unwrap());
}

#[test]
fn handle_bytes_validator() {
    assert!(is_valid_handle(b"alice.example.com"));
    assert!(!is_valid_handle(b"alice"));
    assert!(!is_valid_handle(b"did:plc:abc"));
}

#[test]
fn did_simple_is_accepted() {
    let d = Did::from_str("did:plc:z72i7hdynmk6r22z27h6tvur").unwrap();
    assert_eq!(d.as_str(), "did:plc:z72i7hdynmk6r22z27h6tvur");
    assert_eq!(d.to_string(), "did:plc:z72i7hdynmk6r22z27h6tvur");
    assert!(Did::from_str("did:web:example.com").is_ok());
    assert!(Did::from_str("did:web:localhost%3A8080").is_ok());
    assert!(Did::from_str("did:key:zQ3shZc2QzApp2oymGvQbzP8eKheVshBHbU4ZYjeXqwSKEn6N").is_ok());
    assert!(Did::from_str("did:method:val:two").is_ok());
    assert!(Did::from_str("did:m3:val").is_ok());
    assert!(Did::from_str("did:m:a~b_c-d.e").is_ok());
}

#[test]
fn did_needs_the_prefix() {
    assert_eq!(Did::from_str("plc:abc"), Err(ParseError::Did));
    assert_eq!(Did::from_str("DID:plc:abc"), Err(ParseError::Did));
    assert_eq!(Did::from_str("did"), Err(ParseError::Did));
    assert_eq!(Did::from_str(""), Err(ParseError::Did));
    assert_eq!(Did::from_str("dod:plc:abc"), Err(ParseError::Did));
}

#[test]
fn did_method_is_lower_case_letters_and_digits() {
    assert!(Did::from_str("did:Plc:abc").is_err());
    assert!(Did::from_str("did:p-c:abc").is_err());
    assert!(Did::from_str("did::abc").is_err());
    assert!(Did::from_str("did:plc").is_err());
    assert!(Did::from_str("did:").is_err());
}

#[test]
fn did_identifier_rules() {
    assert!(Did::from_str("did:plc:").is_err());
    assert!(Did::from_str("did:plc:abc:").is_err());
    assert!(Did::from_str("did:plc:abc%").is_err());
    assert!(Did::from_str("did:plc:a/b").is_err());
    assert!(Did::from_str("did:plc:a#b").is_err());
    assert!(Did::from_str("did:plc:a b").is_err());
    assert!(Did::from_str("did:plc:caf\u{e9}").is_err());
}

#[test]
fn did_parts_validators() {
    assert!(is_valid_method(b"plc"));
    assert!(is_valid_method(b"web3"));
    assert!(!is_valid_method(b""));
    assert!(!is_valid_method(b"Web"));
    assert!(is_valid_method_id(b"a:b"));
    assert!(!is_valid_method_id(b""));
    assert!(!is_valid_method_id(b"a:"));
    assert!(is_valid_did(b"did:plc:abc"));
    assert!(!is_valid_did(b"did:plc"));
}

#[test]
fn did_round_trip() {
    let d = Did::from_str("did:web:example.com").unwrap();
    let again = Did::from_str(d.as_str()).unwrap();
    assert_eq!(d, again);
    assert_eq!(d.clone(), d);
    assert_ne!(d, Did::from_str("did:web:example.org").unwrap());
}

#[test]
fn at_identifier_did_is_classified_as_did() {
    let id = AtIdentifier::from_str("did:plc:abc123").unwrap();
    assert!(matches!(id, AtIdentifier::Did(_)));
    assert_eq!(id.as_str(), "did:plc:abc123");
    assert_eq!(id.to_string(), "did:plc:abc123");
}

#[test]
fn at_identifier_handle_is_classified_as_handle() {
    let id = AtIdentifier::from_str("alice.example.com").unwrap();
    assert!(matches!(id, AtIdentifier::Handle(_)));
    assert_eq!(id.as_str(), "alice.example.com");
    assert_eq!(id.to_string(), "alice.example.com");
}

#[test]
fn at_identifier_failure_is_generic() {
    assert_eq!(AtIdentifier::from_str("not an identifier"), Err(ParseError::AtIdentifier));
    assert_eq!(AtIdentifier::from_str("did:plc:"), Err(ParseError::AtIdentifier));
    assert_eq!(AtIdentifier::from_str("-alice.example.com"), Err(ParseError::AtIdentifier));
    assert_eq!(AtIdentifier::from_str(""), Err(ParseError::AtIdentifier));
}

#[test]
fn at_identifier_round_trip_keeps_variant() {
    let did = AtIdentifier::from_str("did:web:example.com").unwrap();
    let again = AtIdentifier::from_str(did.as_str()).unwrap();
    assert_eq!(did, again);
    assert!(matches!(again, AtIdentifier::Did(_)));
    let handle = AtIdentifier::from_str("example.com").unwrap();
    let again = AtIdentifier::from_str(handle.as_str()).unwrap();
    assert_eq!(handle, again);
    assert!(matches!(again, AtIdentifier::Handle(_)));
    assert_ne!(did, handle);
    assert_eq!(did.clone(), did);
}

#[test]
fn at_identifier_bytes_validator() {
    assert!(is_valid_at_identifier(b"did:plc:abc"));
    assert!(is_valid_at_identifier(b"alice.test"));
    assert!(!is_valid_at_identifier(b"alice"));
}

#[test]
fn parse_error_constructors_and_messages() {
    assert_eq!(ParseError::handle(), ParseError::Handle);
    assert_eq!(ParseError::did(), ParseError::Did);
    assert_eq!(ParseError::at_identifier(), ParseError::AtIdentifier);
    assert_eq!(ParseError::nsid(), ParseError::Nsid);
    assert_eq!(ParseError::record_key(), ParseError::RecordKey);
    assert_eq!(ParseError::tid(), ParseError::Tid);
    assert_eq!(ParseError::at_uri(), ParseError::AtUri);
    assert_eq!(ParseError::Handle.message(), "invalid handle");
    assert_eq!(ParseError::Did.message(), "invalid DID");
    assert_eq!(ParseError::AtIdentifier.message(), "invalid at-identifier");
    assert_eq!(ParseError::Nsid.message(), "invalid NSID");
    assert_eq!(ParseError::RecordKey.message(), "invalid record key");
    assert_eq!(ParseError::Tid.message(), "invalid TID");
    assert_eq!(ParseError::AtUri.message(), "invalid AT-URI");
}

#[test]
fn did_parts() {
    let d = Did::from_str("did:plc:z72i7hdynmk6r22z27h6tvur").unwrap();
    assert_eq!(d.method(), "plc");
    assert_eq!(d.method_id(), "z72i7hdynmk6r22z27h6tvur");
    let d = Did::from_str("did:web:example.com:user:alice").unwrap();
    assert_eq!(d.method(), "web");
    assert_eq!(d.method_id(), "example.com:user:alice");
    let d = Did::from_str("did:m:x").unwrap();
    assert_eq!(d.method(), "m");
    assert_eq!(d.method_id(), "x");
}
