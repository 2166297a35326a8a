//! What holds of the grammars and parsers together.

use vstd::prelude::*;

use crate::at_uri::AtUri;
use crate::cid_link::{cid_rewritten, spec_is_valid_cid, CidString};
use crate::datetime::{
    lemma_canonical_is_valid, lemma_fraction_of_valid, lemma_to_utc_keeps_moment,
    spec_accepts_datetime, spec_canonical, spec_fraction, spec_moment, spec_offset,
    spec_offset_minutes, spec_utc,
};
use crate::did::{
    did_prefix, lemma_did_charset, spec_is_did_char, spec_is_valid_did, Did, COLON,
};
use crate::error::ParseError;
use crate::handle::{spec_is_valid_handle, Handle, DOT};
use crate::nsid::{spec_is_valid_nsid, Nsid};
use crate::nullable::{spec_from_field, spec_into_field, Nullable};
use crate::rkey::{
    reserved_dot, reserved_dot_dot, spec_is_record_key_char, spec_is_valid_record_key, RecordKey,
};
use crate::scan::{lemma_segments_cover, segments, spec_is_alnum, spec_is_alpha};
use crate::tid::{spec_is_tid_char, spec_is_valid_tid, Tid};
use crate::{
    spec_is_segment_char, spec_is_valid_at_identifier, spec_is_valid_domain_segment,
    spec_is_valid_nsid_name, spec_is_valid_tld,
};

verus! {

/// A handle that was parsed is its own rendering, so parsing the rendering
/// of a parsed handle succeeds and gives the same handle again.
pub proof fn lemma_handle_round_trip(text: Seq<char>)
    requires
        Handle::spec_from_str(text) is Ok,
    ensures
        Handle::spec_from_str(Handle::spec_from_str(text).unwrap()) == Handle::spec_from_str(text),
{
}

/// Parsing the rendering of a parsed DID succeeds and gives the same DID
/// again.
pub proof fn lemma_did_round_trip(text: Seq<char>)
    requires
        Did::spec_from_str(text) is Ok,
    ensures
        Did::spec_from_str(Did::spec_from_str(text).unwrap()) == Did::spec_from_str(text),
{
}

/// Parsing the rendering of a parsed NSID succeeds and gives the same NSID
/// again.
pub proof fn lemma_nsid_round_trip(text: Seq<char>)
    requires
        Nsid::spec_from_str(text) is Ok,
    ensures
        Nsid::spec_from_str(Nsid::spec_from_str(text).unwrap()) == Nsid::spec_from_str(text),
{
}

/// Parsing the rendering of a parsed record key succeeds and gives the same
/// record key again.
pub proof fn lemma_record_key_round_trip(text: Seq<char>)
    requires
        RecordKey::spec_from_str(text) is Ok,
    ensures
        RecordKey::spec_from_str(RecordKey::spec_from_str(text).unwrap())
            == RecordKey::spec_from_str(text),
{
}

/// Parsing the rendering of a parsed TID succeeds and gives the same TID
/// again.
pub proof fn lemma_tid_round_trip(text: Seq<char>)
    requires
        Tid::spec_from_str(text) is Ok,
    ensures
        Tid::spec_from_str(Tid::spec_from_str(text).unwrap()) == Tid::spec_from_str(text),
{
}

/// Parsing the rendering of a parsed AT-URI succeeds and gives the same
/// AT-URI again.
pub proof fn lemma_at_uri_round_trip(text: Seq<char>)
    requires
        AtUri::spec_from_str(text) is Ok,
    ensures
        AtUri::spec_from_str(AtUri::spec_from_str(text).unwrap()) == AtUri::spec_from_str(text),
{
}

/// Parsing the rendering of a parsed CID succeeds and gives the same CID
/// again.
pub proof fn lemma_cid_round_trip(text: Seq<char>)
    requires
        CidString::spec_checked(text, cid_rewritten(text)) is Ok,
    ensures
        spec_is_valid_cid(text),
        CidString::spec_checked(text, cid_rewritten(text)) == Ok::<Seq<char>, ParseError>(text),
        CidString::spec_checked(
            CidString::spec_checked(text, cid_rewritten(text)).unwrap(),
            cid_rewritten(CidString::spec_checked(text, cid_rewritten(text)).unwrap()),
        ) == CidString::spec_checked(text, cid_rewritten(text)),
{
}

/// The canonical text of a datetime that parsing accepts is accepted too, names
/// the same moment of UTC, and is its own canonical text: a second parse
/// changes nothing.
pub proof fn lemma_datetime_round_trip(s: Seq<u8>)
    requires
        spec_accepts_datetime(s),
    ensures
        spec_accepts_datetime(spec_canonical(s)),
        spec_utc(spec_canonical(s)) == spec_utc(s),
        spec_fraction(spec_canonical(s)) == spec_fraction(s),
        spec_canonical(spec_canonical(s)) == spec_canonical(s),
{
    lemma_fraction_of_valid(s);
    lemma_to_utc_keeps_moment(spec_moment(s), spec_offset_minutes(spec_offset(s)));
    lemma_canonical_is_valid(spec_utc(s).unwrap(), spec_fraction(s));
}

/// A segment of letters and digits is a domain segment exactly when it has 1
/// to 63 bytes: 1 and 63 are accepted, 0 and 64 are not.
pub proof fn lemma_segment_length_bounds(s: Seq<u8>)
    requires
        forall|i: int| 0 <= i < s.len() ==> spec_is_alnum(#[trigger] s[i]),
    ensures
        spec_is_valid_domain_segment(s) <==> 1 <= s.len() <= 63,
{
}

/// A segment of letters is a name segment exactly when it has 1 to 63 bytes,
/// and then it is a top-level-domain segment too.
pub proof fn lemma_name_length_bounds(s: Seq<u8>)
    requires
        forall|i: int| 0 <= i < s.len() ==> spec_is_alpha(#[trigger] s[i]),
    ensures
        spec_is_valid_nsid_name(s) <==> 1 <= s.len() <= 63,
        spec_is_valid_tld(s) <==> 1 <= s.len() <= 63,
{
}

/// A text with a segment that is no domain segment (empty, longer than 63
/// bytes, with `-` at an end, or with a byte outside the class) is no handle,
/// whatever its other segments are.
pub proof fn lemma_handle_rejects_bad_segment(s: Seq<u8>, i: int)
    requires
        0 <= i < segments(s, DOT).len(),
        !spec_is_valid_domain_segment(segments(s, DOT)[i]),
    ensures
        !spec_is_valid_handle(s),
{
}

/// A text with a segment that is no domain segment is no NSID, whatever its
/// other segments are.
pub proof fn lemma_nsid_rejects_bad_segment(s: Seq<u8>, i: int)
    requires
        0 <= i < segments(s, DOT).len(),
        !spec_is_valid_domain_segment(segments(s, DOT)[i]),
    ensures
        !spec_is_valid_nsid(s),
{
}

/// A text of fewer segments than the grammar asks for is rejected, whatever
/// the segments are: a handle has two or more, an NSID three or more.
pub proof fn lemma_rejects_too_few_segments(s: Seq<u8>)
    ensures
        segments(s, DOT).len() < 2 ==> !spec_is_valid_handle(s),
        segments(s, DOT).len() < 3 ==> !spec_is_valid_nsid(s),
{
}

/// A text longer than its grammar allows is rejected, whatever its bytes are:
/// an NSID has at most 317 bytes, a record key at most 512, a TID exactly 13.
pub proof fn lemma_rejects_bad_length(s: Seq<u8>)
    ensures
        s.len() > 317 ==> !spec_is_valid_nsid(s),
        s.len() > 512 || s.len() == 0 ==> !spec_is_valid_record_key(s),
        s.len() != 13 ==> !spec_is_valid_tid(s),
{
}

/// A text with a byte that is neither `.` nor a letter, a digit or `-` is
/// neither a handle nor an NSID.
pub proof fn lemma_domain_rejects_byte(s: Seq<u8>, i: int)
    requires
        0 <= i < s.len(),
        s[i] != DOT,
        !spec_is_segment_char(s[i]),
    ensures
        !spec_is_valid_handle(s),
        !spec_is_valid_nsid(s),
{
    let at = lemma_segments_cover(s, DOT, i);
    let seg = segments(s, DOT)[at.0];
    assert(!spec_is_segment_char(seg[at.1]));
    assert(!spec_is_valid_domain_segment(seg));
    lemma_handle_rejects_bad_segment(s, at.0);
    lemma_nsid_rejects_bad_segment(s, at.0);
}

/// A text with a byte outside the class of its grammar is rejected, wherever
/// the byte stands: no DID, no record key and no TID holds such a byte.
pub proof fn lemma_rejects_byte_outside_class(s: Seq<u8>, i: int)
    requires
        0 <= i < s.len(),
    ensures
        !spec_is_did_char(s[i]) ==> !spec_is_valid_did(s),
        !spec_is_record_key_char(s[i]) ==> !spec_is_valid_record_key(s),
        !spec_is_tid_char(s[i]) ==> !spec_is_valid_tid(s),
{
    if spec_is_valid_did(s) {
        lemma_did_charset(s);
    }
}

/// The reserved keys `.` and `..` are no record keys, though every byte of
/// them may stand in one.
pub proof fn lemma_record_key_rejects_reserved()
    ensures
        !spec_is_valid_record_key(reserved_dot()),
        !spec_is_valid_record_key(reserved_dot_dot()),
{
}

/// No text is both a DID and a handle: a DID holds `:`, which no segment of a
/// handle may hold. So the DID grammar alone decides which of the two an
/// identifier is.
pub proof fn lemma_did_is_no_handle(s: Seq<u8>)
    requires
        spec_is_valid_did(s),
    ensures
        !spec_is_valid_handle(s),
        spec_is_valid_at_identifier(s),
{
    assert(s.subrange(0, 4)[3] == did_prefix()[3]);
    assert(s[3] == COLON);
    lemma_domain_rejects_byte(s, 3);
}

/// The three states of a field are written in three different ways, and what
/// was written is read back as the state it was written for.
pub proof fn lemma_nullable_round_trip<T>(n: Nullable<T>)
    ensures
        spec_from_field(spec_into_field(n)) == n,
        spec_into_field(n) is None <==> n is Absent,
        spec_into_field(n) == Some(None::<T>) <==> n is Null,
{
}

/// Every written field stands for one state, and writing that state gives
/// the field again.
pub proof fn lemma_field_round_trip<T>(field: Option<Option<T>>)
    ensures
        spec_into_field(spec_from_field(field)) == field,
{
}

} // verus!
