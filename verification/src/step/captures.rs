//! Capture groups of a step pattern matched against the text of a step.

use vstd::prelude::*;

use vstd::string::StringSliceAdditionalSpecFns;
use vstd::utf8::{
    decode_utf8, encode_utf8, encode_utf8_decode_utf8, encode_utf8_valid_utf8, is_char_boundary,
    is_char_boundary_iff_not_is_continuation_byte, is_char_boundary_start_end_of_seq,
};

use crate::feature::opt_view;

verus! {

#[verifier::external_type_specification]
#[verifier::external_body]
pub struct ExCaptureLocations(::regex::CaptureLocations);

/// Byte offsets `(start, end)` held by a
/// [`CaptureLocations`](::regex::CaptureLocations) for each capture group, in
/// order; `None` for a group that took no part in the match.
pub uninterp spec fn capture_spans(c: ::regex::CaptureLocations) -> Seq<Option<(usize, usize)>>;

/// The regex a [`CaptureLocations`](::regex::CaptureLocations) was created for.
pub uninterp spec fn locations_regex(c: ::regex::CaptureLocations) -> ::regex::Regex;

/// Byte offsets of every capture group of the match of `r` in `text` (group
/// `0` is the whole match); `None` when `r` does not match `text`.
pub uninterp spec fn regex_captures(r: ::regex::Regex, text: Seq<char>) -> Option<Seq<Option<(usize, usize)>>>;

/// Name of every capture group of `r`, in order; `None` for an unnamed one.
pub uninterp spec fn regex_capture_names(r: ::regex::Regex) -> Seq<Option<Seq<char>>>;

/// Every present offset pair lies inside `text`, in order, on character
/// boundaries of its UTF-8 encoding.
pub open spec fn spans_fit(spans: Seq<Option<(usize, usize)>>, text: Seq<char>) -> bool {
    forall|i: int|
        0 <= i < spans.len() ==> (#[trigger] spans[i] matches Some(p) ==> p.0 <= p.1 <= encode_utf8(text).len()
            && is_char_boundary(encode_utf8(text), p.0 as int)
            && is_char_boundary(encode_utf8(text), p.1 as int))
}

/// Characters of an optional name, one by one.
pub open spec fn opt_strings_view(v: Seq<Option<String>>) -> Seq<Option<Seq<char>>> {
    v.map_values(|o: Option<String>| opt_view(o))
}

/// `Regex::capture_locations`: fresh capture locations for `re`.
#[verifier::external_body]
pub(crate) fn capture_locations(re: &::regex::Regex) -> (c: ::regex::CaptureLocations)
    ensures
        locations_regex(c) == *re,
{
    re.capture_locations()
}

/// `Regex::captures_read`: searches `text` for `re`; on a match it stores the
/// offsets of every group in `locs` and returns those of the whole match,
/// which are also those of group `0`. All offsets are byte offsets on
/// character boundaries of `text`. It may panic when `locs` was created for
/// another regex, which the `requires` rules out.
#[verifier::external_body]
pub(crate) fn captures_read(re: &::regex::Regex, locs: &mut ::regex::CaptureLocations, text: &str) -> (m: Option<(usize, usize)>)
    requires
        locations_regex(*old(locs)) == *re,
    ensures
        locations_regex(*final(locs)) == *re,
        m is Some <==> regex_captures(*re, text@) is Some,
        m matches Some(w) ==> {
            &&& capture_spans(*final(locs)) == regex_captures(*re, text@).unwrap()
            &&& capture_spans(*final(locs)).len() >= 1
            &&& capture_spans(*final(locs))[0] == Some(w)
            &&& spans_fit(capture_spans(*final(locs)), text@)
        },
{
    re.captures_read(locs, text).map(|m| (m.start(), m.end()))
}

/// `CaptureLocations::get`: offsets of group `i`; `None` when `i` is not a
/// group or the group took no part in the match.
#[verifier::external_body]
pub(crate) fn locations_get(c: &::regex::CaptureLocations, i: usize) -> (r: Option<(usize, usize)>)
    ensures
        r == if i < capture_spans(*c).len() { capture_spans(*c)[i as int] } else { None },
{
    c.get(i)
}

/// `CaptureLocations::len`: the number of capture groups.
#[verifier::external_body]
pub(crate) fn locations_len(c: &::regex::CaptureLocations) -> (n: usize)
    ensures
        n == capture_spans(*c).len(),
{
    c.len()
}

/// `CaptureLocations::clone`: locations with the same offsets, for the same
/// regex.
#[verifier::external_body]
pub(crate) fn locations_clone(c: &::regex::CaptureLocations) -> (r: ::regex::CaptureLocations)
    ensures
        capture_spans(r) == capture_spans(*c),
        locations_regex(r) == locations_regex(*c),
{
    c.clone()
}

/// `Regex::capture_names`: the name of every capture group, in order.
#[verifier::external_body]
pub(crate) fn capture_names(re: &::regex::Regex) -> (r: Vec<Option<String>>)
    ensures
        opt_strings_view(r@) == regex_capture_names(*re),
{
    re.capture_names().map(|n| n.map(|s| s.to_string())).collect()
}

/// Characters encoded by the bytes `start..end` of the UTF-8 encoding of
/// `text`.
pub open spec fn byte_slice(text: Seq<char>, start: int, end: int) -> Seq<char> {
    decode_utf8(encode_utf8(text).subrange(start, end))
}

/// Text covered by a capture group; empty when the group took no part.
pub open spec fn group_text(text: Seq<char>, span: Option<(usize, usize)>) -> Seq<char> {
    match span {
        Some(p) => byte_slice(text, p.0 as int, p.1 as int),
        None => Seq::empty(),
    }
}

/// Copies the characters at byte offsets `start..end` of `text`.
pub fn slice_bytes(text: &str, start: usize, end: usize) -> (r: String)
    requires
        start <= end <= encode_utf8(text@).len(),
        is_char_boundary(encode_utf8(text@), start as int),
        is_char_boundary(encode_utf8(text@), end as int),
    ensures
        r@ == byte_slice(text@, start as int, end as int),
{
    broadcast use encode_utf8_valid_utf8, encode_utf8_decode_utf8;

    let ghost bytes = encode_utf8(text@);
    let (_, rest) = text.split_at(start);
    let ghost rb = rest.spec_bytes();
    assert(rb =~= bytes.subrange(start as int, bytes.len() as int));
    proof {
        let k = end - start;
        if end == bytes.len() {
            is_char_boundary_start_end_of_seq(rb);
            assert(rb.len() == k);
        } else if k == 0 {
            is_char_boundary_start_end_of_seq(rb);
        } else {
            is_char_boundary_iff_not_is_continuation_byte(bytes, end as int);
            is_char_boundary_iff_not_is_continuation_byte(rb, k as int);
            assert(rb[k as int] == bytes[end as int]);
        }
    }
    let (mid, _) = rest.split_at(end - start);
    assert(mid.spec_bytes() =~= bytes.subrange(start as int, end as int));
    assert(decode_utf8(encode_utf8(mid@)) == mid@);
    mid.to_owned()
}

} // verus!
