//! Header fields, as hyper holds them.

use hyper::header::{HeaderMap, HeaderValue, InvalidHeaderValue, ToStrError};
use vstd::prelude::*;

verus! {

/// hyper's header value.
#[verifier::external_type_specification]
#[verifier::external_body]
pub struct ExHeaderValue(hyper::header::HeaderValue);

/// hyper's multimap of header names to values.
#[verifier::external_type_specification]
#[verifier::external_body]
#[verifier::reject_recursive_types(T)]
pub struct ExHeaderMap<T>(hyper::header::HeaderMap<T>);

/// hyper's error for a header value that holds other than visible ASCII.
#[verifier::external_type_specification]
#[verifier::external_body]
pub struct ExToStrError(hyper::header::ToStrError);

/// hyper's error for bytes that cannot be a header value.
#[verifier::external_type_specification]
#[verifier::external_body]
pub struct ExInvalidHeaderValue(hyper::header::InvalidHeaderValue);

/// The bytes that a header value holds.
pub uninterp spec fn value_bytes(value: HeaderValue) -> Seq<u8>;

/// Whether a header value is marked as sensitive.
pub uninterp spec fn value_sensitive(value: HeaderValue) -> bool;

/// The fields of a header map in the order in which the map is walked: name,
/// bytes of the value, and whether the value is marked as sensitive.
pub uninterp spec fn header_fields(map: HeaderMap<HeaderValue>) -> Seq<(Seq<char>, Seq<u8>, bool)>;

/// A header field.
#[derive(Clone)]
pub struct HeaderField {
    /// The name, in lower case.
    pub name: String,
    pub value: HeaderValue,
}

impl View for HeaderField {
    type V = (Seq<char>, Seq<u8>, bool);

    open spec fn view(&self) -> (Seq<char>, Seq<u8>, bool) {
        (self.name@, value_bytes(self.value), value_sensitive(self.value))
    }
}

/// What a list of fields holds.
pub open spec fn fields_view(fields: Seq<HeaderField>) -> Seq<(Seq<char>, Seq<u8>, bool)> {
    fields.map_values(|f: HeaderField| f@)
}

/// The value of the first field with the given name: its bytes, and whether it
/// is marked as sensitive.
pub open spec fn first_field(fields: Seq<(Seq<char>, Seq<u8>, bool)>, name: Seq<char>) -> Option<
    (Seq<u8>, bool),
>
    decreases fields.len(),
{
    if fields.len() == 0 {
        None
    } else if fields[0].0 == name {
        Some((fields[0].1, fields[0].2))
    } else {
        first_field(fields.drop_first(), name)
    }
}

/// A value's bytes and its mark, where there is a value.
pub open spec fn value_view(value: Option<&HeaderValue>) -> Option<(Seq<u8>, bool)> {
    match value {
        Some(v) => Some((value_bytes(*v), value_sensitive(*v))),
        None => None,
    }
}

/// Visible ASCII, space and tab.
pub open spec fn visible(b: u8) -> bool {
    32 <= b < 127 || b == 9
}

/// Bytes that are visible ASCII throughout.
pub open spec fn all_visible(bytes: Seq<u8>) -> bool {
    forall|i: int| 0 <= i < bytes.len() ==> visible(#[trigger] bytes[i])
}

/// Bytes that a header value may hold.
pub open spec fn valid_value(bytes: Seq<u8>) -> bool {
    forall|i: int| 0 <= i < bytes.len() ==> visible(#[trigger] bytes[i]) || bytes[i] >= 128
}

/// A hexadecimal digit, in lower case.
pub open spec fn hex_digit(n: int) -> char {
    if n < 10 {
        (48 + n) as char
    } else {
        (87 + n) as char
    }
}

/// How one byte of a header value is shown between quotes.
pub open spec fn escaped(b: u8) -> Seq<char> {
    if b == 34 {
        seq!['\\', '"']
    } else if visible(b) {
        seq![b as char]
    } else if b < 16 {
        seq!['\\', 'x', hex_digit(b as int)]
    } else {
        seq!['\\', 'x', hex_digit(b as int / 16), hex_digit(b as int % 16)]
    }
}

/// How the bytes of a header value are shown between quotes.
pub open spec fn escaped_all(bytes: Seq<u8>) -> Seq<char>
    decreases bytes.len(),
{
    if bytes.len() == 0 {
        seq![]
    } else {
        escaped_all(bytes.drop_last()) + escaped(bytes.last())
    }
}

/// How a header value is shown for debugging.
pub open spec fn shown(bytes: Seq<u8>, sensitive: bool) -> Seq<char> {
    if sensitive {
        "Sensitive"@
    } else {
        seq!['"'] + escaped_all(bytes) + seq!['"']
    }
}

/// Names in the form in which header maps hold them, as far as this crate asks
/// for them.
pub open spec fn lower_case_name(name: Seq<char>) -> bool {
    &&& 0 < name.len() <= 64
    &&& forall|i: int|
        0 <= i < name.len() ==> 'a' <= #[trigger] name[i] <= 'z' || name[i] == '-'
}

/// `HeaderValue::as_bytes`, of hyper: the bytes that the value holds.
pub assume_specification[ HeaderValue::as_bytes ](value: &HeaderValue) -> (r: &[u8])
    ensures
        r@ == value_bytes(*value),
;

/// `HeaderValue::to_str`, of hyper: it succeeds exactly where the value is
/// visible ASCII throughout, and then gives the value as text.
pub assume_specification[ HeaderValue::to_str ](value: &HeaderValue) -> (r: Result<&str, ToStrError>)
    ensures
        match r {
            Ok(text) => all_visible(value_bytes(*value)) && text@ == crate::text::ascii_text(
                value_bytes(*value),
            ),
            Err(_) => !all_visible(value_bytes(*value)),
        },
;

/// `HeaderValue::from_str`, of hyper: it succeeds exactly where every byte of
/// the text may stand in a header value; the value then holds these bytes and
/// is not marked as sensitive.
pub assume_specification[ HeaderValue::from_str ](text: &str) -> (r: Result<
    HeaderValue,
    InvalidHeaderValue,
>)
    ensures
        match r {
            Ok(value) => valid_value(vstd::utf8::encode_utf8(text@)) && value_bytes(value)
                == vstd::utf8::encode_utf8(text@) && !value_sensitive(value),
            Err(_) => !valid_value(vstd::utf8::encode_utf8(text@)),
        },
;

/// `HeaderValue::from` on a `usize`, of hyper: the value holds the number's
/// decimal digits and is not marked as sensitive.
#[verifier::external_body]
pub(crate) fn number_value(n: usize) -> (r: HeaderValue)
    ensures
        value_bytes(r) == crate::text::decimal(n as nat),
        !value_sensitive(r),
{
    HeaderValue::from(n)
}

/// `HeaderValue::clone`, of hyper: the copy holds the same bytes and the same
/// mark.
pub assume_specification[ <HeaderValue as Clone>::clone ](value: &HeaderValue) -> (r: HeaderValue)
    ensures
        value_bytes(r) == value_bytes(*value),
        value_sensitive(r) == value_sensitive(*value),
;

/// `<HeaderValue as Debug>::fmt`, of hyper: the bytes between quotes, with the
/// quotes among them and what is not visible ASCII escaped; or, of a value that
/// is marked as sensitive, a fixed word.
#[verifier::external_body]
pub(crate) fn show_value(value: &HeaderValue) -> (r: String)
    ensures
        r@ == shown(value_bytes(*value), value_sensitive(*value)),
{
    format!("{value:?}")
}

/// `HeaderMap::get`, of hyper: the first value under the name, if there is one.
#[verifier::external_body]
pub(crate) fn get_value<'a>(map: &'a HeaderMap<HeaderValue>, name: &str) -> (r: Option<
    &'a HeaderValue,
>)
    requires
        lower_case_name(name@),
    ensures
        value_view(r) == first_field(header_fields(*map), name@),
{
    map.get(name)
}

/// `HeaderMap::iter`, of hyper: all the fields, in the order in which the map is
/// walked.
#[verifier::external_body]
pub(crate) fn list_fields(map: &HeaderMap<HeaderValue>) -> (r: Vec<HeaderField>)
    ensures
        fields_view(r@) == header_fields(*map),
{
    map.iter()
        .map(|(name, value)| HeaderField { name: name.as_str().to_string(), value: value.clone() })
        .collect()
}

/// Of several fields with one name the first is found, whatever stands before and
/// behind it; and where no field has the name, none is.
pub proof fn law_first_field_is_found(
    before: Seq<(Seq<char>, Seq<u8>, bool)>,
    field: (Seq<char>, Seq<u8>, bool),
    after: Seq<(Seq<char>, Seq<u8>, bool)>,
)
    requires
        forall|k: int| 0 <= k < before.len() ==> (#[trigger] before[k]).0 != field.0,
    ensures
        first_field(before, field.0) is None,
        first_field(before + seq![field] + after, field.0) == Some((field.1, field.2)),
    decreases before.len(),
{
    let all = before + seq![field] + after;
    if before.len() > 0 {
        let rest = before.drop_first();
        assert forall|k: int| 0 <= k < rest.len() implies (#[trigger] rest[k]).0 != field.0 by {
            assert(rest[k] == before[k + 1]);
        }
        law_first_field_is_found(rest, field, after);
        assert(all[0] == before[0]);
        assert(all.drop_first() =~= rest + seq![field] + after);
    } else {
        assert(all[0] == field);
    }
}

/// The field in place `i` is the first with its name.
pub open spec fn is_first(
    fields: Seq<(Seq<char>, Seq<u8>, bool)>,
    i: int,
    name: Seq<char>,
) -> bool {
    &&& 0 <= i < fields.len()
    &&& fields[i].0 == name
    &&& forall|k: int| 0 <= k < i ==> (#[trigger] fields[k]).0 != name
}

/// No field has the name.
pub open spec fn is_absent(fields: Seq<(Seq<char>, Seq<u8>, bool)>, name: Seq<char>) -> bool {
    forall|k: int| 0 <= k < fields.len() ==> (#[trigger] fields[k]).0 != name
}

/// The first field with a name is the one that is found; where there is none, none
/// is found.
pub proof fn lemma_first_field(fields: Seq<(Seq<char>, Seq<u8>, bool)>, i: int, name: Seq<char>)
    ensures
        is_first(fields, i, name) ==> first_field(fields, name) == Some((fields[i].1, fields[i].2)),
        is_absent(fields, name) ==> first_field(fields, name) is None,
{
    if is_first(fields, i, name) {
        law_first_field_is_found(fields.take(i), fields[i], fields.skip(i + 1));
        assert(fields.take(i) + seq![fields[i]] + fields.skip(i + 1) =~= fields);
    }
    if is_absent(fields, name) {
        law_first_field_is_found(fields, (name, seq![], false), seq![]);
    }
}

/// Either some field is the first with a name, or none has it. Its place is given
/// back.
pub proof fn lemma_first_or_absent(
    fields: Seq<(Seq<char>, Seq<u8>, bool)>,
    name: Seq<char>,
) -> (i: int)
    ensures
        is_first(fields, i, name) || is_absent(fields, name),
    decreases fields.len(),
{
    if fields.len() == 0 {
        0
    } else {
        let init = fields.drop_last();
        let i = lemma_first_or_absent(init, name);
        if is_first(init, i, name) {
            assert forall|k: int| 0 <= k < i implies (#[trigger] fields[k]).0 != name by {
                assert(init[k] == fields[k]);
            }
            i
        } else {
            assert forall|k: int| 0 <= k < init.len() implies (#[trigger] fields[k]).0 != name by {
                assert(init[k] == fields[k]);
            }
            fields.len() - 1
        }
    }
}

/// Between quotes, values one behind the other are shown one behind the other; of
/// the single bytes, a quote has a backslash before it, what can be seen of ASCII
/// is shown as it is, and a byte beyond ASCII by its two hexadecimal digits.
pub proof fn law_values_are_quoted(a: Seq<u8>, b: Seq<u8>, byte: u8)
    ensures
        shown(a, false) == seq!['"'] + escaped_all(a) + seq!['"'],
        escaped_all(a + b) == escaped_all(a) + escaped_all(b),
        byte == 34 ==> escaped_all(seq![byte]) == seq!['\\', '"'],
        byte != 34 && (32 <= byte < 127 || byte == 9) ==> escaped_all(seq![byte]) == seq![
            byte as char,
        ],
        byte >= 128 ==> escaped_all(seq![byte]) == seq![
            '\\',
            'x',
            "0123456789abcdef"@[byte as int / 16],
            "0123456789abcdef"@[byte as int % 16],
        ],
    decreases b.len(),
{
    reveal_strlit("0123456789abcdef");
    let one = seq![byte];
    assert(one.drop_last() =~= seq![]);
    assert(escaped_all(one.drop_last()) =~= seq![]);
    assert(escaped_all(one) =~= escaped(byte));
    if b.len() == 0 {
        assert(a + b =~= a);
        assert(escaped_all(b) =~= seq![]);
        assert(escaped_all(a + b) =~= escaped_all(a) + escaped_all(b));
    } else {
        law_values_are_quoted(a, b.drop_last(), byte);
        assert((a + b).drop_last() =~= a + b.drop_last());
        assert((a + b).last() == b.last());
        assert(escaped_all(a + b) =~= escaped_all(a) + escaped_all(b));
    }
}

} // verus!
