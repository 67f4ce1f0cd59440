//! Showing a JSON body in colour.

use serde_json::Value;
use vstd::prelude::*;
use vstd::slice::slice_to_vec;

verus! {

/// serde_json's JSON value.
#[verifier::external_type_specification]
#[verifier::external_body]
pub struct ExValue(serde_json::Value);

/// serde_json's error.
#[verifier::external_type_specification]
#[verifier::external_body]
pub struct ExJsonError(serde_json::Error);

/// What a JSON value holds, written out without white space.
pub uninterp spec fn json_text(value: Value) -> Seq<char>;

/// The JSON value that `serde_json::from_slice` reads from the bytes, `None`
/// where it refuses them.
pub uninterp spec fn parsed_json(bytes: Seq<u8>) -> Option<Seq<char>>;

/// What `serde_json::to_string_pretty` writes of a JSON value.
pub uninterp spec fn pretty_json(text: Seq<char>) -> Option<Seq<char>>;

/// What `colored_json::to_colored_json` writes of a JSON value, with colour on,
/// where `painting` lists for each piece of the output whether terminal colours
/// were enabled in the process when the piece was written.
pub uninterp spec fn colored_json(text: Seq<char>, painting: Seq<bool>) -> Option<Seq<char>>;

/// The text in a `Result`, where there is one.
pub open spec fn written<E>(r: Result<String, E>) -> Option<Seq<char>> {
    match r {
        Ok(s) => Some(s@),
        Err(_) => None,
    }
}

/// `serde_json::from_slice` to a `Value`: it reads the bytes as one JSON text, or
/// refuses them.
#[verifier::external_body]
fn parse(bytes: &[u8]) -> (r: Result<Value, serde_json::Error>)
    ensures
        match r {
            Ok(value) => parsed_json(bytes@) == Some(json_text(value)),
            Err(_) => parsed_json(bytes@) is None,
        },
{
    serde_json::from_slice::<Value>(bytes)
}

/// `colored_json::to_colored_json` with colour on: the value in several lines,
/// with terminal colours. It paints a piece only while colours are enabled in
/// the process, as they are unless some other code turns them off.
#[verifier::external_body]
fn write_colored(value: &Value) -> (r: Result<String, serde_json::Error>)
    ensures
        exists|painting: Seq<bool>| written(r) == #[trigger] colored_json(json_text(*value), painting),
{
    colored_json::to_colored_json(value, colored_json::ColorMode::On)
}

/// `serde_json::to_string_pretty`: the value in several lines.
#[verifier::external_body]
fn write_pretty(value: &Value) -> (r: Result<String, serde_json::Error>)
    ensures
        written(r) == pretty_json(json_text(*value)),
{
    serde_json::to_string_pretty(value)
}

/// `<Value as Display>::fmt`, of serde_json: the value without white space.
#[verifier::external_body]
fn write_compact(value: &Value) -> (r: String)
    ensures
        r@ == json_text(*value),
{
    value.to_string()
}

/// The first of three texts that is there.
pub open spec fn first_written(
    colored: Option<Seq<char>>,
    pretty: Option<Seq<char>>,
    compact: Seq<char>,
) -> Seq<char> {
    match (colored, pretty) {
        (Some(text), _) => text,
        (None, Some(text)) => text,
        (None, None) => compact,
    }
}

/// Chooses how to show a JSON value: in colour; where that failed, in several
/// lines; where that failed too, without white space.
pub fn choose_rendering(
    colored: Option<String>,
    pretty: Option<String>,
    compact: Option<String>,
) -> (r: String)
    requires
        colored is Some || pretty is Some || compact is Some,
    ensures
        colored matches Some(text) ==> r@ == text@,
        colored is None ==> (pretty matches Some(text) ==> r@ == text@),
        colored is None && pretty is None ==> r@ == compact->0@,
{
    match colored {
        Some(text) => text,
        None => match pretty {
            Some(text) => text,
            None => compact.unwrap(),
        },
    }
}

/// The chunk that shows a body: its rendering as JSON, or, where it is not JSON,
/// the body itself.
pub fn json_chunk(body: &[u8], rendering: Option<String>) -> (r: Vec<u8>)
    ensures
        match rendering {
            Some(text) => r@ == vstd::utf8::encode_utf8(text@),
            None => r@ == body@,
        },
{
    match rendering {
        Some(text) => slice_to_vec(text.as_str().as_bytes()),
        None => slice_to_vec(body),
    }
}

/// The chunks that may show a body in colour: of a body that is JSON, its colored
/// form, whatever the state of the terminal colours, and what stands in for it
/// where there is none; of another, the body.
pub open spec fn colored_body(body: Seq<u8>, chunk: Seq<u8>) -> bool {
    match parsed_json(body) {
        Some(text) => exists|painting: Seq<bool>|
            chunk == vstd::utf8::encode_utf8(
                first_written(
                    #[trigger] colored_json(text, painting),
                    pretty_json(text),
                    text,
                ),
            ),
        None => chunk == body,
    }
}

/// Shows a body that is declared to be JSON.
pub fn color_body(body: &[u8]) -> (r: Vec<u8>)
    ensures
        colored_body(body@, r@),
{
    match parse(body) {
        Ok(value) => {
            let mut pretty: Option<String> = None;
            let mut compact: Option<String> = None;
            let colored: Option<String> = match write_colored(&value) {
                Ok(text) => Some(text),
                Err(_) => {
                    match write_pretty(&value) {
                        Ok(text) => {
                            pretty = Some(text);
                        },
                        Err(_) => {
                            compact = Some(write_compact(&value));
                        },
                    }
                    None
                },
            };
            json_chunk(body, Some(choose_rendering(colored, pretty, compact)))
        },
        Err(_) => json_chunk(body, None),
    }
}

/// What a chunk that shows a body in colour is, written out.
pub proof fn lemma_colored(body: Seq<u8>, chunk: Seq<u8>)
    requires
        colored_body(body, chunk),
    ensures
        match parsed_json(body) {
            None => chunk == body,
            Some(text) => exists|painting: Seq<bool>|
                match #[trigger] colored_json(text, painting) {
                    Some(colored) => chunk == vstd::utf8::encode_utf8(colored),
                    None => match pretty_json(text) {
                        Some(pretty) => chunk == vstd::utf8::encode_utf8(pretty),
                        None => chunk == vstd::utf8::encode_utf8(text),
                    },
                },
        },
{
    if let Some(text) = parsed_json(body) {
        let painting = choose|painting: Seq<bool>|
            chunk == vstd::utf8::encode_utf8(
                first_written(#[trigger] colored_json(text, painting), pretty_json(text), text),
            );
        assert(chunk == vstd::utf8::encode_utf8(
            first_written(colored_json(text, painting), pretty_json(text), text),
        ));
    }
}

/// A body that is JSON, of whatever length, is shown in colour; where that cannot be
/// done, in several lines; where that cannot be done either, without white space. A
/// body that is not JSON is shown as it is.
pub proof fn law_json_is_shown_in_colour(body: &[u8], r: Vec<u8>)
    requires
        call_ensures(color_body, (body,), r),
    ensures
        match parsed_json(body@) {
            None => r@ == body@,
            Some(text) => exists|painting: Seq<bool>|
                match #[trigger] colored_json(text, painting) {
                    Some(colored) => r@ == vstd::utf8::encode_utf8(colored),
                    None => match pretty_json(text) {
                        Some(pretty) => r@ == vstd::utf8::encode_utf8(pretty),
                        None => r@ == vstd::utf8::encode_utf8(text),
                    },
                },
        },
{
    lemma_colored(body@, r@);
}

/// The first rendering that there is is chosen, and shown as it is; without one, the
/// body is.
pub proof fn law_first_rendering_is_shown(
    colored: Option<String>,
    pretty: Option<String>,
    compact: Option<String>,
    chosen: String,
    body: &[u8],
    rendering: Option<String>,
    chunk: Vec<u8>,
)
    requires
        call_ensures(choose_rendering, (colored, pretty, compact), chosen),
        call_ensures(json_chunk, (body, rendering), chunk),
    ensures
        colored matches Some(text) ==> chosen@ == text@,
        colored is None ==> (pretty matches Some(text) ==> chosen@ == text@),
        colored is None && pretty is None ==> (compact matches Some(text) ==> chosen@ == text@),
        rendering matches Some(text) ==> chunk@ == vstd::utf8::encode_utf8(text@),
        rendering is None ==> chunk@ == body@,
{
}

} // verus!
