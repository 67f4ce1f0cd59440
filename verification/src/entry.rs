//! A request as it is passed on to listeners.

use crate::headers::{list_fields, HeaderField};
use crate::request::Request;
use vstd::prelude::*;
use vstd::slice::slice_to_vec;

verus! {

/// A request as it is passed on to listeners.
#[derive(Clone)]
pub struct PipeEntry {
    pub uri: String,
    pub method: String,
    pub headers: Vec<HeaderField>,
    pub body: Vec<u8>,
}

/// What is passed on to listeners.
pub struct EntryView {
    pub uri: Seq<char>,
    pub method: Seq<char>,
    pub fields: Seq<(Seq<char>, Seq<u8>, bool)>,
    pub body: Seq<u8>,
}

impl View for PipeEntry {
    type V = EntryView;

    open spec fn view(&self) -> EntryView {
        EntryView {
            uri: self.uri@,
            method: self.method@,
            fields: crate::headers::fields_view(self.headers@),
            body: self.body@,
        }
    }
}

/// What is passed on of a request with the given body.
pub open spec fn entry_of(request: Request, body: Seq<u8>) -> EntryView {
    EntryView {
        uri: request.uri@,
        method: request.method@,
        fields: crate::headers::header_fields(request.headers),
        body,
    }
}

impl PipeEntry {
    /// What is passed on of a request with the given body.
    pub fn new(request: &Request, body: &[u8]) -> (r: PipeEntry)
        ensures
            r@ == entry_of(*request, body@),
    {
        PipeEntry {
            uri: request.uri.clone(),
            method: request.method.clone(),
            headers: list_fields(&request.headers),
            body: slice_to_vec(body),
        }
    }
}

/// All of a request is passed on: its URI, its method, its body, and each of its
/// header fields, in order.
pub proof fn law_all_is_passed_on(request: Request, body: &[u8], r: PipeEntry)
    requires
        call_ensures(PipeEntry::new, (&request, body), r),
    ensures
        r.uri@ == request.uri@,
        r.method@ == request.method@,
        r.body@ == body@,
        r.headers@.len() == crate::headers::header_fields(request.headers).len(),
        forall|i: int|
            0 <= i < r.headers@.len() ==> ({
                let field = crate::headers::header_fields(request.headers)[i];
                &&& (#[trigger] r.headers@[i]).name@ == field.0
                &&& crate::headers::value_bytes(r.headers@[i].value) == field.1
                &&& crate::headers::value_sensitive(r.headers@[i].value) == field.2
            }),
{
    lemma_all_is_passed_on(request, body@, r);
}

/// What an entry holds of a request.
pub proof fn lemma_all_is_passed_on(request: Request, body: Seq<u8>, r: PipeEntry)
    requires
        r@ == entry_of(request, body),
    ensures
        r.uri@ == request.uri@,
        r.method@ == request.method@,
        r.body@ == body,
        r.headers@.len() == crate::headers::header_fields(request.headers).len(),
        forall|i: int|
            0 <= i < r.headers@.len() ==> ({
                let field = crate::headers::header_fields(request.headers)[i];
                &&& (#[trigger] r.headers@[i]).name@ == field.0
                &&& crate::headers::value_bytes(r.headers@[i].value) == field.1
                &&& crate::headers::value_sensitive(r.headers@[i].value) == field.2
            }),
{
    assert(r@.fields.len() == r.headers@.len());
    assert forall|i: int| 0 <= i < r.headers@.len() implies ({
        let field = crate::headers::header_fields(request.headers)[i];
        &&& (#[trigger] r.headers@[i]).name@ == field.0
        &&& crate::headers::value_bytes(r.headers@[i].value) == field.1
        &&& crate::headers::value_sensitive(r.headers@[i].value) == field.2
    }) by {
        assert(r@.fields[i] == r.headers@[i]@);
    }
}

} // verus!
