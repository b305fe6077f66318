//! The unit of work: one request's identity, body and eventual response.

use vstd::prelude::*;

verus! {

/// One in-flight request. The acceptor creates it once, with an id that no
/// other unit carries; the id is also the key under which the router keeps the
/// connection that waits for the response. Only the worker and the endpoint
/// modules write the response fields.
#[derive(Clone, Debug, PartialEq, Eq)]
pub struct RequestUnit {
    /// Process-lifetime unique identity.
    pub id: usize,
    /// Path of the endpoint module that is to process the request.
    pub endpoint_module_name: Option<String>,
    /// The raw request body.
    pub body: String,
    /// What the module produced, before it is placed in the response.
    pub output_for_response: Option<String>,
    /// Status code of the response.
    pub response_status: Option<u16>,
    /// Header lines of the response, as name and value.
    pub response_headers: Option<Vec<(String, String)>>,
    /// Body of the response.
    pub response_body: Option<String>,
}

/// A request as plain mathematical values.
pub ghost struct RequestUnitView {
    pub id: usize,
    pub endpoint_module_name: Option<Seq<char>>,
    pub body: Seq<char>,
    pub output_for_response: Option<Seq<char>>,
    pub response_status: Option<u16>,
    pub response_headers: Option<Seq<(Seq<char>, Seq<char>)>>,
    pub response_body: Option<Seq<char>>,
}

/// The text held by an optional string.
pub open spec fn text_of(text: Option<String>) -> Option<Seq<char>> {
    match text {
        Some(t) => Some(t@),
        None => None,
    }
}

/// Header lines as pairs of texts.
pub open spec fn headers_of(headers: Seq<(String, String)>) -> Seq<(Seq<char>, Seq<char>)> {
    Seq::new(headers.len(), |i: int| (headers[i].0@, headers[i].1@))
}

impl View for RequestUnit {
    type V = RequestUnitView;

    open spec fn view(&self) -> RequestUnitView {
        RequestUnitView {
            id: self.id,
            endpoint_module_name: text_of(self.endpoint_module_name),
            body: self.body@,
            output_for_response: text_of(self.output_for_response),
            response_status: self.response_status,
            response_headers: match self.response_headers {
                Some(h) => Some(headers_of(h@)),
                None => None,
            },
            response_body: text_of(self.response_body),
        }
    }
}

impl RequestUnitView {
    /// A request as the acceptor creates it: nothing of the response is set.
    pub open spec fn fresh(id: usize, endpoint_module_name: Seq<char>, body: Seq<char>) -> RequestUnitView {
        RequestUnitView {
            id,
            endpoint_module_name: Some(endpoint_module_name),
            body,
            output_for_response: None,
            response_status: None,
            response_headers: None,
            response_body: None,
        }
    }

    /// The request with `output` placed in its response: status 200, one
    /// `Content-Type: text/plain` header, and `output` as the body.
    pub open spec fn answered(self, output: Seq<char>) -> RequestUnitView {
        RequestUnitView {
            output_for_response: Some(output),
            response_status: Some(200u16),
            response_headers: Some(seq![("Content-Type"@, "text/plain"@)]),
            response_body: Some(output),
            ..self
        }
    }
}

impl RequestUnit {
    /// A request with the given identity, endpoint module and body, and an
    /// empty response.
    pub fn new(id: usize, endpoint_module_name: String, body: String) -> (unit: RequestUnit)
        ensures
            unit@ == RequestUnitView::fresh(id, endpoint_module_name@, body@),
    {
        RequestUnit {
            id,
            endpoint_module_name: Some(endpoint_module_name),
            body,
            output_for_response: None,
            response_status: None,
            response_headers: None,
            response_body: None,
        }
    }

    /// Places `output` in the response of the request.
    pub fn answer(self, output: String) -> (unit: RequestUnit)
        ensures
            unit@ == self@.answered(output@),
    {
        let mut headers: Vec<(String, String)> = Vec::new();
        headers.push(("Content-Type".to_string(), "text/plain".to_string()));
        proof {
            assert(headers_of(headers@) =~= seq![("Content-Type"@, "text/plain"@)]);
        }
        let body = output.clone();
        RequestUnit {
            id: self.id,
            endpoint_module_name: self.endpoint_module_name,
            body: self.body,
            output_for_response: Some(output),
            response_status: Some(200),
            response_headers: Some(headers),
            response_body: Some(body),
        }
    }
}

} // verus!
