//! The wire format.
//!
//! A request is a method line, a header block that ends with an empty line,
//! and a body whose first path segment names the endpoint. A response is a
//! status line, header lines, an empty line, and a body.

use crate::request_unit::{headers_of, RequestUnit, RequestUnitView};
use crate::text::{
    chars_of, decimal, decode_utf8_lossy, find, first_match, lemma_first_match, matches_at,
    occurs_at, push_decimal, string_of_range, utf8_lossy_text,
};
use crate::worker::outcome_view;
use vstd::prelude::*;

verus! {

/// What the acceptor reads out of a request.
#[derive(Clone, Debug, PartialEq, Eq)]
pub struct ParsedRequest {
    /// The first path segment of the body.
    pub endpoint_name: String,
    /// All that follows the header block.
    pub body: String,
}

/// A parsed request as plain texts.
pub ghost struct ParsedRequestView {
    pub endpoint_name: Seq<char>,
    pub body: Seq<char>,
}

impl View for ParsedRequest {
    type V = ParsedRequestView;

    open spec fn view(&self) -> ParsedRequestView {
        ParsedRequestView { endpoint_name: self.endpoint_name@, body: self.body@ }
    }
}

/// The method that requests must carry.
pub open spec fn method() -> Seq<char> {
    "POST"@
}

/// The empty line that ends the header block.
pub open spec fn header_end() -> Seq<char> {
    "\r\n\r\n"@
}

/// The body of a request: all that follows the first empty line. A request
/// without an empty line is taken to be body as a whole.
pub open spec fn body_of(text: Seq<char>) -> Seq<char> {
    match first_match(text, header_end(), 0) {
        Some(at) => text.skip(at + header_end().len()),
        None => text,
    }
}

/// The first path segment of a body: what stands between a leading `/`, if
/// there is one, and the next `/` or the end.
pub open spec fn first_segment(body: Seq<char>) -> Seq<char> {
    let path = if body.len() > 0 && body[0] == '/' {
        body.skip(1)
    } else {
        body
    };
    match first_match(path, seq!['/'], 0) {
        Some(at) => path.take(at),
        None => path,
    }
}

/// What the acceptor reads out of `text`: nothing unless the text begins with
/// the method, else the body and its first path segment.
pub open spec fn parse_request(text: Seq<char>) -> Option<ParsedRequestView> {
    if occurs_at(text, method(), 0) {
        Some(
            ParsedRequestView {
                endpoint_name: first_segment(body_of(text)),
                body: body_of(text),
            },
        )
    } else {
        None
    }
}

/// Reads the body and the endpoint name out of the text of a request.
pub fn parse_request_text(text: &str) -> (parsed: Option<ParsedRequest>)
    ensures
        match parsed {
            Some(request) => parse_request(text@) == Some(request@),
            None => parse_request(text@).is_none(),
        },
{
    let chars = chars_of(text);
    let method = chars_of("POST");
    let header_end = chars_of("\r\n\r\n");
    proof {
        reveal_strlit("POST");
        reveal_strlit("\r\n\r\n");
    }
    if !matches_at(&chars, &method, 0) {
        return None;
    }
    let body_start = match find(&chars, &header_end, 0) {
        Some(at) => {
            proof {
                lemma_first_match(chars@, header_end@, 0);
            }
            at + 4
        },
        None => 0,
    };
    assert(chars@.subrange(body_start as int, chars.len() as int) =~= body_of(text@));
    let path_start = if body_start < chars.len() && chars[body_start] == '/' {
        body_start + 1
    } else {
        body_start
    };
    let ghost path = chars@.subrange(path_start as int, chars.len() as int);
    let mut path_end = path_start;
    while path_end < chars.len() && chars[path_end] != '/'
        invariant
            path_start <= path_end <= chars.len(),
            path == chars@.subrange(path_start as int, chars.len() as int),
            first_match(path, seq!['/'], 0) == first_match(path, seq!['/'], path_end - path_start),
        decreases chars.len() - path_end,
    {
        proof {
            let at = path_end - path_start;
            assert(path.subrange(at, at + 1)[0] == chars@[path_end as int]);
        }
        path_end += 1;
    }
    proof {
        let at = path_end - path_start;
        if path_end < chars.len() {
            assert(path.subrange(at, at + 1) =~= seq!['/']);
            assert(first_match(path, seq!['/'], 0) == Some(at));
        } else {
            assert(first_match(path, seq!['/'], 0).is_none());
        }
        let body = body_of(text@);
        assert(path =~= if body.len() > 0 && body[0] == '/' {
            body.skip(1)
        } else {
            body
        });
        assert(chars@.subrange(path_start as int, path_end as int) =~= path.take(at));
        assert(path.take(path.len() as int) =~= path);
    }
    let endpoint_name = string_of_range(&chars, path_start, path_end);
    let body = string_of_range(&chars, body_start, chars.len());
    Some(ParsedRequest { endpoint_name, body })
}

/// Reads the body and the endpoint name out of the bytes of a request, which
/// are first decoded as UTF-8, ill-formed sequences replaced.
pub fn parse_request_bytes(bytes: &[u8]) -> (parsed: Option<ParsedRequest>)
    ensures
        match parsed {
            Some(request) => parse_request(utf8_lossy_text(bytes@)) == Some(request@),
            None => parse_request(utf8_lossy_text(bytes@)).is_none(),
        },
{
    let text = decode_utf8_lossy(bytes);
    parse_request_text(text.as_str())
}

/// Header lines on the wire: each is the name, a colon and a space, the value,
/// and a line end.
pub open spec fn header_lines(headers: Seq<(Seq<char>, Seq<char>)>) -> Seq<char>
    decreases headers.len(),
{
    if headers.len() == 0 {
        Seq::empty()
    } else {
        header_lines(headers.drop_last()) + headers.last().0 + ": "@ + headers.last().1 + "\r\n"@
    }
}

/// The response for an answered request: the status line with the request's
/// status, or 200 where it has none; its header lines, or one
/// `Content-Type: text/plain` line where it has none; an empty line; and its
/// response body, or nothing where it has none.
pub open spec fn success_response(unit: RequestUnitView) -> Seq<char> {
    let status = match unit.response_status {
        Some(status) => status,
        None => 200u16,
    };
    let headers = match unit.response_headers {
        Some(headers) => headers,
        None => seq![("Content-Type"@, "text/plain"@)],
    };
    let body = match unit.response_body {
        Some(body) => body,
        None => Seq::empty(),
    };
    "HTTP/1.1 "@ + decimal(status as nat) + " OK\r\n"@ + header_lines(headers) + "\r\n"@ + body
}

/// The response for a request that ended in an error: the fixed server-error
/// status line, an empty line, and the error message.
pub open spec fn error_response(message: Seq<char>) -> Seq<char> {
    "HTTP/1.1 500 Internal Server Error\r\n\r\n"@ + message
}

/// The response for an outcome.
pub open spec fn response_for(outcome: Result<RequestUnitView, Seq<char>>) -> Seq<char> {
    match outcome {
        Ok(unit) => success_response(unit),
        Err(message) => error_response(message),
    }
}

/// The response for a request that was dropped at admission.
pub open spec fn rejection_response() -> Seq<char> {
    "HTTP/1.1 503 Service Unavailable\r\n\r\nRequest dropped: the server is at capacity"@
}

/// The response for a request that was answered with `output` is the head
/// for status 200 and plain text, followed by `output` and nothing else.
pub proof fn lemma_answered_response(unit: RequestUnitView, output: Seq<char>)
    ensures
        success_response(unit.answered(output))
            == "HTTP/1.1 200 OK\r\nContent-Type: text/plain\r\n\r\n"@ + output,
{
    reveal_strlit("HTTP/1.1 200 OK\r\nContent-Type: text/plain\r\n\r\n");
    reveal_strlit("HTTP/1.1 ");
    reveal_strlit(" OK\r\n");
    reveal_strlit("Content-Type");
    reveal_strlit(": ");
    reveal_strlit("text/plain");
    reveal_strlit("\r\n");
    reveal_with_fuel(header_lines, 2);
    reveal_with_fuel(decimal, 3);
    let lines = seq![("Content-Type"@, "text/plain"@)];
    assert(header_lines(lines) =~= "Content-Type: text/plain\r\n"@) by {
        reveal_strlit("Content-Type: text/plain\r\n");
    }
    assert(decimal(200) =~= seq!['2', '0', '0']);
    assert(success_response(unit.answered(output))
        =~= "HTTP/1.1 200 OK\r\nContent-Type: text/plain\r\n\r\n"@ + output);
}

/// Writes the response for an answered request.
pub fn render_success(unit: &RequestUnit) -> (response: String)
    ensures
        response@ == success_response(unit@),
{
    let mut response = "HTTP/1.1 ".to_string();
    let status: u16 = match unit.response_status {
        Some(status) => status,
        None => 200,
    };
    push_decimal(&mut response, status as usize);
    response.push_str(" OK\r\n");
    match &unit.response_headers {
        Some(headers) => {
            let ghost start = response@;
            let ghost lines = headers_of(headers@);
            let mut i: usize = 0;
            while i < headers.len()
                invariant
                    i <= headers.len(),
                    lines == headers_of(headers@),
                    response@ == start + header_lines(lines.take(i as int)),
                decreases headers.len() - i,
            {
                response.push_str(headers[i].0.as_str());
                response.push_str(": ");
                response.push_str(headers[i].1.as_str());
                response.push_str("\r\n");
                proof {
                    let now = lines.take(i + 1);
                    assert(now.drop_last() =~= lines.take(i as int));
                    assert(now.last() == lines[i as int]);
                    assert(response@ =~= start + header_lines(now));
                }
                i += 1;
            }
            assert(lines.take(headers.len() as int) =~= lines);
        },
        None => {
            response.push_str("Content-Type");
            response.push_str(": ");
            response.push_str("text/plain");
            response.push_str("\r\n");
            proof {
                let lines = seq![("Content-Type"@, "text/plain"@)];
                reveal_with_fuel(header_lines, 2);
                assert(header_lines(lines) =~= "Content-Type"@ + ": "@ + "text/plain"@ + "\r\n"@);
            }
        },
    }
    response.push_str("\r\n");
    match &unit.response_body {
        Some(body) => {
            response.push_str(body.as_str());
        },
        None => {},
    }
    assert(response@ =~= success_response(unit@));
    response
}

/// Writes the response for an outcome.
pub fn render_response(outcome: &Result<RequestUnit, String>) -> (response: String)
    ensures
        response@ == response_for(outcome_view(*outcome)),
{
    match outcome {
        Ok(unit) => render_success(unit),
        Err(message) => {
            let mut response = "HTTP/1.1 500 Internal Server Error\r\n\r\n".to_string();
            response.push_str(message.as_str());
            response
        },
    }
}

/// Writes the response for a request that was dropped at admission.
pub fn render_rejection() -> (response: String)
    ensures
        response@ == rejection_response(),
{
    "HTTP/1.1 503 Service Unavailable\r\n\r\nRequest dropped: the server is at capacity".to_string()
}

} // verus!
