//! The HTTP exchange that carries an ONVIF request.

use crate::device::{InterrogationError, InterrogationErrorView};
use crate::text;
use crate::url_parts;
use crate::url_parts::{UrlParts, UrlPartsView};
use vstd::prelude::*;
use vstd::utf8::*;

verus! {

/// The port of a service whose URL names none
pub const DEFAULT_HTTP_PORT: u16 = 80;

/// Default timeout for ONVIF SOAP requests, in seconds
pub const ONVIF_REQUEST_TIMEOUT: u64 = 10;

// ---------------------------------------------------------------------------------------------
// Requests
// ---------------------------------------------------------------------------------------------

/// An HTTP request and where it goes.
#[derive(Debug)]
pub struct HttpRequest {
    /// Host and port
    pub address: String,
    /// The request
    pub text: String,
}

/// The view of an `HttpRequest`.
#[verifier::ext_equal]
pub struct HttpRequestView {
    pub address: Seq<char>,
    pub text: Seq<char>,
}

impl View for HttpRequest {
    type V = HttpRequestView;

    open spec fn view(&self) -> HttpRequestView {
        HttpRequestView { address: self.address@, text: self.text@ }
    }
}

/// The value of the content type header. SOAP 1.2 embeds the action in it.
pub open spec fn content_type_header(content_type: Seq<char>, soap_action: Seq<char>) -> Seq<char> {
    if "application/soap+xml"@.is_prefix_of(content_type) {
        content_type + " charset=utf-8; action=\""@ + soap_action + "\""@
    } else {
        content_type + " charset=utf-8"@
    }
}

/// The action header, which SOAP 1.1 requires.
pub open spec fn action_header(content_type: Seq<char>, soap_action: Seq<char>) -> Seq<char> {
    if "text/xml"@.is_prefix_of(content_type) {
        "SOAPAction: \""@ + soap_action + "\"\r\n"@
    } else {
        Seq::empty()
    }
}

/// What stands before the body of a request to POST it to `path` on `host`.
pub open spec fn request_head(
    path: Seq<char>,
    host: Seq<char>,
    port: u16,
    body_len: nat,
    content_type: Seq<char>,
    soap_action: Seq<char>,
) -> Seq<char> {
    "POST "@ + path + " HTTP/1.1\r\nHost: "@ + host + ":"@ + text::decimal(port as nat)
        + "\r\nContent-Type: "@ + content_type_header(content_type, soap_action)
        + "\r\nContent-Length: "@ + text::decimal(body_len) + "\r\n"@ + action_header(
        content_type,
        soap_action,
    ) + "User-Agent: ONVIF-Client/1.0\r\nConnection: close\r\n\r\n"@
}

/// The request that carries `body` to a URL with these parts, or why there can be none. The
/// content length is that of the body in bytes.
pub open spec fn request_for(
    url: Seq<char>,
    parts: Result<UrlPartsView, Seq<char>>,
    body: Seq<char>,
    content_type: Seq<char>,
    soap_action: Seq<char>,
) -> Result<HttpRequestView, InterrogationErrorView> {
    match parts {
        Err(e) => Err(
            InterrogationErrorView::InvalidResponse("Invalid URL "@ + url + ": "@ + e),
        ),
        Ok(parts) => match parts.host {
            None => Err(InterrogationErrorView::InvalidResponse("No host in URL"@)),
            Some(host) => {
                let port = match parts.port {
                    Some(port) => port,
                    None => DEFAULT_HTTP_PORT,
                };
                Ok(
                    HttpRequestView {
                        address: host + ":"@ + text::decimal(port as nat),
                        text: request_head(
                            parts.path,
                            host,
                            port,
                            encode_utf8(body).len(),
                            content_type,
                            soap_action,
                        ) + body,
                    },
                )
            },
        },
    }
}

/// The view of a request, or of why there is none.
pub open spec fn request_view(r: Result<HttpRequest, InterrogationError>) -> Result<
    HttpRequestView,
    InterrogationErrorView,
> {
    match r {
        Ok(request) => Ok(request@),
        Err(e) => Err(e@),
    }
}

/// A request ends with its body, and declares the length of it in bytes.
pub proof fn law_content_length(
    url: Seq<char>,
    parts: Result<UrlPartsView, Seq<char>>,
    body: Seq<char>,
    content_type: Seq<char>,
    soap_action: Seq<char>,
)
    requires
        request_for(url, parts, body, content_type, soap_action) is Ok,
    ensures
        ({
            let text = request_for(url, parts, body, content_type, soap_action)->Ok_0.text;
            &&& body.is_suffix_of(text)
            &&& text::contains(
                text,
                "\r\nContent-Length: "@ + text::decimal(encode_utf8(body).len()) + "\r\n"@,
            )
        }),
{
    let text = request_for(url, parts, body, content_type, soap_action)->Ok_0.text;
    let parts = parts->Ok_0;
    let port = match parts.port {
        Some(port) => port,
        None => DEFAULT_HTTP_PORT,
    };
    let line = "\r\nContent-Length: "@ + text::decimal(encode_utf8(body).len()) + "\r\n"@;
    let before = "POST "@ + parts.path + " HTTP/1.1\r\nHost: "@ + parts.host->0 + ":"@
        + text::decimal(port as nat) + "\r\nContent-Type: "@ + content_type_header(
        content_type,
        soap_action,
    );
    let after = action_header(content_type, soap_action)
        + "User-Agent: ONVIF-Client/1.0\r\nConnection: close\r\n\r\n"@ + body;
    assert(text =~= before + line + after);
    let i = before.len() as int;
    assert(text.subrange(i, i + line.len()) =~= line);
    assert(text::occurs_at(text, line, i));
    assert(text.subrange(text.len() - body.len(), text.len() as int) =~= body);
}

/// The content type header.
fn content_type_text(content_type: &str, soap_action: &str) -> (r: String)
    ensures
        r@ == content_type_header(content_type@, soap_action@),
{
    if text::starts_with(content_type, "application/soap+xml") {
        content_type.to_owned().concat(" charset=utf-8; action=\"").concat(soap_action).concat(
            "\"",
        )
    } else {
        content_type.to_owned().concat(" charset=utf-8")
    }
}

/// The action header.
fn action_text(content_type: &str, soap_action: &str) -> (r: String)
    ensures
        r@ == action_header(content_type@, soap_action@),
{
    if text::starts_with(content_type, "text/xml") {
        "SOAPAction: \"".to_owned().concat(soap_action).concat("\"\r\n")
    } else {
        String::new()
    }
}

/// The request that carries `body` to a URL with these parts
pub fn request_to(
    url: &str,
    parts: Result<UrlParts, String>,
    body: &str,
    content_type: &str,
    soap_action: &str,
) -> (r: Result<HttpRequest, InterrogationError>)
    ensures
        request_view(r) == request_for(
            url@,
            url_parts::url_view(parts),
            body@,
            content_type@,
            soap_action@,
        ),
{
    let parts = match parts {
        Ok(parts) => parts,
        Err(e) => {
            return Err(
                InterrogationError::InvalidResponse(
                    "Invalid URL ".to_owned().concat(url).concat(": ").concat(&e),
                ),
            );
        },
    };
    let host = match parts.host {
        Some(host) => host,
        None => {
            return Err(InterrogationError::InvalidResponse("No host in URL".to_owned()));
        },
    };
    let port = match parts.port {
        Some(port) => port,
        None => DEFAULT_HTTP_PORT,
    };
    let port_text = text::decimal_text(port as u64);
    let length: usize = body.as_bytes().len();
    let mut request = "POST ".to_owned();
    request.append(&parts.path);
    request.append(" HTTP/1.1\r\nHost: ");
    request.append(&host);
    request.append(":");
    request.append(&port_text);
    request.append("\r\nContent-Type: ");
    request.append(&content_type_text(content_type, soap_action));
    request.append("\r\nContent-Length: ");
    request.append(&text::decimal_text(length as u64));
    request.append("\r\n");
    request.append(&action_text(content_type, soap_action));
    request.append("User-Agent: ONVIF-Client/1.0\r\nConnection: close\r\n\r\n");
    request.append(body);
    Ok(HttpRequest { address: host.concat(":").concat(&port_text), text: request })
}

/// The request that carries `body` to `url`
pub fn prepare_request(url: &str, body: &str, content_type: &str, soap_action: &str) -> (r: Result<
    HttpRequest,
    InterrogationError,
>)
    ensures
        request_view(r) == request_for(
            url@,
            url_parts::parsed_url(url@),
            body@,
            content_type@,
            soap_action@,
        ),
{
    let parts = url_parts::parse_url(url);
    request_to(url, parts, body, content_type, soap_action)
}

// ---------------------------------------------------------------------------------------------
// Responses
// ---------------------------------------------------------------------------------------------

/// A response shows a status, anywhere in it.
pub open spec fn shows_status(response: Seq<char>, status: Seq<char>) -> bool {
    text::contains(response, "HTTP/1.1 "@ + status) || text::contains(
        response,
        "HTTP/1.0 "@ + status,
    )
}

/// The first line of a response.
pub open spec fn first_line(response: Seq<char>) -> Seq<char> {
    let lines = text::lines(response, 0);
    if lines.len() > 0 {
        lines[0]
    } else {
        "Unknown"@
    }
}

/// The body of a response, or why it is of no use: authentication is required or has failed, or
/// the status is any other than success, or there is no body.
pub open spec fn body_of(response: Seq<char>) -> Result<Seq<char>, InterrogationErrorView> {
    if shows_status(response, "401"@) {
        Err(InterrogationErrorView::AuthRequired)
    } else if shows_status(response, "403"@) {
        Err(InterrogationErrorView::AuthFailed)
    } else if shows_status(response, "400"@) {
        Err(
            InterrogationErrorView::Http(
                "Bad Request (400) - possibly unsupported SOAP format: "@ + first_line(response),
            ),
        )
    } else if !shows_status(response, "200"@) {
        Err(InterrogationErrorView::Http("HTTP error response: "@ + first_line(response)))
    } else {
        match text::find(response, "\r\n\r\n"@, 0) {
            Some(i) => Ok(response.skip(i + 4)),
            None => Err(InterrogationErrorView::InvalidResponse("No HTTP body found"@)),
        }
    }
}

/// The view of a reply.
pub open spec fn reply_view(r: Result<String, InterrogationError>) -> Result<
    Seq<char>,
    InterrogationErrorView,
> {
    match r {
        Ok(body) => Ok(body@),
        Err(e) => Err(e@),
    }
}

/// The body of a successful response is what follows the first blank line.
pub proof fn law_body_follows_blank_line(head: Seq<char>, body: Seq<char>)
    requires
        forall|j: int|
            0 <= j < head.len() ==> !#[trigger] text::occurs_at(
                head + "\r\n\r\n"@ + body,
                "\r\n\r\n"@,
                j,
            ),
        shows_status(head + "\r\n\r\n"@ + body, "200"@),
        !shows_status(head + "\r\n\r\n"@ + body, "400"@),
        !shows_status(head + "\r\n\r\n"@ + body, "401"@),
        !shows_status(head + "\r\n\r\n"@ + body, "403"@),
    ensures
        body_of(head + "\r\n\r\n"@ + body) == Ok::<Seq<char>, InterrogationErrorView>(body),
{
    reveal_strlit("\r\n\r\n");
    let blank = "\r\n\r\n"@;
    let response = head + blank + body;
    assert(blank.len() == 4);
    let n = head.len() as int;
    assert(response.subrange(n, n + 4) =~= blank);
    assert(text::occurs_at(response, blank, n));
    text::lemma_find(response, blank, 0);
    assert(text::find(response, blank, 0) == Some(n));
    assert(response.skip(n + 4) =~= body);
}

/// Whether a response shows a status.
fn has_status(response: &str, status: &str) -> (r: bool)
    ensures
        r == shows_status(response@, status@),
{
    text::has(response, "HTTP/1.1 ".to_owned().concat(status).as_str()) || text::has(
        response,
        "HTTP/1.0 ".to_owned().concat(status).as_str(),
    )
}

/// The first line of a response.
fn first_line_text(response: &str) -> (r: String)
    ensures
        r@ == first_line(response@),
{
    let lines = text::split_lines(response);
    assert(text::texts(lines@) == text::lines(response@, 0));
    if lines.len() > 0 {
        assert(text::texts(lines@)[0] == lines@[0]@);
        lines[0].clone()
    } else {
        "Unknown".to_owned()
    }
}

/// The body of a response
pub fn response_body(response: &str) -> (r: Result<String, InterrogationError>)
    ensures
        reply_view(r) == body_of(response@),
{
    if has_status(response, "401") {
        return Err(InterrogationError::AuthRequired);
    }
    if has_status(response, "403") {
        return Err(InterrogationError::AuthFailed);
    }
    if has_status(response, "400") {
        return Err(
            InterrogationError::Http(
                "Bad Request (400) - possibly unsupported SOAP format: ".to_owned().concat(
                    &first_line_text(response),
                ),
            ),
        );
    }
    if !has_status(response, "200") {
        return Err(
            InterrogationError::Http(
                "HTTP error response: ".to_owned().concat(&first_line_text(response)),
            ),
        );
    }
    let chars = text::chars_of(response);
    let blank = text::chars_of("\r\n\r\n");
    proof {
        reveal_strlit("\r\n\r\n");
        assert("\r\n\r\n"@.len() == 4);
        text::lemma_find(response@, "\r\n\r\n"@, 0);
    }
    match text::find_from(&chars, &blank, 0) {
        Some(i) => {
            assert(text::occurs_at(response@, "\r\n\r\n"@, i as int));
            assert(i + 4 <= chars.len());
            assert(chars@.subrange(i + 4, chars@.len() as int) =~= response@.skip(i + 4));
            Ok(text::text_of(&chars, i + 4, chars.len()))
        },
        None => Err(InterrogationError::InvalidResponse("No HTTP body found".to_owned())),
    }
}

/// The body of a response as it came
pub fn read_response(response: &[u8]) -> (r: Result<String, InterrogationError>)
    ensures
        reply_view(r) == body_of(text::lossy_text(response@)),
{
    let response = text::decode_lossy(response);
    response_body(&response)
}

// ---------------------------------------------------------------------------------------------
// Laws
// ---------------------------------------------------------------------------------------------

/// The content type of SOAP 1.2 holds the action and there is no other header for it; with that of
/// SOAP 1.1 the action is a header of its own; with any other it is not sent.
pub proof fn law_action_is_sent_once(content_type: Seq<char>, soap_action: Seq<char>)
    ensures
        "application/soap+xml"@.is_prefix_of(content_type) ==> {
            &&& content_type_header(content_type, soap_action) == content_type
                + " charset=utf-8; action=\""@ + soap_action + "\""@
            &&& action_header(content_type, soap_action).len() == 0
        },
        "text/xml"@.is_prefix_of(content_type) ==> {
            &&& content_type_header(content_type, soap_action) == content_type + " charset=utf-8"@
            &&& action_header(content_type, soap_action) == "SOAPAction: \""@ + soap_action
                + "\"\r\n"@
        },
        !"application/soap+xml"@.is_prefix_of(content_type) && !"text/xml"@.is_prefix_of(
            content_type,
        ) ==> {
            &&& content_type_header(content_type, soap_action) == content_type + " charset=utf-8"@
            &&& action_header(content_type, soap_action).len() == 0
        },
{
    reveal_strlit("application/soap+xml");
    reveal_strlit("text/xml");
    if "application/soap+xml"@.is_prefix_of(content_type) && "text/xml"@.is_prefix_of(
        content_type,
    ) {
        assert(content_type.subrange(0, "text/xml"@.len() as int)[0] == 't');
        assert(content_type.subrange(0, "application/soap+xml"@.len() as int)[0] == 'a');
    }
}

/// A request goes to the host and the port of its URL, or to port 80; it asks for the path of the
/// URL, names the same host and port, and ends with the body, unchanged. Without a host there is no
/// request.
pub proof fn law_request(
    url: Seq<char>,
    parts: Result<UrlPartsView, Seq<char>>,
    body: Seq<char>,
    content_type: Seq<char>,
    soap_action: Seq<char>,
)
    ensures
        ({
            let r = request_for(url, parts, body, content_type, soap_action);
            &&& parts matches Err(e) ==> r == Err::<HttpRequestView, InterrogationErrorView>(
                InterrogationErrorView::InvalidResponse("Invalid URL "@ + url + ": "@ + e),
            )
            &&& parts matches Ok(p) ==> p.host is None ==> r == Err::<
                HttpRequestView,
                InterrogationErrorView,
            >(InterrogationErrorView::InvalidResponse("No host in URL"@))
            &&& parts matches Ok(p) ==> p.host is Some ==> {
                let port = if p.port is Some {
                    p.port->0 as nat
                } else {
                    80
                };
                let address = p.host->0 + ":"@ + text::decimal(port);
                &&& r is Ok
                &&& r->Ok_0.address == address
                &&& r->Ok_0.text == "POST "@ + p.path + " HTTP/1.1\r\nHost: "@ + address
                    + "\r\nContent-Type: "@ + content_type_header(content_type, soap_action)
                    + "\r\nContent-Length: "@ + text::decimal(encode_utf8(body).len()) + "\r\n"@
                    + action_header(content_type, soap_action)
                    + "User-Agent: ONVIF-Client/1.0\r\nConnection: close\r\n\r\n"@ + body
            }
        }),
{
    if let Ok(p) = parts {
        if p.host is Some {
            let port = if p.port is Some {
                p.port->0 as nat
            } else {
                80
            };
            let address = p.host->0 + ":"@ + text::decimal(port);
            let r = request_for(url, parts, body, content_type, soap_action);
            assert(r->Ok_0.text =~= "POST "@ + p.path + " HTTP/1.1\r\nHost: "@ + address
                + "\r\nContent-Type: "@ + content_type_header(content_type, soap_action)
                + "\r\nContent-Length: "@ + text::decimal(encode_utf8(body).len()) + "\r\n"@
                + action_header(content_type, soap_action)
                + "User-Agent: ONVIF-Client/1.0\r\nConnection: close\r\n\r\n"@ + body);
        }
    }
}

/// A response shows a status exactly if one of the two HTTP versions stands before it, anywhere in
/// the response.
pub proof fn law_shows_status(response: Seq<char>)
    ensures
        shows_status(response, "401"@) <==> text::contains(response, "HTTP/1.1 401"@)
            || text::contains(response, "HTTP/1.0 401"@),
        shows_status(response, "403"@) <==> text::contains(response, "HTTP/1.1 403"@)
            || text::contains(response, "HTTP/1.0 403"@),
        shows_status(response, "400"@) <==> text::contains(response, "HTTP/1.1 400"@)
            || text::contains(response, "HTTP/1.0 400"@),
        shows_status(response, "200"@) <==> text::contains(response, "HTTP/1.1 200"@)
            || text::contains(response, "HTTP/1.0 200"@),
{
    reveal_strlit("HTTP/1.1 ");
    reveal_strlit("HTTP/1.0 ");
    reveal_strlit("401");
    reveal_strlit("403");
    reveal_strlit("400");
    reveal_strlit("200");
    reveal_strlit("HTTP/1.1 401");
    reveal_strlit("HTTP/1.0 401");
    reveal_strlit("HTTP/1.1 403");
    reveal_strlit("HTTP/1.0 403");
    reveal_strlit("HTTP/1.1 400");
    reveal_strlit("HTTP/1.0 400");
    reveal_strlit("HTTP/1.1 200");
    reveal_strlit("HTTP/1.0 200");
    assert("HTTP/1.1 "@ + "401"@ =~= "HTTP/1.1 401"@ && "HTTP/1.0 "@ + "401"@ =~= "HTTP/1.0 401"@);
    assert("HTTP/1.1 "@ + "403"@ =~= "HTTP/1.1 403"@ && "HTTP/1.0 "@ + "403"@ =~= "HTTP/1.0 403"@);
    assert("HTTP/1.1 "@ + "400"@ =~= "HTTP/1.1 400"@ && "HTTP/1.0 "@ + "400"@ =~= "HTTP/1.0 400"@);
    assert("HTTP/1.1 "@ + "200"@ =~= "HTTP/1.1 200"@ && "HTTP/1.0 "@ + "200"@ =~= "HTTP/1.0 200"@);
}

/// The first line is what stands before the first line feed, less one carriage return.
pub proof fn law_first_line(a: Seq<char>, b: Seq<char>)
    requires
        !a.contains('\n'),
    ensures
        first_line(Seq::empty()) == "Unknown"@,
        a.len() > 0 ==> first_line(a) == a,
        first_line(a + seq!['\n'] + b) == (if a.len() > 0 && a.last() == '\r' {
            a.drop_last()
        } else {
            a
        }),
{
    text::law_lines(a, b);
    text::law_lines(Seq::empty(), b);
}

/// A refusal anywhere in a response goes before all else, then one of the credentials, then that of
/// a bad request; a response that shows none of these, nor success, is an error with its first
/// line; a success brings the body, if there is a blank line to find it behind.
pub proof fn law_body_of(response: Seq<char>)
    ensures
        ({
            let r = body_of(response);
            let unauthorized = shows_status(response, "401"@);
            let forbidden = !unauthorized && shows_status(response, "403"@);
            let bad = !unauthorized && !forbidden && shows_status(response, "400"@);
            let success = !unauthorized && !forbidden && !bad && shows_status(response, "200"@);
            &&& unauthorized <==> r == Err::<Seq<char>, InterrogationErrorView>(
                InterrogationErrorView::AuthRequired,
            )
            &&& forbidden <==> r == Err::<Seq<char>, InterrogationErrorView>(
                InterrogationErrorView::AuthFailed,
            )
            &&& bad ==> r == Err::<Seq<char>, InterrogationErrorView>(
                InterrogationErrorView::Http(
                    "Bad Request (400) - possibly unsupported SOAP format: "@ + first_line(
                        response,
                    ),
                ),
            )
            &&& !unauthorized && !forbidden && !bad && !success ==> r == Err::<
                Seq<char>,
                InterrogationErrorView,
            >(InterrogationErrorView::Http("HTTP error response: "@ + first_line(response)))
            &&& success && !text::contains(response, "\r\n\r\n"@) ==> r == Err::<
                Seq<char>,
                InterrogationErrorView,
            >(InterrogationErrorView::InvalidResponse("No HTTP body found"@))
            &&& r is Ok <==> success && text::contains(response, "\r\n\r\n"@)
            &&& r is Ok ==> ("\r\n\r\n"@ + r->Ok_0).is_suffix_of(response)
        }),
{
    reveal_strlit("\r\n\r\n");
    let blank = "\r\n\r\n"@;
    assert(blank.len() == 4);
    text::lemma_find_contains(response, blank);
    text::lemma_find(response, blank, 0);
    if let Some(i) = text::find(response, blank, 0) {
        let tail = blank + response.skip(i + 4);
        assert forall|k: int| 0 <= k < tail.len() implies #[trigger] tail[k] == response[i + k] by {
            if k < 4 {
                assert(response.subrange(i, i + 4)[k] == blank[k]);
            }
        }
        assert(response.subrange(response.len() - tail.len(), response.len() as int) =~= tail);
    }
}

} // verus!
