//! What a call puts on the wire, and what it reads from the answer: the
//! headers, the session cookie and the envelope.

use crate::error::Error;
use crate::gen::{FromElement, ToElements};
use crate::wsdl::{opt_chars, WsdlError};
use crate::xml::{
    document_text, document_tree, first_element_from, pairs, read_document, write_document,
    XmlElement, XmlNode,
};
use vstd::prelude::*;
use vstd::string::{StringExecFns, StringSliceAdditionalSpecFns};

verus! {

/// The two ways in which an operation is called.
#[derive(Debug, Clone, Copy, PartialEq, Eq, Structural)]
pub enum CallKind {
    /// The input is sent and the answer is not read.
    OneWay,
    /// The input is sent and the output is read from the answer.
    RequestResponse,
}

/// The content type that a call of the kind `kind` declares.
pub open spec fn content_type(kind: CallKind) -> Seq<char> {
    match kind {
        CallKind::OneWay => "text/xml"@,
        CallKind::RequestResponse => "application/soap+xml"@,
    }
}

/// The headers of a call: the content type, the marker `MessageType: Call`
/// and, on a call that reads its answer, the session cookie where one is
/// stored.
pub open spec fn headers_of(kind: CallKind, cookie: Option<Seq<char>>) -> Seq<
    (Seq<char>, Seq<char>),
> {
    let fixed = seq![("Content-Type"@, content_type(kind)), ("MessageType"@, "Call"@)];
    match cookie {
        Some(c) => if kind == CallKind::RequestResponse {
            fixed.push(("cookie"@, c))
        } else {
            fixed
        },
        None => fixed,
    }
}

/// The headers to send with a call.
pub fn request_headers(kind: CallKind, cookie: &Option<String>) -> (r: Vec<(String, String)>)
    ensures
        pairs(r@) == headers_of(kind, opt_chars(*cookie)),
{
    let content = match kind {
        CallKind::OneWay => String::from_str("text/xml"),
        CallKind::RequestResponse => String::from_str("application/soap+xml"),
    };
    let mut headers: Vec<(String, String)> = Vec::new();
    headers.push((String::from_str("Content-Type"), content));
    headers.push((String::from_str("MessageType"), String::from_str("Call")));
    match cookie {
        Some(c) => {
            if kind == CallKind::RequestResponse {
                headers.push((String::from_str("cookie"), c.clone()));
            }
        },
        None => {},
    }
    assert(pairs(headers@) =~= headers_of(kind, opt_chars(*cookie)));
    headers
}

/// The cookie to keep after an answer: the one that the answer sets, or
/// else the one that was stored.
pub open spec fn cookie_after(stored: Option<Seq<char>>, set: Option<Seq<char>>) -> Option<
    Seq<char>,
> {
    match set {
        Some(c) => Some(c),
        None => stored,
    }
}

/// Stores the cookie that an answer sets, in place of the one stored
/// before.
pub fn store_cookie(cookie: &mut Option<String>, set_cookie: Option<String>)
    ensures
        opt_chars(*final(cookie)) == cookie_after(opt_chars(*old(cookie)), opt_chars(set_cookie)),
{
    match set_cookie {
        Some(c) => {
            *cookie = Some(c);
        },
        None => {},
    }
}

/// The namespace of SOAP envelopes.
pub open spec fn soap_namespace() -> Seq<char> {
    "http://schemas.xmlsoap.org/soap/envelope/"@
}

/// The elements of `v` as nodes.
pub open spec fn as_nodes(v: Seq<XmlElement>) -> Seq<XmlNode> {
    v.map_values(|e: XmlElement| XmlNode::Element(e))
}

/// `e` is an element named `name` with the one attribute `key`, no
/// prefixes and the children `children`.
pub open spec fn is_wrapper(
    e: XmlElement,
    name: Seq<char>,
    key: Seq<char>,
    value: Seq<char>,
    children: Seq<XmlNode>,
) -> bool {
    &&& e.name@ == name
    &&& pairs(e.attributes@) == seq![(key, value)]
    &&& e.namespaces@.len() == 0
    &&& e.children@ == children
}

/// `e` is the envelope of a call of `method` in the namespace `ns` with
/// the parameters `parameters`: an `Envelope` that holds one `Body`, which
/// holds one element named as the method, in its namespace, which holds
/// the parameters.
pub open spec fn is_call_envelope(
    e: XmlElement,
    method: Seq<char>,
    ns: Seq<char>,
    parameters: Seq<XmlElement>,
) -> bool {
    &&& e.name@ == "soap:Envelope"@
    &&& pairs(e.attributes@) == seq![("xmlns:soap"@, soap_namespace())]
    &&& e.namespaces@.len() == 0
    &&& e.children@.len() == 1
    &&& e.children@[0] matches XmlNode::Element(body)
    &&& body.name@ == "soap:Body"@
    &&& body.attributes@.len() == 0
    &&& body.namespaces@.len() == 0
    &&& body.children@.len() == 1
    &&& body.children@[0] matches XmlNode::Element(call)
    &&& is_wrapper(call, method, "xmlns"@, ns, as_nodes(parameters))
}

fn wrapper(name: &str, key: &str, value: &str, children: Vec<XmlNode>) -> (e: XmlElement)
    ensures
        is_wrapper(e, name@, key@, value@, children@),
{
    let mut attributes: Vec<(String, String)> = Vec::new();
    attributes.push((String::from_str(key), String::from_str(value)));
    let e = XmlElement {
        name: String::from_str(name),
        attributes,
        namespaces: Vec::new(),
        children,
    };
    assert(pairs(e.attributes@) =~= seq![(key@, value@)]);
    e
}

/// Wraps the parameters of a call in its envelope.
pub fn call_envelope(method: &str, ns: &str, parameters: Vec<XmlElement>) -> (e: XmlElement)
    ensures
        is_call_envelope(e, method@, ns@, parameters@),
{
    let ghost given = parameters@;
    let mut nodes: Vec<XmlNode> = Vec::new();
    for p in it: parameters
        invariant
            it.seq() == given,
            nodes@ == as_nodes(it.seq().take(it.index() as int)),
    {
        nodes.push(XmlNode::Element(p));
    }
    assert(nodes@ == as_nodes(given)) by {
        assert(given.take(given.len() as int) =~= given);
    }
    let call = wrapper(method, "xmlns", ns, nodes);
    let mut in_body: Vec<XmlNode> = Vec::new();
    in_body.push(XmlNode::Element(call));
    let body = XmlElement {
        name: String::from_str("soap:Body"),
        attributes: Vec::new(),
        namespaces: Vec::new(),
        children: in_body,
    };
    let mut in_envelope: Vec<XmlNode> = Vec::new();
    in_envelope.push(XmlNode::Element(body));
    let e = wrapper(
        "soap:Envelope",
        "xmlns:soap",
        "http://schemas.xmlsoap.org/soap/envelope/",
        in_envelope,
    );
    e
}

/// The text of a call: the elements of the input in the envelope of the
/// method, written as an XML document.
///
/// The text is that of an envelope of the call around what the input
/// serializes to; there is no text where the envelope cannot be written.
pub fn write_request<Input: ToElements>(method: &str, ns: &str, input: &Input) -> (r: Result<
    String,
    Error,
>)
    ensures
        exists|parameters: Vec<XmlElement>, e: XmlElement|
            {
                &&& call_ensures(Input::to_elements, (input,), parameters)
                &&& #[trigger] is_call_envelope(e, method@, ns@, parameters@)
                &&& match r {
                    Ok(text) => document_text(e) == Some(text@),
                    Err(error) => document_text(e) is None && (error matches Error::StringError(
                        m,
                    ) && m@ == "the envelope cannot be written"@),
                }
            },
{
    let parameters = input.to_elements();
    let ghost given = parameters;
    let e = call_envelope(method, ns, parameters);
    let r = match write_document(&e) {
        Some(text) => Ok(text),
        None => Err(Error::StringError(String::from_str("the envelope cannot be written"))),
    };
    assert(is_call_envelope(e, method@, ns@, given@));
    r
}

/// The element that the envelope `envelope` carries: the first element in
/// its `Body`.
pub open spec fn body_element(envelope: XmlElement) -> Result<XmlElement, Error> {
    match envelope.child("Body"@) {
        None => Err(Error::Wsdl(WsdlError::ElementNotFound("Body"))),
        Some(body) => match first_element_from(body.children@, 0) {
            None => Err(Error::Wsdl(WsdlError::Empty)),
            Some(e) => Ok(e),
        },
    }
}

/// Takes the carried element out of an envelope.
pub fn response_body(envelope: &XmlElement) -> (r: Result<&XmlElement, Error>)
    ensures
        match r {
            Ok(e) => body_element(*envelope) == Ok::<XmlElement, Error>(*e),
            Err(error) => body_element(*envelope) == Err::<XmlElement, Error>(error),
        },
{
    let body = match envelope.get_child("Body") {
        Some(b) => b,
        None => {
            return Err(Error::Wsdl(WsdlError::ElementNotFound("Body")));
        },
    };
    match body.first_element() {
        Some(e) => Ok(e),
        None => Err(Error::Wsdl(WsdlError::Empty)),
    }
}

/// Reading the answer `bytes` as `Output` gives `r`: an answer that is no
/// document gives `WsdlError::Parse`, one without a carried element the
/// error of `body_element`, and any other what `Output` reads from the
/// carried element.
pub open spec fn is_response<Output: FromElement>(bytes: Seq<u8>, r: Result<Output, Error>) -> bool {
    match document_tree(bytes) {
        None => r matches Err(Error::Wsdl(WsdlError::Parse(_))),
        Some(envelope) => match body_element(envelope) {
            Err(error) => r == Err::<Output, Error>(error),
            Ok(e) => call_ensures(Output::from_element, (&e,), r),
        },
    }
}

/// Reads the output of a call from the text of the answer.
pub fn read_response<Output: FromElement>(text: &str) -> (r: Result<Output, Error>)
    ensures
        is_response::<Output>(text.spec_bytes(), r),
{
    let envelope = match read_document(text.as_bytes()) {
        Ok(e) => e,
        Err(e) => {
            return Err(Error::Wsdl(WsdlError::Parse(e)));
        },
    };
    match response_body(&envelope) {
        Ok(e) => Output::from_element(e),
        Err(error) => Err(error),
    }
}

} // verus!
