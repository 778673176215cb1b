use savon::error::Error;
use savon::gen::{from_template, FromElement, ToElements};
use savon::http::{
    call_envelope, read_response, request_headers, response_body, store_cookie, write_request,
    CallKind,
};
use savon::wsdl::WsdlError;
use savon::xml::{XmlElement, XmlNode};

#[derive(Clone, Debug, PartialEq)]
struct Row(String);

impl FromElement for Row {
    fn from_element(element: &XmlElement) -> Result<Self, Error> {
        match element.attribute("id") {
            Some(id) => Ok(Row(format!("{}#{}", element.name, id))),
            None => Err(Error::ParseError(element.name.clone())),
        }
    }
}

impl ToElements for Row {
    fn to_elements(&self) -> Vec<XmlElement> {
        vec![XmlElement::new(&self.0)]
    }
}

fn row(name: &str, id: Option<&str>) -> XmlNode {
    let mut e = XmlElement::new(name);
    if let Some(id) = id {
        e.attributes.push(("id".to_string(), id.to_string()));
    }
    XmlNode::Element(e)
}

fn dataset(rows: Vec<XmlNode>) -> XmlElement {
    let mut doc = XmlElement::new("DocumentElement");
    doc.children = rows;
    let mut diffgram = XmlElement::new("diffgram");
    diffgram.children.push(XmlNode::Element(doc));
    let mut root = XmlElement::new("Result");
    root.children.push(XmlNode::Element(XmlElement::new("schema")));
    root.children.push(XmlNode::Element(diffgram));
    root
}

#[test]
fn from_template_reads_one_value_for_each_row() {
    let root = dataset(vec![row("a", Some("1")), row("b", Some("2")), row("a", Some("3"))]);
    let rows: Vec<Row> = from_template(&root).unwrap();
    assert_eq!(rows, vec![Row("a#1".into()), Row("b#2".into()), Row("a#3".into())]);
}

#[test]
fn from_template_of_no_rows_is_empty() {
    let rows: Vec<Row> = from_template(&dataset(vec![])).unwrap();
    assert!(rows.is_empty());
}

#[test]
fn from_template_without_diffgram_fails() {
    let root = XmlElement::new("Result");
    let r: Result<Vec<Row>, Error> = from_template(&root);
    assert!(matches!(r, Err(Error::Wsdl(WsdlError::NotAnElement))));
}

#[test]
fn from_template_without_document_element_fails() {
    let mut root = XmlElement::new("Result");
    root.children.push(XmlNode::Element(XmlElement::new("diffgram")));
    let r: Result<Vec<Row>, Error> = from_template(&root);
    assert!(matches!(r, Err(Error::Wsdl(WsdlError::NotAnElement))));
}

#[test]
fn from_template_fails_on_a_row_that_is_no_element() {
    let root = dataset(vec![row("a", Some("1")), XmlNode::Text("x".into())]);
    let r: Result<Vec<Row>, Error> = from_template(&root);
    assert!(matches!(r, Err(Error::Wsdl(WsdlError::NotAnElement))));
}

#[test]
fn from_template_hands_on_the_first_error_of_a_row() {
    let root = dataset(vec![row("a", Some("1")), row("bad", None), row("worse", None)]);
    let r: Result<Vec<Row>, Error> = from_template(&root);
    match r {
        Err(Error::ParseError(name)) => assert_eq!(name, "bad"),
        other => panic!("unexpected: {:?}", other),
    }
}

#[test]
fn an_absent_value_has_no_elements() {
    let none: Option<Row> = None;
    assert!(none.to_elements().is_empty());
    let some = Some(Row("x".into()));
    let elements = some.to_elements();
    assert_eq!(elements.len(), 1);
    assert_eq!(elements[0].name, "x");
}

#[test]
fn get_child_finds_the_first_element_of_a_name() {
    let mut root = XmlElement::new("root");
    root.children.push(XmlNode::Text("a".into()));
    root.children.push(row("a", Some("1")));
    root.children.push(XmlNode::Other);
    root.children.push(row("b", Some("2")));
    root.children.push(row("a", Some("3")));
    assert_eq!(root.get_child("a").unwrap().attribute("id").unwrap(), "1");
    assert_eq!(root.get_child("b").unwrap().attribute("id").unwrap(), "2");
    assert!(root.get_child("c").is_none());
    assert!(root.children[0].as_element().is_none());
    assert!(root.children[1].as_element().is_some());
}

#[test]
fn attribute_finds_the_first_pair_of_a_key() {
    let mut e = XmlElement::new("e");
    e.attributes.push(("k".into(), "1".into()));
    e.attributes.push(("l".into(), "2".into()));
    e.attributes.push(("k".into(), "3".into()));
    e.namespaces.push(("p".into(), "urn:p".into()));
    assert_eq!(e.attribute("k").unwrap(), "1");
    assert_eq!(e.attribute("l").unwrap(), "2");
    assert!(e.attribute("m").is_none());
    assert_eq!(e.namespace_uri("p").unwrap(), "urn:p");
    assert!(e.namespace_uri("k").is_none());
}

fn pairs(v: &[(String, String)]) -> Vec<(&str, &str)> {
    v.iter().map(|(k, v)| (k.as_str(), v.as_str())).collect()
}

#[test]
fn a_one_way_call_sends_no_cookie() {
    let headers = request_headers(CallKind::OneWay, &Some("sid=1".to_string()));
    assert_eq!(pairs(&headers), vec![("Content-Type", "text/xml"), ("MessageType", "Call")]);
}

#[test]
fn a_request_sends_the_stored_cookie() {
    let headers = request_headers(CallKind::RequestResponse, &Some("sid=1".to_string()));
    assert_eq!(
        pairs(&headers),
        vec![
            ("Content-Type", "application/soap+xml"),
            ("MessageType", "Call"),
            ("cookie", "sid=1")
        ]
    );
    let headers = request_headers(CallKind::RequestResponse, &None);
    assert_eq!(
        pairs(&headers),
        vec![("Content-Type", "application/soap+xml"), ("MessageType", "Call")]
    );
}

#[test]
fn a_set_cookie_replaces_the_stored_one() {
    let mut cookie = Some("old".to_string());
    store_cookie(&mut cookie, Some("new".to_string()));
    assert_eq!(cookie.as_deref(), Some("new"));
    store_cookie(&mut cookie, None);
    assert_eq!(cookie.as_deref(), Some("new"));
    let mut cookie = None;
    store_cookie(&mut cookie, None);
    assert!(cookie.is_none());
    store_cookie(&mut cookie, Some("first".to_string()));
    assert_eq!(cookie.as_deref(), Some("first"));
}

struct Pair(String, String);

impl ToElements for Pair {
    fn to_elements(&self) -> Vec<XmlElement> {
        let mut a = XmlElement::new("a");
        a.children.push(XmlNode::Text(self.0.clone()));
        let mut b = XmlElement::new("b");
        b.children.push(XmlNode::Text(self.1.clone()));
        vec![a, b]
    }
}

impl FromElement for Pair {
    fn from_element(element: &XmlElement) -> Result<Self, Error> {
        let text = |name: &str| match element.get_child(name) {
            Some(e) => match e.children.first() {
                Some(XmlNode::Text(t)) => Ok(t.clone()),
                _ => Ok(String::new()),
            },
            None => Err(Error::ParseError(name.to_string())),
        };
        Ok(Pair(text("a")?, text("b")?))
    }
}

#[test]
fn a_call_is_wrapped_in_an_envelope() {
    let e = call_envelope("Echo", "urn:svc", vec![XmlElement::new("x"), XmlElement::new("y")]);
    assert_eq!(e.name, "soap:Envelope");
    assert_eq!(
        e.attributes,
        vec![("xmlns:soap".to_string(), "http://schemas.xmlsoap.org/soap/envelope/".to_string())]
    );
    assert_eq!(e.children.len(), 1);
    let body = e.children[0].as_element().unwrap();
    assert_eq!(body.name, "soap:Body");
    assert!(body.attributes.is_empty());
    assert_eq!(body.children.len(), 1);
    let call = body.children[0].as_element().unwrap();
    assert_eq!(call.name, "Echo");
    assert_eq!(call.attributes, vec![("xmlns".to_string(), "urn:svc".to_string())]);
    let names: Vec<&str> =
        call.children.iter().map(|c| c.as_element().unwrap().name.as_str()).collect();
    assert_eq!(names, vec!["x", "y"]);
}

#[test]
fn a_request_is_written_as_a_document() {
    let text = write_request("Echo", "urn:svc", &Pair("1 < 2".into(), "".into())).unwrap();
    assert_eq!(
        text,
        "<?xml version=\"1.0\" encoding=\"UTF-8\"?><soap:Envelope xmlns:soap=\"http://schemas.xmlsoap.org/soap/envelope/\"><soap:Body><Echo xmlns=\"urn:svc\"><a>1 &lt; 2</a><b></b></Echo></soap:Body></soap:Envelope>"
    );
}

#[test]
fn what_is_written_is_read_back() {
    let sent = Pair("né".into(), "a&b".into());
    let text = write_request("Echo", "urn:svc", &sent).unwrap();
    let echoed: Pair = read_response(&text).unwrap();
    assert_eq!(echoed.0, "né");
    assert_eq!(echoed.1, "a&b");
}

#[test]
fn a_response_is_read_from_its_body() {
    let text = "<s:Envelope xmlns:s=\"http://schemas.xmlsoap.org/soap/envelope/\"><s:Header/><s:Body> <r><a>x</a><b>y</b></r><later/></s:Body></s:Envelope>";
    let pair: Pair = read_response(text).unwrap();
    assert_eq!((pair.0.as_str(), pair.1.as_str()), ("x", "y"));
}

#[test]
fn a_response_without_body_fails() {
    let r: Result<Pair, Error> = read_response("<Envelope><Header/></Envelope>");
    assert!(matches!(r, Err(Error::Wsdl(WsdlError::ElementNotFound("Body")))));
    let r: Result<Pair, Error> = read_response("<Envelope><Body>text</Body></Envelope>");
    assert!(matches!(r, Err(Error::Wsdl(WsdlError::Empty))));
    let r: Result<Pair, Error> = read_response("<Envelope><Body>");
    assert!(matches!(r, Err(Error::Wsdl(WsdlError::Parse(_)))));
    let r: Result<Pair, Error> = read_response("<Envelope><Body><r><a/></r></Body></Envelope>");
    assert!(matches!(r, Err(Error::ParseError(name)) if name == "b"));
}

#[test]
fn response_body_takes_the_first_element_of_the_body() {
    let mut body = XmlElement::new("Body");
    body.children.push(XmlNode::Text("t".into()));
    body.children.push(row("first", None));
    body.children.push(row("second", None));
    let mut envelope = XmlElement::new("Envelope");
    envelope.children.push(row("Header", None));
    envelope.children.push(XmlNode::Element(body));
    assert_eq!(response_body(&envelope).unwrap().name, "first");
    assert_eq!(envelope.first_element().unwrap().name, "Header");
    assert!(XmlElement::new("e").first_element().is_none());
}
