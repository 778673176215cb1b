use savon::wsdl::{
    parse, parse_document, parse_element, parse_type_ref, qualified_type, split_namespace,
    Occurence, QualifiedTypename, SimpleType, Type, TypeAttribute, WsdlError,
};
use savon::xml::{XmlElement, XmlNode};

const XSD: &str = "http://www.w3.org/2001/XMLSchema";

const EXAMPLE_WSDL: &[u8] = br#"<?xml version="1.0" encoding="UTF-8"?>
<definitions name="StockQuote"
    targetNamespace="http://example.com/stockquote.wsdl"
    xmlns:tns="http://example.com/stockquote.wsdl"
    xmlns:xsd1="http://example.com/stockquote.xsd"
    xmlns:xsd="http://www.w3.org/2001/XMLSchema"
    xmlns="http://schemas.xmlsoap.org/wsdl/">
  <!-- the types of the service -->
  <types>
    <xsd:schema targetNamespace="http://example.com/stockquote.xsd">
      <xsd:import namespace="http://example.com/other"/>
      <xsd:element name="TradePriceRequest">
        <xsd:complexType>
          <xsd:all>
            <xsd:element name="ignored" type="xsd:string"/>
          </xsd:all>
          <xsd:sequence>
            <xsd:element name="tickerSymbol" type="xsd:string"/>
            <xsd:element name="Day" type="xsd:dateTime" minOccurs="0" maxOccurs="1"/>
            <xsd:element name="Tags" type="xsd:string" nillable="true" minOccurs="1" maxOccurs="unbounded"/>
          </xsd:sequence>
        </xsd:complexType>
      </xsd:element>
      <xsd:complexType name="TradePrice">
        <xsd:sequence>
          <xsd:element name="price" type="xsd:float" minOccurs="1" maxOccurs="1"/>
          <xsd:element name="Quote" type="xsd1:Quote" minOccurs="0" maxOccurs="3"/>
          <xsd:element name="volume" type="xsd:long"/>
          <xsd:element name="Local" type="Plain"/>
        </xsd:sequence>
      </xsd:complexType>
      <xsd:simpleType name="guid">
        <xsd:restriction base="xsd:string">
          <xsd:pattern value="[0-9a-f]+"/>
        </xsd:restriction>
      </xsd:simpleType>
    </xsd:schema>
    <xsd:schema>
      <xsd:complexType name="Empty"/>
    </xsd:schema>
  </types>
  <message name="GetLastTradePriceInput">
    <part name="body" element="xsd1:TradePriceRequest"/>
  </message>
  <message name="GetLastTradePriceOutput">
    <part name="body" element="xsd1:TradePrice"/>
  </message>
  <message name="Problem">
    <part name="fault" element="Plain"/>
  </message>
  <portType name="StockQuotePortType">
    <operation name="GetLastTradePrice">
      <documentation>no message here</documentation>
      <input message="tns:GetLastTradePriceInput"/>
      <output message="tns:GetLastTradePriceOutput"/>
    </operation>
    <operation name="Notify">
      <input message="tns:First"/>
      <input message="tns:GetLastTradePriceInput"/>
    </operation>
    <operation name="Risky">
      <input message="tns:GetLastTradePriceInput"/>
      <fault message="tns:Problem"/>
      <fault message="Other"/>
    </operation>
  </portType>
  <service name="StockQuoteService">
    <documentation>My first service</documentation>
  </service>
</definitions>
"#;

fn document(body: &str) -> Vec<u8> {
    format!(
        "<definitions targetNamespace=\"urn:t\" xmlns:xsd=\"{}\" xmlns:tns=\"urn:t\">{}</definitions>",
        XSD, body
    )
    .into_bytes()
}

fn with_types(types: &str) -> Vec<u8> {
    document(&format!(
        "<types><xsd:schema>{}</xsd:schema></types><portType name=\"P\"/><service name=\"S\"/>",
        types
    ))
}

fn attribute(nillable: bool, min: Option<Occurence>, max: Option<Occurence>) -> TypeAttribute {
    TypeAttribute { nillable, min_occurs: min, max_occurs: max }
}

fn field(attributes: &[(&str, &str)]) -> XmlElement {
    let mut e = XmlElement::new("element");
    for (k, v) in attributes {
        e.attributes.push((k.to_string(), v.to_string()));
    }
    e.namespaces.push(("xsd".to_string(), XSD.to_string()));
    e
}

fn is_complex(t: &SimpleType, ns: &str, name: &str) -> bool {
    match t {
        SimpleType::Complex(q) => q.namespace() == ns && q.name() == name,
        _ => false,
    }
}

#[test]
fn parse_example() {
    let res = parse(EXAMPLE_WSDL);
    println!("res: {:?}", res);
    res.unwrap();
}

#[test]
fn parse_reads_names_and_namespace() {
    let wsdl = parse(EXAMPLE_WSDL).unwrap();
    assert_eq!(wsdl.name, "StockQuoteService");
    assert_eq!(wsdl.target_namespace, "http://example.com/stockquote.wsdl");
}

#[test]
fn parse_reads_types_in_key_order() {
    let wsdl = parse(EXAMPLE_WSDL).unwrap();
    let keys: Vec<String> =
        (0..wsdl.types.len()).map(|i| wsdl.types.key_at(i).to_string()).collect();
    assert_eq!(
        keys,
        vec![
            "http://example.com/stockquote.wsdl:Empty",
            "http://example.com/stockquote.xsd:TradePrice",
            "http://example.com/stockquote.xsd:TradePriceRequest",
            "http://example.com/stockquote.xsd:guid",
        ]
    );
    match wsdl.types.value_at(0) {
        Type::Complex(c) => assert_eq!(c.fields.len(), 0),
        other => panic!("not a record: {:?}", other),
    }
    match wsdl.types.value_at(3) {
        Type::Simple(SimpleType::String) => {}
        other => panic!("not a string: {:?}", other),
    }
}

#[test]
fn parse_reads_fields_in_name_order_and_normalizes_them() {
    let wsdl = parse(EXAMPLE_WSDL).unwrap();
    let request = match wsdl.types.value_at(2) {
        Type::Complex(c) => c,
        other => panic!("not a record: {:?}", other),
    };
    let names: Vec<&str> =
        (0..request.fields.len()).map(|i| request.fields.key_at(i).as_str()).collect();
    assert_eq!(names, vec!["Day", "Tags", "tickerSymbol"]);
    let day = request.fields.value_at(0);
    assert_eq!(day.0, attribute(true, None, None));
    assert!(matches!(day.1, SimpleType::DateTime));
    let tags = request.fields.value_at(1);
    assert_eq!(tags.0, attribute(false, Some(Occurence::Num(0)), Some(Occurence::Unbounded)));
    assert!(matches!(tags.1, SimpleType::String));
    let ticker = request.fields.value_at(2);
    assert_eq!(ticker.0, attribute(false, None, None));

    let price = match wsdl.types.value_at(1) {
        Type::Complex(c) => c,
        other => panic!("not a record: {:?}", other),
    };
    let names: Vec<&str> =
        (0..price.fields.len()).map(|i| price.fields.key_at(i).as_str()).collect();
    assert_eq!(names, vec!["Local", "Quote", "price", "volume"]);
    assert!(is_complex(&price.fields.value_at(0).1, "http://example.com/stockquote.xsd", "Plain"));
    let quote = price.fields.value_at(1);
    assert_eq!(quote.0, attribute(false, Some(Occurence::Num(0)), Some(Occurence::Num(3))));
    assert!(is_complex(&quote.1, "http://example.com/stockquote.xsd", "Quote"));
    assert_eq!(price.fields.value_at(2).0, attribute(false, None, None));
    assert!(matches!(price.fields.value_at(2).1, SimpleType::Float));
    assert!(is_complex(&price.fields.value_at(3).1, XSD, "long"));
}

#[test]
fn parse_reads_messages() {
    let wsdl = parse(EXAMPLE_WSDL).unwrap();
    assert_eq!(wsdl.messages.len(), 3);
    let input = wsdl.messages.get(&"GetLastTradePriceInput".to_string()).unwrap();
    assert_eq!(input.part_name, "body");
    assert_eq!(input.part_element, "TradePriceRequest");
    let problem = wsdl.messages.get(&"Problem".to_string()).unwrap();
    assert_eq!(problem.part_element, "Plain");
}

#[test]
fn parse_reads_operations() {
    let wsdl = parse(EXAMPLE_WSDL).unwrap();
    assert_eq!(wsdl.operations.len(), 3);
    let get = wsdl.operations.get(&"GetLastTradePrice".to_string()).unwrap();
    assert_eq!(get.name, "GetLastTradePrice");
    assert_eq!(get.input.as_deref(), Some("GetLastTradePriceInput"));
    assert_eq!(get.output.as_deref(), Some("GetLastTradePriceOutput"));
    assert!(get.faults.is_none());
    let notify = wsdl.operations.get(&"Notify".to_string()).unwrap();
    assert_eq!(notify.input.as_deref(), Some("GetLastTradePriceInput"));
    assert!(notify.output.is_none());
    let risky = wsdl.operations.get(&"Risky".to_string()).unwrap();
    assert_eq!(risky.faults, Some(vec!["Problem".to_string(), "Other".to_string()]));
}

#[test]
fn parse_without_port_type_fails_with_element_not_found() {
    let bytes = document("<types/><service name=\"S\"/>");
    match parse(&bytes) {
        Err(WsdlError::ElementNotFound("portType")) => {}
        other => panic!("unexpected: {:?}", other),
    }
}

#[test]
fn parse_without_types_fails_with_element_not_found() {
    let bytes = document("<portType name=\"P\"/><service name=\"S\"/>");
    assert!(matches!(parse(&bytes), Err(WsdlError::ElementNotFound("types"))));
}

#[test]
fn parse_without_service_fails_with_element_not_found() {
    let bytes = document("<types/><portType name=\"P\"/>");
    assert!(matches!(parse(&bytes), Err(WsdlError::ElementNotFound("service"))));
}

#[test]
fn parse_without_service_name_fails_with_attribute_not_found() {
    let bytes = document("<types/><portType name=\"P\"/><service/>");
    assert!(matches!(parse(&bytes), Err(WsdlError::AttributeNotFound("name"))));
}

#[test]
fn parse_without_target_namespace_fails_with_attribute_not_found() {
    let bytes = b"<definitions><types/><portType/><service name=\"S\"/></definitions>";
    assert!(matches!(parse(bytes), Err(WsdlError::AttributeNotFound("targetNamespace"))));
}

#[test]
fn parse_of_malformed_xml_fails_with_parse() {
    assert!(matches!(parse(b"<definitions><types></definitions>"), Err(WsdlError::Parse(_))));
    assert!(matches!(parse(b""), Err(WsdlError::Parse(_))));
    assert!(matches!(parse(b"not xml at all"), Err(WsdlError::Parse(_))));
}

#[test]
fn parse_of_a_message_without_part_fails() {
    let bytes = document(
        "<types/><message name=\"M\"/><portType name=\"P\"/><service name=\"S\"/>",
    );
    assert!(matches!(parse(&bytes), Err(WsdlError::ElementNotFound("part"))));
}

#[test]
fn parse_of_a_part_without_element_fails() {
    let bytes = document(
        "<types/><message name=\"M\"><part name=\"p\"/></message><portType name=\"P\"/><service name=\"S\"/>",
    );
    assert!(matches!(parse(&bytes), Err(WsdlError::AttributeNotFound("element"))));
}

#[test]
fn parse_of_an_unknown_operation_member_fails() {
    let bytes = document(
        "<types/><portType name=\"P\"><operation name=\"O\"><other message=\"tns:M\"/></operation></portType><service name=\"S\"/>",
    );
    assert!(matches!(parse(&bytes), Err(WsdlError::ElementNotFound("operation member"))));
}

#[test]
fn parse_of_an_element_without_declaration_is_empty() {
    let bytes = with_types("<xsd:element name=\"X\" type=\"xsd:string\"/>");
    assert!(matches!(parse(&bytes), Err(WsdlError::Empty)));
}

#[test]
fn parse_of_text_in_a_complex_type_is_not_an_element() {
    let bytes = with_types("<xsd:complexType name=\"X\">text<xsd:sequence/></xsd:complexType>");
    assert!(matches!(parse(&bytes), Err(WsdlError::NotAnElement)));
}

#[test]
fn parse_of_a_list_simple_type_is_unsupported() {
    let bytes = with_types(
        "<xsd:simpleType name=\"X\"><xsd:list itemType=\"xsd:int\"/></xsd:simpleType>",
    );
    assert!(matches!(parse(&bytes), Err(WsdlError::Unsupported("simpleType"))));
}

#[test]
fn parse_of_an_unknown_schema_member_is_unsupported() {
    let bytes = with_types("<xsd:group name=\"X\"/>");
    assert!(matches!(parse(&bytes), Err(WsdlError::Unsupported("schema member"))));
}

#[test]
fn parse_of_an_element_that_declares_no_type_is_unsupported() {
    let bytes = with_types("<xsd:element name=\"X\"><xsd:annotation/></xsd:element>");
    assert!(matches!(parse(&bytes), Err(WsdlError::Unsupported("type declaration"))));
}

#[test]
fn parse_of_a_member_without_name_fails() {
    let bytes = with_types("<xsd:complexType/>");
    assert!(matches!(parse(&bytes), Err(WsdlError::AttributeNotFound("name"))));
}

#[test]
fn parse_of_a_base_with_an_unknown_prefix_is_invalid() {
    let bytes = with_types(
        "<xsd:simpleType name=\"X\"><xsd:restriction base=\"zz:int\"/></xsd:simpleType>",
    );
    assert!(matches!(parse(&bytes), Err(WsdlError::InvalidAttribute("base"))));
}

#[test]
fn parse_of_an_empty_simple_type_is_empty() {
    let bytes = with_types("<xsd:simpleType name=\"X\"/>");
    assert!(matches!(parse(&bytes), Err(WsdlError::Empty)));
}

#[test]
fn schemas_take_their_own_namespace() {
    let bytes = document(
        "<types><xsd:schema targetNamespace=\"urn:own\"><xsd:complexType name=\"A\"><xsd:sequence><xsd:element name=\"f\" type=\"B\"/></xsd:sequence></xsd:complexType></xsd:schema><xsd:schema><xsd:complexType name=\"A\"/></xsd:schema></types><portType name=\"P\"/><service name=\"S\"/>",
    );
    let wsdl = parse(&bytes).unwrap();
    assert_eq!(wsdl.types.len(), 2);
    assert_eq!(wsdl.types.key_at(0).as_tuple(), ("urn:own", "A"));
    assert_eq!(wsdl.types.key_at(1).as_tuple(), ("urn:t", "A"));
    match wsdl.types.value_at(0) {
        Type::Complex(c) => assert!(is_complex(&c.fields.value_at(0).1, "urn:own", "B")),
        other => panic!("not a record: {:?}", other),
    }
}

#[test]
fn parse_of_an_import_without_namespace_fails() {
    let bytes = with_types("<xsd:import/>");
    assert!(matches!(parse(&bytes), Err(WsdlError::AttributeNotFound("namespace"))));
}

#[test]
fn parse_of_a_restriction_without_base_fails() {
    let bytes = with_types("<xsd:simpleType name=\"X\"><xsd:restriction/></xsd:simpleType>");
    assert!(matches!(parse(&bytes), Err(WsdlError::AttributeNotFound("base"))));
}

#[test]
fn parse_of_a_bound_that_is_no_number_is_invalid() {
    let bytes = with_types(
        "<xsd:complexType name=\"X\"><xsd:sequence><xsd:element name=\"f\" type=\"xsd:int\" minOccurs=\"many\"/></xsd:sequence></xsd:complexType>",
    );
    assert!(matches!(parse(&bytes), Err(WsdlError::InvalidAttribute("minOccurs"))));
    let bytes = with_types(
        "<xsd:complexType name=\"X\"><xsd:sequence><xsd:element name=\"f\" type=\"xsd:int\" maxOccurs=\"4294967296\"/></xsd:sequence></xsd:complexType>",
    );
    assert!(matches!(parse(&bytes), Err(WsdlError::InvalidAttribute("maxOccurs"))));
}

#[test]
fn parse_of_an_unknown_prefix_is_invalid() {
    let bytes = with_types(
        "<xsd:complexType name=\"X\"><xsd:sequence><xsd:element name=\"f\" type=\"nowhere:int\"/></xsd:sequence></xsd:complexType>",
    );
    assert!(matches!(parse(&bytes), Err(WsdlError::InvalidAttribute("type"))));
}

#[test]
fn later_entries_replace_earlier_ones() {
    let bytes = with_types(
        "<xsd:simpleType name=\"X\"><xsd:restriction base=\"xsd:int\"/></xsd:simpleType><xsd:simpleType name=\"X\"><xsd:restriction base=\"xsd:boolean\"/></xsd:simpleType>",
    );
    let wsdl = parse(&bytes).unwrap();
    assert_eq!(wsdl.types.len(), 1);
    assert!(matches!(wsdl.types.value_at(0), Type::Simple(SimpleType::Boolean)));
    assert_eq!(wsdl.types.key_at(0).to_string(), "urn:t:X");
}

#[test]
fn parse_document_reads_a_tree_built_by_hand() {
    let mut root = XmlElement::new("definitions");
    root.attributes.push(("targetNamespace".to_string(), "urn:t".to_string()));
    root.children.push(XmlNode::Text("stray".to_string()));
    root.children.push(XmlNode::Element(XmlElement::new("types")));
    root.children.push(XmlNode::Other);
    root.children.push(XmlNode::Element(XmlElement::new("portType")));
    let mut service = XmlElement::new("service");
    service.attributes.push(("name".to_string(), "Svc".to_string()));
    root.children.push(XmlNode::Element(service));
    let wsdl = parse_document(&root).unwrap();
    assert_eq!(wsdl.name, "Svc");
    assert_eq!(wsdl.target_namespace, "urn:t");
    assert_eq!(wsdl.types.len(), 0);
    assert_eq!(wsdl.messages.len(), 0);
    assert_eq!(wsdl.operations.len(), 0);
}

#[test]
fn normalize_drops_bounds_of_exactly_one() {
    let a = attribute(false, Some(Occurence::Num(1)), Some(Occurence::Num(1)));
    assert_eq!(a.normalize(), attribute(false, None, None));
}

#[test]
fn normalize_turns_none_to_one_into_nillable() {
    let a = attribute(false, Some(Occurence::Num(0)), Some(Occurence::Num(1)));
    assert_eq!(a.normalize(), attribute(true, None, None));
}

#[test]
fn normalize_turns_a_nillable_unbounded_field_into_a_list() {
    let list = attribute(false, Some(Occurence::Num(0)), Some(Occurence::Unbounded));
    assert_eq!(attribute(true, Some(Occurence::Num(0)), Some(Occurence::Unbounded)).normalize(), list);
    assert_eq!(attribute(true, Some(Occurence::Num(1)), Some(Occurence::Unbounded)).normalize(), list);
}

#[test]
fn normalize_passes_other_combinations_on() {
    let samples = [
        attribute(true, Some(Occurence::Num(1)), Some(Occurence::Num(1))),
        attribute(true, Some(Occurence::Num(2)), Some(Occurence::Unbounded)),
        attribute(false, Some(Occurence::Num(0)), Some(Occurence::Unbounded)),
        attribute(false, None, Some(Occurence::Num(1))),
        attribute(true, None, None),
    ];
    for a in samples {
        assert_eq!(a.normalize(), a);
    }
}

#[test]
fn normalize_twice_is_normalize_once() {
    let bounds = [
        None,
        Some(Occurence::Unbounded),
        Some(Occurence::Num(0)),
        Some(Occurence::Num(1)),
        Some(Occurence::Num(2)),
    ];
    for nillable in [false, true] {
        for min in bounds {
            for max in bounds {
                let once = attribute(nillable, min, max).normalize();
                assert_eq!(once.normalize(), once);
            }
        }
    }
}

#[test]
fn default_attributes_state_nothing() {
    assert_eq!(TypeAttribute::default(), attribute(false, None, None));
}

#[test]
fn a_field_with_bounds_of_one_is_read_as_a_field_without() {
    let stated = field(&[
        ("name", "age"),
        ("type", "xsd:int"),
        ("minOccurs", "1"),
        ("maxOccurs", "1"),
        ("nillable", "false"),
    ]);
    let plain = field(&[("name", "age"), ("type", "xsd:int")]);
    let a = parse_element(&stated, "urn:t").unwrap();
    let b = parse_element(&plain, "urn:t").unwrap();
    assert_eq!(a.0, b.0);
    assert_eq!(a.0, attribute(false, None, None));
    assert!(matches!(a.1, SimpleType::Int));
    assert!(matches!(b.1, SimpleType::Int));
}

#[test]
fn parse_element_reads_bounds() {
    let e = field(&[("name", "n"), ("type", "xsd:boolean"), ("minOccurs", "+2"), ("maxOccurs", "007")]);
    let (a, t) = parse_element(&e, "urn:t").unwrap();
    assert_eq!(a, attribute(false, Some(Occurence::Num(2)), Some(Occurence::Num(7))));
    assert!(matches!(t, SimpleType::Boolean));
    let e = field(&[("name", "n"), ("type", "xsd:int"), ("maxOccurs", "4294967295")]);
    let (a, _) = parse_element(&e, "urn:t").unwrap();
    assert_eq!(a.max_occurs, Some(Occurence::Num(4294967295)));
}

#[test]
fn parse_element_rejects_bad_bounds() {
    for bad in ["", "+", "-1", "1.5", " 1", "4294967296", "99999999999999999999999", "1a"] {
        let e = field(&[("name", "n"), ("type", "xsd:int"), ("minOccurs", bad)]);
        assert!(
            matches!(parse_element(&e, "urn:t"), Err(WsdlError::InvalidAttribute("minOccurs"))),
            "{:?}",
            bad
        );
    }
}

#[test]
fn parse_element_needs_name_and_type() {
    let e = field(&[("type", "xsd:int")]);
    assert!(matches!(parse_element(&e, "urn:t"), Err(WsdlError::AttributeNotFound("name"))));
    let e = field(&[("name", "n")]);
    assert!(matches!(parse_element(&e, "urn:t"), Err(WsdlError::AttributeNotFound("type"))));
}

#[test]
fn parse_type_ref_knows_the_built_in_types() {
    let of = |ns: &str, name: &str| {
        parse_type_ref(&QualifiedTypename::new(ns.to_string(), name.to_string()))
    };
    assert!(matches!(of(XSD, "boolean"), SimpleType::Boolean));
    assert!(matches!(of(XSD, "string"), SimpleType::String));
    assert!(matches!(of(XSD, "int"), SimpleType::Int));
    assert!(matches!(of(XSD, "float"), SimpleType::Float));
    assert!(matches!(of(XSD, "dateTime"), SimpleType::DateTime));
    assert!(matches!(of(XSD, "base64Binary"), SimpleType::Base64Binary));
    assert!(is_complex(&of(XSD, "decimal"), XSD, "decimal"));
    assert!(is_complex(&of("urn:other", "string"), "urn:other", "string"));
}

#[test]
fn split_namespace_drops_the_prefix() {
    assert_eq!(split_namespace("tns:Name"), "Name");
    assert_eq!(split_namespace("Name"), "Name");
    assert_eq!(split_namespace("a:b:c"), "b:c");
    assert_eq!(split_namespace(":x"), "x");
    assert_eq!(split_namespace("x:"), "");
    assert_eq!(split_namespace("é:ü"), "ü");
}

#[test]
fn qualified_type_resolves_prefixes() {
    let scope = field(&[]);
    let q = qualified_type("xsd:int", &scope, "urn:d").unwrap();
    assert_eq!(q.as_tuple(), (XSD, "int"));
    let q = qualified_type("Local", &scope, "urn:d").unwrap();
    assert_eq!(q.as_tuple(), ("urn:d", "Local"));
    assert!(qualified_type("zz:int", &scope, "urn:d").is_none());
}

#[test]
fn qualified_typename_reads_and_writes_text() {
    let q = QualifiedTypename::from_str("ns:name").unwrap();
    assert_eq!(q.namespace(), "ns");
    assert_eq!(q.name(), "name");
    assert_eq!(q.to_string(), "ns:name");
    let q = QualifiedTypename::from_str("a:b:c").unwrap();
    assert_eq!(q.as_tuple(), ("a", "b"));
    let q = QualifiedTypename::from_str(":").unwrap();
    assert_eq!(q.as_tuple(), ("", ""));
    match QualifiedTypename::from_str("plain") {
        Err(savon::error::Error::StringError(m)) => assert_eq!(m, "invalid qualified name"),
        other => panic!("unexpected: {:?}", other),
    }
    assert_eq!(q.duplicate().to_string(), q.to_string());
}
