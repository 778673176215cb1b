//! The code generator: from the type model to source declarations.

use crate::error::Error;
use crate::ordered::{lookup, OrderedMap};
use crate::string::{snake, to_snake};
use crate::text::{str_eq, upper};
use crate::wsdl::{
    normalized, parse, qualified_text, strings, wsdl_of, ComplexType, FieldsView, Message,
    MessageView, MessagesView, Occurence, Operation, OperationView, QualifiedTypename, SimpleType,
    SimpleTypeView, Type, TypeAttribute, TypeView, TypesView, Wsdl, WsdlError, WsdlView,
};
use crate::xml::{document_tree, XmlElement, XmlNode};
use vstd::prelude::*;
use vstd::string::StringExecFns;

verus! {

/// A value that can be written as XML elements.
pub trait ToElements {
    fn to_elements(&self) -> Vec<XmlElement>;
}

/// A value that can be read from an XML element.
pub trait FromElement: Sized {
    fn from_element(element: &XmlElement) -> Result<Self, Error>;
}

/// A value that may be absent is written as its elements, or as none.
impl<T: ToElements> ToElements for Option<T> {
    fn to_elements(&self) -> (r: Vec<XmlElement>)
        ensures
            match self {
                Some(e) => call_ensures(T::to_elements, (e,), r),
                None => r@.len() == 0,
            },
    {
        match self {
            Some(e) => e.to_elements(),
            None => Vec::new(),
        }
    }
}

/// Why a model could not be lowered to source.
#[derive(Debug, Clone, Copy, PartialEq, Eq, Structural)]
pub enum GenError {
    /// An operation names no input message.
    OperationFieldRequired,
    /// The type map holds an import or an enumeration.
    UnsupportedType,
}

/// The rows of the dataset `element`: the children of the
/// `DocumentElement` of its `diffgram`.
pub open spec fn dataset_rows(element: XmlElement) -> Option<Seq<XmlNode>> {
    match element.child("diffgram"@) {
        None => None,
        Some(diffgram) => match diffgram.child("DocumentElement"@) {
            None => None,
            Some(doc) => Some(doc.children@),
        },
    }
}

/// `value` is what `T` read from the row `row`.
pub open spec fn read_as<T: FromElement>(row: XmlNode, value: T) -> bool {
    match row {
        XmlNode::Element(e) => call_ensures(T::from_element, (&e,), Ok::<T, Error>(value)),
        _ => false,
    }
}

/// Reading the row `row` failed with `error`: the row is no element, or
/// `T` could not read it.
pub open spec fn failed_as<T: FromElement>(row: XmlNode, error: Error) -> bool {
    match row {
        XmlNode::Element(e) => call_ensures(T::from_element, (&e,), Err::<T, Error>(error)),
        _ => error == Error::Wsdl(WsdlError::NotAnElement),
    }
}

/// The row at index `i` is the first that could not be read, and reading
/// it failed with `error`.
pub open spec fn first_failure<T: FromElement>(rows: Seq<XmlNode>, i: int, error: Error) -> bool {
    &&& 0 <= i < rows.len()
    &&& failed_as::<T>(rows[i], error)
    &&& forall|j: int| 0 <= j < i ==> (#[trigger] rows[j]) is Element
}

/// Reads the rows of a dataset: one value from each row, in their order.
///
/// An element without the nesting of a dataset gives
/// `WsdlError::NotAnElement`. Otherwise the result holds what `T` read
/// from each row, or the error of the first row that could not be read;
/// no row after that one is read.
pub fn from_template<T>(element: &XmlElement) -> (r: Result<Vec<T>, Error>) where
    T: FromElement + Clone,

    ensures
        match dataset_rows(*element) {
            None => r matches Err(Error::Wsdl(WsdlError::NotAnElement)),
            Some(rows) => match r {
                Ok(values) => values@.len() == rows.len() && forall|i: int|
                    0 <= i < rows.len() ==> read_as::<T>(rows[i], #[trigger] values@[i]),
                Err(error) => exists|i: int| first_failure::<T>(rows, i, error),
            },
        },
{
    let diffgram = match element.get_child("diffgram") {
        Some(d) => d,
        None => {
            return Err(Error::Wsdl(WsdlError::NotAnElement));
        },
    };
    let doc = match diffgram.get_child("DocumentElement") {
        Some(d) => d,
        None => {
            return Err(Error::Wsdl(WsdlError::NotAnElement));
        },
    };
    let ghost rows = doc.children@;
    let mut result: Vec<T> = Vec::new();
    let mut i: usize = 0;
    while i < doc.children.len()
        invariant
            i <= doc.children.len(),
            rows == doc.children@,
            dataset_rows(*element) == Some(rows),
            result@.len() == i,
            forall|j: int| 0 <= j < i ==> read_as::<T>(rows[j], #[trigger] result@[j]),
            forall|j: int| 0 <= j < i ==> (#[trigger] rows[j]) is Element,
        decreases doc.children.len() - i,
    {
        let el = match doc.children[i].as_element() {
            Some(e) => e,
            None => {
                let error = Error::Wsdl(WsdlError::NotAnElement);
                assert(first_failure::<T>(dataset_rows(*element)->0, i as int, error));
                return Err(error);
            },
        };
        match T::from_element(el) {
            Ok(v) => {
                result.push(v);
            },
            Err(e) => {
                assert(first_failure::<T>(dataset_rows(*element)->0, i as int, e));
                return Err(e);
            },
        }
        i += 1;
    }
    Ok(result)
}

/// The bounds on the element type of a generic declaration.
pub const BOUNDS: &'static str =
    "std::fmt::Debug + Default + Clone + PartialEq + savon::gen::FromElement + savon::gen::ToElements";

/// The derives of every record.
pub const DERIVES: &'static str = "#[derive(Clone, Debug, Default, PartialEq)]\n";

/// The head of a serializer.
pub const TO_ELEMENTS: &'static str = "fn to_elements(&self) -> Vec<xmltree::Element> {\n";

/// The head of a deserializer.
pub const FROM_ELEMENT: &'static str =
    "fn from_element(element: &xmltree::Element) -> Result<Self, savon::Error> {\n";

/// Reads a boolean from the element `e`.
pub const READ_BOOL: &'static str = "e.as_boolean().map_err(savon::Error::from)";

/// Reads an integer from the element `e`.
pub const READ_LONG: &'static str = "e.as_long().map_err(savon::Error::from)";

/// Reads the text of the element `e`.
pub const READ_TEXT: &'static str =
    "e.get_text().map(|s| s.to_string()).ok_or(savon::rpser::xml::Error::Empty).map_err(savon::Error::from)";

/// Reads a floating-point number from the text of the element `e`.
pub const READ_FLOAT: &'static str =
    "e.get_text().ok_or(savon::rpser::xml::Error::Empty).map_err(savon::Error::from).and_then(|s| s.parse::<f64>().map_err(savon::Error::from))";

/// Reads a date and time from the text of the element `e`.
pub const READ_TIME: &'static str =
    "e.get_text().ok_or(savon::rpser::xml::Error::Empty).map_err(savon::Error::from).and_then(|s| s.parse::<savon::internal::chrono::DateTime<savon::internal::chrono::offset::Utc>>().map_err(savon::Error::from))";

/// Reads the text of the element `element` itself.
pub const READ_OWN_TEXT: &'static str =
    "element.get_text().ok_or(savon::rpser::xml::Error::Empty).map(|v| v.to_string()).map_err(savon::Error::from)";

/// The imports that the declarations rely on.
pub const PREAMBLE: &'static str =
    "use savon::internal::xmltree;\n#[allow(unused_imports)]\nuse savon::rpser::xml::*;\nuse savon::wsdl::WsdlError;\n";

/// The camel-case form of what is left of `s`: underscores are dropped,
/// and the first character of each word is put in ASCII upper case.
/// `new_word` says whether the next character begins a word.
pub open spec fn camel_from(s: Seq<char>, new_word: bool) -> Seq<char>
    decreases s.len(),
{
    if s.len() == 0 {
        Seq::empty()
    } else if s[0] == '_' {
        camel_from(s.drop_first(), true)
    } else if new_word {
        seq![upper(s[0])] + camel_from(s.drop_first(), false)
    } else {
        seq![s[0]] + camel_from(s.drop_first(), false)
    }
}

/// The capitalized camel-case form of the snake-case name `s`.
pub open spec fn camel(s: Seq<char>) -> Seq<char> {
    camel_from(s, true)
}

/// `case::CaseExt::to_camel`: walks the characters, drops each underscore
/// and puts the first character and every character that follows an
/// underscore in ASCII upper case.
#[verifier::external_body]
pub(crate) fn to_camel(s: &str) -> (r: String)
    ensures
        r@ == camel(s@),
{
    case::CaseExt::to_camel(s)
}

/// The text of the Rust string literal that stands for `s`: `s` between
/// double quotes, with the escapes that std writes when it formats a
/// string for debugging.
pub uninterp spec fn string_literal(s: Seq<char>) -> Seq<char>;

/// `Debug` of std for `str`: the quoted and escaped form of `s`, which
/// depends on `s` alone.
#[verifier::external_body]
pub(crate) fn literal(s: &str) -> (r: String)
    ensures
        r@ == string_literal(s@),
{
    format!("{:?}", s)
}

/// The name of the Rust type that stands for `t`.
pub open spec fn simple_text(t: SimpleTypeView) -> Seq<char> {
    match t {
        SimpleTypeView::Boolean => "bool"@,
        SimpleTypeView::String => "String"@,
        SimpleTypeView::Float => "f64"@,
        SimpleTypeView::Int => "i64"@,
        SimpleTypeView::Long => "i64"@,
        SimpleTypeView::DateTime => "chrono::DateTime<chrono::Utc>"@,
        SimpleTypeView::Base64Binary => "String"@,
        SimpleTypeView::Any => "Any"@,
        SimpleTypeView::Complex(n) => camel(n.1),
    }
}

/// Names the Rust type of a field's base type.
pub fn gen_simple(ty: &SimpleType) -> (r: String)
    ensures
        r@ == simple_text(ty@),
{
    match ty {
        SimpleType::Boolean => String::from_str("bool"),
        SimpleType::String => String::from_str("String"),
        SimpleType::Float => String::from_str("f64"),
        SimpleType::Int => String::from_str("i64"),
        SimpleType::Long => String::from_str("i64"),
        SimpleType::DateTime => String::from_str("chrono::DateTime<chrono::Utc>"),
        SimpleType::Base64Binary => String::from_str("String"),
        SimpleType::Any => String::from_str("Any"),
        SimpleType::Complex(n) => to_camel(n.name()),
    }
}

/// A field with both bounds stated is a list.
pub open spec fn is_list(a: TypeAttribute) -> bool {
    a.min_occurs is Some && a.max_occurs is Some
}

/// The type of one item, or of the list of items where the field repeats.
pub open spec fn list_text(a: TypeAttribute, t: SimpleTypeView) -> Seq<char> {
    if is_list(a) {
        "Vec<"@
            + simple_text(t)
            + ">"@
    } else {
        simple_text(t)
    }
}

/// The type `inner` in an option.
pub open spec fn option_text(inner: Seq<char>) -> Seq<char> {
    "Option<"@
        + inner
        + ">"@
}

/// The declared type of a field: the base type, in a list where the field
/// repeats, and that in an option where the field is nillable.
pub open spec fn field_type_text(a: TypeAttribute, t: SimpleTypeView) -> Seq<char> {
    if a.nillable {
        option_text(list_text(a, t))
    } else {
        list_text(a, t)
    }
}

/// Writes the declared type of a field.
pub fn gen_field_type(a: &TypeAttribute, t: &SimpleType) -> (r: String)
    ensures
        r@ == field_type_text(*a, t@),
{
    let base = gen_simple(t);
    let inner = if a.min_occurs.is_some() && a.max_occurs.is_some() {
        String::from_str("Vec<")
            .concat(base.as_str())
            .concat(">")
    } else {
        base
    };
    if a.nillable {
        String::from_str("Option<")
            .concat(inner.as_str())
            .concat(">")
    } else {
        inner
    }
}

/// A documentation attribute with the text `doc`.
pub open spec fn doc_attr_text(doc: Seq<char>) -> Seq<char> {
    "#[doc = "@
        + string_literal(doc)
        + "]\n"@
}

fn doc_attr(doc: &str) -> (r: String)
    ensures
        r@ == doc_attr_text(doc@),
{
    let quoted = literal(doc);
    String::from_str("#[doc = ")
        .concat(quoted.as_str())
        .concat("]\n")
}

/// The documentation of a declared type: its qualified name.
pub open spec fn type_doc_text(name: (Seq<char>, Seq<char>)) -> Seq<char> {
    " Qualified type: "@
        + qualified_text(name)
}

fn type_doc(name: &QualifiedTypename) -> (r: String)
    ensures
        r@ == type_doc_text(name@),
{
    let full = name.to_string();
    String::from_str(" Qualified type: ")
        .concat(full.as_str())
}

/// The documentation of a field: the qualified name of the type that it
/// refers to, nothing for a built-in type.
pub open spec fn field_doc_text(t: SimpleTypeView) -> Seq<char> {
    match t {
        SimpleTypeView::Complex(q) => type_doc_text(q),
        _ => ""@,
    }
}

fn field_doc(t: &SimpleType) -> (r: String)
    ensures
        r@ == field_doc_text(t@),
{
    match t {
        SimpleType::Complex(q) => type_doc(q),
        _ => String::from_str(""),
    }
}

/// The declaration of the field `name` in its record.
pub open spec fn field_decl_text(name: Seq<char>, a: TypeAttribute, t: SimpleTypeView) -> Seq<char> {
    doc_attr_text(field_doc_text(t))
        + "pub "@
        + snake(name)
        + ": "@
        + field_type_text(a, t)
        + ",\n"@
}

fn field_decl(name: &String, a: &TypeAttribute, t: &SimpleType) -> (r: String)
    ensures
        r@ == field_decl_text(name@, *a, t@),
{
    let hint = field_doc(t);
    let doc = doc_attr(hint.as_str());
    let ident = to_snake(name);
    let ty = gen_field_type(a, t);
    doc
        .concat("pub ")
        .concat(ident.as_str())
        .concat(": ")
        .concat(ty.as_str())
        .concat(",\n")
}

/// An expression for an empty element with the tag `tag`.
pub open spec fn node_text(tag: Seq<char>) -> Seq<char> {
    "xmltree::Element::node("@
        + string_literal(tag)
        + ")"@
}

/// A value of a referenced type or of any type is written as child
/// elements; a value of a built-in type as text.
pub open spec fn is_nested(t: SimpleTypeView) -> bool {
    t is Complex || t is Any
}

/// An expression for the element that carries `value` under `tag`.
pub open spec fn item_node_text(tag: Seq<char>, t: SimpleTypeView, value: Seq<char>) -> Seq<char> {
    if is_nested(t) {
        node_text(tag)
            + ".with_children("@
            + value
            + ".to_elements())"@
    } else if t is DateTime {
        node_text(tag)
            + ".with_text("@
            + value
            + ".to_rfc3339())"@
    } else {
        node_text(tag)
            + ".with_text("@
            + value
            + ".to_string())"@
    }
}

fn item_node(tag: &str, t: &SimpleType, value: &str) -> (r: String)
    ensures
        r@ == item_node_text(tag@, t@, value@),
{
    let quoted = literal(tag);
    let node = String::from_str("xmltree::Element::node(")
        .concat(quoted.as_str())
        .concat(")");
    match t {
        SimpleType::Complex(_) => {
            node
                .concat(".with_children(")
                .concat(value)
                .concat(".to_elements())")
        },
        SimpleType::Any => {
            node
                .concat(".with_children(")
                .concat(value)
                .concat(".to_elements())")
        },
        SimpleType::DateTime => {
            node
                .concat(".with_text(")
                .concat(value)
                .concat(".to_rfc3339())")
        },
        _ => {
            node
                .concat(".with_text(")
                .concat(value)
                .concat(".to_string())")
        },
    }
}

/// The field `name` of the value that is written.
pub open spec fn path_text(name: Seq<char>) -> Seq<char> {
    "self."@
        + snake(name)
}

/// An expression for the elements of the field `name`, which the
/// serializer emits under the field's own name: one element for each item
/// of a list, none for an absent value, one otherwise.
pub open spec fn field_serialize_text(name: Seq<char>, a: TypeAttribute, t: SimpleTypeView) -> Seq<
    char,
> {
    if is_list(a) && a.nillable {
        path_text(name)
            + ".as_ref().map(|v| v.iter().map(|i| "@
            + item_node_text(name, t, "i"@)
            + ").collect::<Vec<_>>()).unwrap_or_else(Vec::new)"@
    } else if is_list(a) {
        path_text(name)
            + ".iter().map(|i| "@
            + item_node_text(name, t, "i"@)
            + ").collect::<Vec<_>>()"@
    } else if a.nillable {
        "match "@
            + path_text(name)
            + ".as_ref() { Some(v) => vec!["@
            + item_node_text(name, t, "v"@)
            + "], None => vec![] }"@
    } else {
        "vec!["@
            + item_node_text(name, t, path_text(name))
            + "]"@
    }
}

fn field_serialize(name: &String, a: &TypeAttribute, t: &SimpleType) -> (r: String)
    ensures
        r@ == field_serialize_text(name@, *a, t@),
{
    let ident = to_snake(name);
    let path = String::from_str("self.")
        .concat(ident.as_str());
    let list = a.min_occurs.is_some() && a.max_occurs.is_some();
    if list && a.nillable {
        let item = item_node(name.as_str(), t, "i");
        path
            .concat(".as_ref().map(|v| v.iter().map(|i| ")
            .concat(item.as_str())
            .concat(").collect::<Vec<_>>()).unwrap_or_else(Vec::new)")
    } else if list {
        let item = item_node(name.as_str(), t, "i");
        path
            .concat(".iter().map(|i| ")
            .concat(item.as_str())
            .concat(").collect::<Vec<_>>()")
    } else if a.nillable {
        let item = item_node(name.as_str(), t, "v");
        String::from_str("match ")
            .concat(path.as_str())
            .concat(".as_ref() { Some(v) => vec![")
            .concat(item.as_str())
            .concat("], None => vec![] }")
    } else {
        let item = item_node(name.as_str(), t, path.as_str());
        String::from_str("vec![")
            .concat(item.as_str())
            .concat("]")
    }
}

/// An expression that reads one value of the type `t` from the element
/// `e`.
pub open spec fn item_read_text(t: SimpleTypeView) -> Seq<char> {
    match t {
        SimpleTypeView::Boolean => READ_BOOL@,
        SimpleTypeView::Int => READ_LONG@,
        SimpleTypeView::Long => READ_LONG@,
        SimpleTypeView::String => READ_TEXT@,
        SimpleTypeView::Base64Binary => READ_TEXT@,
        SimpleTypeView::Float => READ_FLOAT@,
        SimpleTypeView::DateTime => READ_TIME@,
        SimpleTypeView::Complex(q) => camel(q.1)
            + "::from_element(e)"@,
        SimpleTypeView::Any => "Any::from_element(e)"@,
    }
}

fn item_read(t: &SimpleType) -> (r: String)
    ensures
        r@ == item_read_text(t@),
{
    match t {
        SimpleType::Boolean => {
            String::from_str(READ_BOOL)
        },
        SimpleType::Int => {
            String::from_str(READ_LONG)
        },
        SimpleType::Long => {
            String::from_str(READ_LONG)
        },
        SimpleType::String => {
            String::from_str(READ_TEXT)
        },
        SimpleType::Base64Binary => {
            String::from_str(READ_TEXT)
        },
        SimpleType::Float => {
            String::from_str(READ_FLOAT)
        },
        SimpleType::DateTime => {
            String::from_str(READ_TIME)
        },
        SimpleType::Complex(q) => {
            let ty = to_camel(q.name());
            ty
                .concat("::from_element(e)")
        },
        SimpleType::Any => {
            String::from_str("Any::from_element(e)")
        },
    }
}

/// An expression that looks up the child named `tag` and reads one value
/// from it.
pub open spec fn read_one_text(tag: Seq<char>, t: SimpleTypeView) -> Seq<char> {
    "element.get_at_path(&["@
        + string_literal(tag)
        + "]).map_err(savon::Error::from).and_then(|e| { let e = &e; "@
        + item_read_text(t)
        + " })"@
}

/// An expression that reads one value from each child named `tag`.
pub open spec fn read_list_text(tag: Seq<char>, t: SimpleTypeView) -> Seq<char> {
    "{ let mut v = vec![]; for e in element.children.iter().filter_map(|c| c.as_element()).filter(|c| c.name == "@
        + string_literal(tag)
        + ") { v.push("@
        + item_read_text(t)
        + "?); } v }"@
}

/// An expression for the value of the field `name` in the deserializer. A
/// field that is not nillable hands on the error of a missing or
/// unreadable element; a nillable field turns it into an absent value.
pub open spec fn field_value_text(name: Seq<char>, a: TypeAttribute, t: SimpleTypeView) -> Seq<
    char,
> {
    if is_list(a) && a.nillable {
        "Some("@
            + read_list_text(name, t)
            + ")"@
    } else if is_list(a) {
        read_list_text(name, t)
    } else if a.nillable {
        read_one_text(name, t)
            + ".ok()"@
    } else {
        read_one_text(name, t)
            + "?"@
    }
}

fn field_value(tag: &String, a: &TypeAttribute, t: &SimpleType) -> (r: String)
    ensures
        r@ == field_value_text(tag@, *a, t@),
{
    let quoted = literal(tag.as_str());
    let item = item_read(t);
    if a.min_occurs.is_some() && a.max_occurs.is_some() {
        let list = String::from_str("{ let mut v = vec![]; for e in element.children.iter().filter_map(|c| c.as_element()).filter(|c| c.name == ")
            .concat(quoted.as_str())
            .concat(") { v.push(")
            .concat(item.as_str())
            .concat("?); } v }");
        if a.nillable {
            String::from_str("Some(")
                .concat(list.as_str())
                .concat(")")
        } else {
            list
        }
    } else {
        let one = String::from_str("element.get_at_path(&[")
            .concat(quoted.as_str())
            .concat("]).map_err(savon::Error::from).and_then(|e| { let e = &e; ")
            .concat(item.as_str())
            .concat(" })");
        if a.nillable {
            one
                .concat(".ok()")
        } else {
            one
                .concat("?")
        }
    }
}

/// The initializer of the field `name` in the deserializer.
pub open spec fn field_init_text(name: Seq<char>, a: TypeAttribute, t: SimpleTypeView) -> Seq<char> {
    snake(name)
        + ": "@
        + field_value_text(name, a, t)
        + ",\n"@
}

fn field_init(name: &String, a: &TypeAttribute, t: &SimpleType) -> (r: String)
    ensures
        r@ == field_init_text(name@, *a, t@),
{
    let ident = to_snake(name);
    let value = field_value(name, a, t);
    ident
        .concat(": ")
        .concat(value.as_str())
        .concat(",\n")
}

/// The declarations of the first `n` fields.
pub open spec fn decls_text(fields: FieldsView, n: nat) -> Seq<char>
    decreases n,
{
    if n == 0 {
        Seq::empty()
    } else {
        let f = fields[n - 1];
        decls_text(fields, (n - 1) as nat) + field_decl_text(f.0, f.1.0, f.1.1)
    }
}

/// The serializer's expressions for the first `n` fields, each followed by
/// a comma.
pub open spec fn serializers_text(fields: FieldsView, n: nat) -> Seq<char>
    decreases n,
{
    if n == 0 {
        Seq::empty()
    } else {
        let f = fields[n - 1];
        serializers_text(fields, (n - 1) as nat) + (field_serialize_text(f.0, f.1.0, f.1.1) + ", "@)
    }
}

/// The deserializer's initializers for the first `n` fields.
pub open spec fn inits_text(fields: FieldsView, n: nat) -> Seq<char>
    decreases n,
{
    if n == 0 {
        Seq::empty()
    } else {
        let f = fields[n - 1];
        inits_text(fields, (n - 1) as nat) + field_init_text(f.0, f.1.0, f.1.1)
    }
}

/// The declaration of the record `name`: its documentation and one field
/// for each entry of `fields`, in their order.
pub open spec fn record_head_text(name: (Seq<char>, Seq<char>), fields: FieldsView) -> Seq<char> {
    doc_attr_text(type_doc_text(name))
        + DERIVES@
        + "pub struct "@
        + camel(name.1)
        + " {\n"@
        + decls_text(fields, fields.len())
        + "}\n"@
}

/// The body of a record's serializer.
pub open spec fn serializer_body_text(fields: FieldsView) -> Seq<char> {
    if fields.len() == 0 {
        "vec![]"@
    } else {
        "vec!["@
            + serializers_text(fields, fields.len())
            + "].drain(..).flatten().collect()"@
    }
}

/// The serializer of the record `name`.
pub open spec fn record_to_text(name: (Seq<char>, Seq<char>), fields: FieldsView) -> Seq<char> {
    "impl savon::gen::ToElements for "@
        + camel(name.1)
        + " {\n"@
        + TO_ELEMENTS@
        + serializer_body_text(fields)
        + "\n"@
        + "}\n"@
        + "}\n"@
}

/// The name of the deserializer's parameter: unused where there is no
/// field to read.
pub open spec fn element_param_text(fields: FieldsView) -> Seq<char> {
    if fields.len() == 0 {
        "_element"@
    } else {
        "element"@
    }
}

/// The deserializer of the record `name`.
pub open spec fn record_from_text(name: (Seq<char>, Seq<char>), fields: FieldsView) -> Seq<char> {
    "impl savon::gen::FromElement for "@
        + camel(name.1)
        + " {\n"@
        + "fn from_element("@
        + element_param_text(fields)
        + ": &xmltree::Element) -> Result<Self, savon::Error> {\n"@
        + "Ok("@
        + camel(name.1)
        + " {\n"@
        + inits_text(fields, fields.len())
        + "})\n"@
        + "}\n"@
        + "}\n"@
}

/// What a complex type is lowered to: a record, its serializer and its
/// deserializer.
pub open spec fn record_text(name: (Seq<char>, Seq<char>), fields: FieldsView) -> Seq<char> {
    record_head_text(name, fields)
        + record_to_text(name, fields)
        + record_from_text(name, fields)
}

fn gen_record(name: &QualifiedTypename, c: &ComplexType) -> (r: String)
    ensures
        r@ == record_text(name@, c@),
{
    let ghost fields = c@;
    let mut decls = String::new();
    let mut exprs = String::new();
    let mut inits = String::new();
    let n = c.fields.len();
    let mut i: usize = 0;
    while i < n
        invariant
            i <= n,
            n == c.fields@.len(),
            fields == c.fields@,
            decls@ == decls_text(fields, i as nat),
            exprs@ == serializers_text(fields, i as nat),
            inits@ == inits_text(fields, i as nat),
        decreases n - i,
    {
        let field_name = c.fields.key_at(i);
        let entry = c.fields.value_at(i);
        let decl = field_decl(field_name, &entry.0, &entry.1);
        decls.append(decl.as_str());
        let expr = field_serialize(field_name, &entry.0, &entry.1).concat(", ");
        exprs.append(expr.as_str());
        let init = field_init(field_name, &entry.0, &entry.1);
        inits.append(init.as_str());
        i += 1;
    }
    let hint = type_doc(name);
    let doc = doc_attr(hint.as_str());
    let ty = to_camel(name.name());
    let head = doc
        .concat(DERIVES)
        .concat("pub struct ")
        .concat(ty.as_str())
        .concat(" {\n")
        .concat(decls.as_str())
        .concat("}\n");
    let body = if n == 0 {
        String::from_str("vec![]")
    } else {
        String::from_str("vec![")
            .concat(exprs.as_str())
            .concat("].drain(..).flatten().collect()")
    };
    let to = String::from_str("impl savon::gen::ToElements for ")
        .concat(ty.as_str())
        .concat(" {\n")
        .concat(TO_ELEMENTS)
        .concat(body.as_str())
        .concat("\n")
        .concat("}\n")
        .concat("}\n");
    let param = if n == 0 {
        "_element"
    } else {
        "element"
    };
    let from = String::from_str("impl savon::gen::FromElement for ")
        .concat(ty.as_str())
        .concat(" {\n")
        .concat("fn from_element(")
        .concat(param)
        .concat(": &xmltree::Element) -> Result<Self, savon::Error> {\n")
        .concat("Ok(")
        .concat(ty.as_str())
        .concat(" {\n")
        .concat(inits.as_str())
        .concat("})\n")
        .concat("}\n")
        .concat("}\n");
    head
        .concat(to.as_str())
        .concat(from.as_str())
}

/// What a simple type is lowered to: a record of one unnamed field of the
/// base type.
pub open spec fn newtype_text(name: (Seq<char>, Seq<char>), t: SimpleTypeView) -> Seq<char> {
    doc_attr_text(type_doc_text(name))
        + DERIVES@
        + "pub struct "@
        + camel(name.1)
        + "(pub "@
        + simple_text(t)
        + ");\n"@
        + "impl savon::gen::ToElements for "@
        + camel(name.1)
        + " {\n"@
        + TO_ELEMENTS@
        + "vec![]\n"@
        + "}\n"@
        + "}\n"@
        + "impl savon::gen::FromElement for "@
        + camel(name.1)
        + " {\n"@
        + FROM_ELEMENT@
        + "Ok("@
        + camel(name.1)
        + "("@
        + READ_OWN_TEXT@
        + "?))\n"@
        + "}\n"@
        + "}\n"@
}

fn gen_newtype(name: &QualifiedTypename, t: &SimpleType) -> (r: String)
    ensures
        r@ == newtype_text(name@, t@),
{
    let hint = type_doc(name);
    let doc = doc_attr(hint.as_str());
    let ty = to_camel(name.name());
    let base = gen_simple(t);
    doc
        .concat(DERIVES)
        .concat("pub struct ")
        .concat(ty.as_str())
        .concat("(pub ")
        .concat(base.as_str())
        .concat(");\n")
        .concat("impl savon::gen::ToElements for ")
        .concat(ty.as_str())
        .concat(" {\n")
        .concat(TO_ELEMENTS)
        .concat("vec![]\n")
        .concat("}\n")
        .concat("}\n")
        .concat("impl savon::gen::FromElement for ")
        .concat(ty.as_str())
        .concat(" {\n")
        .concat(FROM_ELEMENT)
        .concat("Ok(")
        .concat(ty.as_str())
        .concat("(")
        .concat(READ_OWN_TEXT)
        .concat("?))\n")
        .concat("}\n")
        .concat("}\n")
}

/// What a dataset type is lowered to: a record over the element type `T`
/// whose deserializer reads one `T` from each row of the dataset.
pub open spec fn dataset_text(name: (Seq<char>, Seq<char>)) -> Seq<char> {
    doc_attr_text(type_doc_text(name))
        + DERIVES@
        + "pub struct "@
        + camel(name.1)
        + "<T>(pub Vec<T>) where T: "@
        + BOUNDS@
        + ";\n"@
        + "impl<T> savon::gen::ToElements for "@
        + camel(name.1)
        + "<T> where T: "@
        + BOUNDS@
        + " {\n"@
        + TO_ELEMENTS@
        + "vec![]\n"@
        + "}\n"@
        + "}\n"@
        + "impl<T> savon::gen::FromElement for "@
        + camel(name.1)
        + "<T> where T: "@
        + BOUNDS@
        + " {\n"@
        + FROM_ELEMENT@
        + "Ok("@
        + camel(name.1)
        + "(savon::gen::from_template(element)?))\n"@
        + "}\n"@
        + "}\n"@
}

fn gen_dataset(name: &QualifiedTypename) -> (r: String)
    ensures
        r@ == dataset_text(name@),
{
    let hint = type_doc(name);
    let doc = doc_attr(hint.as_str());
    let ty = to_camel(name.name());
    doc
        .concat(DERIVES)
        .concat("pub struct ")
        .concat(ty.as_str())
        .concat("<T>(pub Vec<T>) where T: ")
        .concat(BOUNDS)
        .concat(";\n")
        .concat("impl<T> savon::gen::ToElements for ")
        .concat(ty.as_str())
        .concat("<T> where T: ")
        .concat(BOUNDS)
        .concat(" {\n")
        .concat(TO_ELEMENTS)
        .concat("vec![]\n")
        .concat("}\n")
        .concat("}\n")
        .concat("impl<T> savon::gen::FromElement for ")
        .concat(ty.as_str())
        .concat("<T> where T: ")
        .concat(BOUNDS)
        .concat(" {\n")
        .concat(FROM_ELEMENT)
        .concat("Ok(")
        .concat(ty.as_str())
        .concat("(savon::gen::from_template(element)?))\n")
        .concat("}\n")
        .concat("}\n")
}

/// `r` is the outcome `s`, a text standing for its characters.
pub open spec fn yields(r: Result<String, GenError>, s: Result<Seq<char>, GenError>) -> bool {
    match r {
        Ok(text) => s == Ok::<Seq<char>, GenError>(text@),
        Err(e) => s == Err::<Seq<char>, GenError>(e),
    }
}

/// The declarations that the entry `name` of the type map is lowered to.
/// Imports and enumerations are not lowered.
pub open spec fn type_text(name: (Seq<char>, Seq<char>), t: TypeView) -> Result<Seq<char>, GenError> {
    match t {
        TypeView::Complex(fields) => Ok(record_text(name, fields)),
        TypeView::Simple(s) => Ok(newtype_text(name, s)),
        TypeView::Template => Ok(dataset_text(name)),
        TypeView::Import(_) => Err(GenError::UnsupportedType),
        TypeView::Enum(_) => Err(GenError::UnsupportedType),
    }
}

/// Lowers one entry of the type map.
pub fn gen_type(name: &QualifiedTypename, t: &Type) -> (r: Result<String, GenError>)
    ensures
        yields(r, type_text(name@, t@)),
{
    match t {
        Type::Complex(c) => Ok(gen_record(name, c)),
        Type::Simple(s) => Ok(gen_newtype(name, s)),
        Type::Template => Ok(gen_dataset(name)),
        Type::Import(_) => Err(GenError::UnsupportedType),
        Type::Enum(_) => Err(GenError::UnsupportedType),
    }
}

/// Whether an entry among `types[i..]` with the local name `local` is a
/// dataset type.
pub open spec fn has_dataset(types: TypesView, local: Seq<char>, i: int) -> bool
    decreases types.len() - i,
{
    if i < 0 || i >= types.len() {
        false
    } else if types[i].0.1 == local && types[i].1 is Template {
        true
    } else {
        has_dataset(types, local, i + 1)
    }
}

fn is_dataset(types: &OrderedMap<QualifiedTypename, Type>, local: &str) -> (r: bool)
    ensures
        r == has_dataset(types@, local@, 0),
{
    let n = types.len();
    let mut i: usize = 0;
    while i < n
        invariant
            i <= n,
            n == types@.len(),
            has_dataset(types@, local@, 0) == has_dataset(types@, local@, i as int),
        decreases n - i,
    {
        if str_eq(types.key_at(i).name(), local) {
            match types.value_at(i) {
                Type::Template => {
                    return true;
                },
                _ => {},
            }
        }
        i += 1;
    }
    false
}

/// Whether the message `message` carries a dataset type, and its wrapper
/// so takes the element type as a parameter.
pub open spec fn is_generic(types: TypesView, messages: MessagesView, message: Seq<char>) -> bool {
    match lookup(messages, message) {
        Some(m) => has_dataset(types, m.part_element, 0),
        None => false,
    }
}

fn message_is_generic(wsdl: &Wsdl, message: &String) -> (r: bool)
    ensures
        r == is_generic(wsdl@.types, wsdl@.messages, message@),
{
    match wsdl.messages.get(message) {
        Some(m) => is_dataset(&wsdl.types, m.part_element.as_str()),
        None => false,
    }
}

/// The wrapper of a message that carries an ordinary type.
pub open spec fn message_plain_text(name: Seq<char>, m: MessageView) -> Seq<char> {
    DERIVES@
        + "pub struct "@
        + camel(name)
        + "(pub "@
        + camel(m.part_element)
        + ");\n"@
        + "impl savon::gen::ToElements for "@
        + camel(name)
        + " {\n"@
        + TO_ELEMENTS@
        + "self.0.to_elements()\n"@
        + "}\n"@
        + "}\n"@
        + "impl savon::gen::FromElement for "@
        + camel(name)
        + " {\n"@
        + FROM_ELEMENT@
        + camel(m.part_element)
        + "::from_element(element).map("@
        + camel(name)
        + ")\n"@
        + "}\n"@
        + "}\n"@
}

/// The wrapper of a message that carries a dataset type.
pub open spec fn message_generic_text(name: Seq<char>, m: MessageView) -> Seq<char> {
    DERIVES@
        + "pub struct "@
        + camel(name)
        + "<T>(pub "@
        + camel(m.part_element)
        + "<T>) where T: "@
        + BOUNDS@
        + ";\n"@
        + "impl<T> savon::gen::ToElements for "@
        + camel(name)
        + "<T> where T: "@
        + BOUNDS@
        + " {\n"@
        + TO_ELEMENTS@
        + "self.0.to_elements()\n"@
        + "}\n"@
        + "}\n"@
        + "impl<T> savon::gen::FromElement for "@
        + camel(name)
        + "<T> where T: "@
        + BOUNDS@
        + " {\n"@
        + FROM_ELEMENT@
        + camel(m.part_element)
        + "::from_element(element).map("@
        + camel(name)
        + ")\n"@
        + "}\n"@
        + "}\n"@
}

/// What the message `name` is lowered to: a wrapper around the type of its
/// element that hands serializing and deserializing on to it.
pub open spec fn message_text(types: TypesView, name: Seq<char>, m: MessageView) -> Seq<char> {
    if has_dataset(types, m.part_element, 0) {
        message_generic_text(name, m)
    } else {
        message_plain_text(name, m)
    }
}

fn gen_message(types: &OrderedMap<QualifiedTypename, Type>, name: &String, m: &Message) -> (r:
    String)
    ensures
        r@ == message_text(types@, name@, m@),
{
    let ty = to_camel(name.as_str());
    let inner = to_camel(m.part_element.as_str());
    if is_dataset(types, m.part_element.as_str()) {
        String::from_str(DERIVES)
            .concat("pub struct ")
            .concat(ty.as_str())
            .concat("<T>(pub ")
            .concat(inner.as_str())
            .concat("<T>) where T: ")
            .concat(BOUNDS)
            .concat(";\n")
            .concat("impl<T> savon::gen::ToElements for ")
            .concat(ty.as_str())
            .concat("<T> where T: ")
            .concat(BOUNDS)
            .concat(" {\n")
            .concat(TO_ELEMENTS)
            .concat("self.0.to_elements()\n")
            .concat("}\n")
            .concat("}\n")
            .concat("impl<T> savon::gen::FromElement for ")
            .concat(ty.as_str())
            .concat("<T> where T: ")
            .concat(BOUNDS)
            .concat(" {\n")
            .concat(FROM_ELEMENT)
            .concat(inner.as_str())
            .concat("::from_element(element).map(")
            .concat(ty.as_str())
            .concat(")\n")
            .concat("}\n")
            .concat("}\n")
    } else {
        String::from_str(DERIVES)
            .concat("pub struct ")
            .concat(ty.as_str())
            .concat("(pub ")
            .concat(inner.as_str())
            .concat(");\n")
            .concat("impl savon::gen::ToElements for ")
            .concat(ty.as_str())
            .concat(" {\n")
            .concat(TO_ELEMENTS)
            .concat("self.0.to_elements()\n")
            .concat("}\n")
            .concat("}\n")
            .concat("impl savon::gen::FromElement for ")
            .concat(ty.as_str())
            .concat(" {\n")
            .concat(FROM_ELEMENT)
            .concat(inner.as_str())
            .concat("::from_element(element).map(")
            .concat(ty.as_str())
            .concat(")\n")
            .concat("}\n")
            .concat("}\n")
    }
}

/// The type parameters of a call: `I` where the input is a dataset, `O`
/// where the output is one.
pub open spec fn generics_text(generic_in: bool, generic_out: bool) -> Seq<char> {
    if generic_in && generic_out {
        "<I, O>"@
    } else if generic_in {
        "<I>"@
    } else if generic_out {
        "<O>"@
    } else {
        ""@
    }
}

fn generics(generic_in: bool, generic_out: bool) -> (r: &'static str)
    ensures
        r@ == generics_text(generic_in, generic_out),
{
    if generic_in && generic_out {
        "<I, O>"
    } else if generic_in {
        "<I>"
    } else if generic_out {
        "<O>"
    } else {
        ""
    }
}

/// The bounds on the type parameters of a call.
pub open spec fn bounds_text(generic_in: bool, generic_out: bool) -> Seq<char> {
    if generic_in && generic_out {
        " where I: "@
            + BOUNDS@
            + ", O: "@
            + BOUNDS@
    } else if generic_in {
        " where I: "@
            + BOUNDS@
    } else if generic_out {
        " where O: "@
            + BOUNDS@
    } else {
        ""@
    }
}

fn bounds_of(generic_in: bool, generic_out: bool) -> (r: String)
    ensures
        r@ == bounds_text(generic_in, generic_out),
{
    if generic_in && generic_out {
        String::from_str(" where I: ")
            .concat(BOUNDS)
            .concat(", O: ")
            .concat(BOUNDS)
    } else if generic_in {
        String::from_str(" where I: ")
            .concat(BOUNDS)
    } else if generic_out {
        String::from_str(" where O: ")
            .concat(BOUNDS)
    } else {
        String::from_str("")
    }
}

/// The type argument `param` behind a generic message type; nothing behind
/// an ordinary one.
pub open spec fn type_args_text(generic: bool, param: Seq<char>) -> Seq<char> {
    if generic {
        "::<"@
            + param
            + ">"@
    } else {
        ""@
    }
}

fn type_args(generic: bool, param: &str) -> (r: String)
    ensures
        r@ == type_args_text(generic, param@),
{
    if generic {
        String::from_str("::<")
            .concat(param)
            .concat(">")
    } else {
        String::from_str("")
    }
}

/// A call that sends the input and reads no answer.
pub open spec fn one_way_text(ns: Seq<char>, name: Seq<char>, input: Seq<char>) -> Seq<char> {
    "pub async fn "@
        + snake(name)
        + "(&self, "@
        + snake(input)
        + ": "@
        + camel(input)
        + ") -> Result<(), savon::Error> {\n"@
        + "savon::http::one_way(&self.client, &self.base_url, "@
        + string_literal(ns)
        + ", "@
        + string_literal(name)
        + ", &"@
        + snake(input)
        + ").await\n"@
        + "}\n"@
}

/// A call that sends the input and reads the output.
pub open spec fn request_text(
    ns: Seq<char>,
    name: Seq<char>,
    input: Seq<char>,
    output: Seq<char>,
    generic_in: bool,
    generic_out: bool,
) -> Seq<char> {
    "pub async fn "@
        + snake(name)
        + generics_text(generic_in, generic_out)
        + "(&mut self, "@
        + snake(input)
        + ": "@
        + camel(input)
        + type_args_text(generic_in, "I"@)
        + ") -> Result<Result<"@
        + camel(output)
        + type_args_text(generic_out, "O"@)
        + ", ()>, savon::Error>"@
        + bounds_text(generic_in, generic_out)
        + " {\n"@
        + "savon::http::request_response(&self.client, &self.base_url, &mut self.cookie, "@
        + string_literal(ns)
        + ", "@
        + string_literal(name)
        + ", &"@
        + snake(input)
        + ").await\n"@
        + "}\n"@
}

/// A call whose answer is the output or one of the declared faults. Its
/// body is not implemented and says so when it runs.
pub open spec fn faulted_text(name: Seq<char>, input: Seq<char>, output: Seq<char>) -> Seq<char> {
    "pub async fn "@
        + snake(name)
        + "(&self, "@
        + snake("_"@ + input)
        + ": "@
        + camel(input)
        + ") -> Result<Result<"@
        + camel(output)
        + ", "@
        + camel(name)
        + "Error>, savon::Error> {\n"@
        + "unimplemented!()\n"@
        + "}\n"@
}

/// The method that the operation `name` is lowered to. An operation
/// without an input is an error. One with faults and without an output
/// has no method.
pub open spec fn method_of(
    ns: Seq<char>,
    types: TypesView,
    messages: MessagesView,
    name: Seq<char>,
    op: OperationView,
) -> Result<Option<Seq<char>>, GenError> {
    match op.input {
        None => Err(GenError::OperationFieldRequired),
        Some(input) => match op.output {
            None => if op.faults is None {
                Ok(Some(one_way_text(ns, name, input)))
            } else {
                Ok(None)
            },
            Some(output) => if op.faults is None {
                Ok(
                    Some(
                        request_text(
                            ns,
                            name,
                            input,
                            output,
                            is_generic(types, messages, input),
                            is_generic(types, messages, output),
                        ),
                    ),
                )
            } else {
                Ok(Some(faulted_text(name, input, output)))
            },
        },
    }
}

/// An operation that declares faults and no output is lowered to no
/// method.
pub proof fn lemma_faults_without_output(
    ns: Seq<char>,
    types: TypesView,
    messages: MessagesView,
    name: Seq<char>,
    op: OperationView,
)
    requires
        op.input is Some,
        op.output is None,
        op.faults is Some,
    ensures
        method_of(ns, types, messages, name, op) == Ok::<Option<Seq<char>>, GenError>(None),
{
}

/// Lowers one operation of the service `wsdl` to its method, if it has one.
pub fn gen_operation(wsdl: &Wsdl, name: &String, op: &Operation) -> (r: Result<
    Option<String>,
    GenError,
>)
    ensures
        match r {
            Ok(Some(text)) => method_of(
                wsdl@.target_namespace,
                wsdl@.types,
                wsdl@.messages,
                name@,
                op@,
            ) == Ok::<Option<Seq<char>>, GenError>(Some(text@)),
            Ok(None) => method_of(
                wsdl@.target_namespace,
                wsdl@.types,
                wsdl@.messages,
                name@,
                op@,
            ) == Ok::<Option<Seq<char>>, GenError>(None),
            Err(e) => method_of(
                wsdl@.target_namespace,
                wsdl@.types,
                wsdl@.messages,
                name@,
                op@,
            ) == Err::<Option<Seq<char>>, GenError>(e),
        },
{
    let input = match &op.input {
        Some(i) => i,
        None => {
            return Err(GenError::OperationFieldRequired);
        },
    };
    let method = to_snake(name);
    let arg_ty = to_camel(input.as_str());
    match &op.output {
        None => {
            if op.faults.is_none() {
                let arg = to_snake(input);
                let ns_lit = literal(wsdl.target_namespace.as_str());
                let name_lit = literal(name.as_str());
                let text = String::from_str("pub async fn ")
                    .concat(method.as_str())
                    .concat("(&self, ")
                    .concat(arg.as_str())
                    .concat(": ")
                    .concat(arg_ty.as_str())
                    .concat(") -> Result<(), savon::Error> {\n")
                    .concat("savon::http::one_way(&self.client, &self.base_url, ")
                    .concat(ns_lit.as_str())
                    .concat(", ")
                    .concat(name_lit.as_str())
                    .concat(", &")
                    .concat(arg.as_str())
                    .concat(").await\n")
                    .concat("}\n");
                Ok(Some(text))
            } else {
                Ok(None)
            }
        },
        Some(output) => {
            let out_ty = to_camel(output.as_str());
            if op.faults.is_none() {
                let arg = to_snake(input);
                let ns_lit = literal(wsdl.target_namespace.as_str());
                let name_lit = literal(name.as_str());
                let generic_in = message_is_generic(wsdl, input);
                let generic_out = message_is_generic(wsdl, output);
                let generics = generics(generic_in, generic_out);
                let bounds = bounds_of(generic_in, generic_out);
                let in_args = type_args(generic_in, "I");
                let out_args = type_args(generic_out, "O");
                let text = String::from_str("pub async fn ")
                    .concat(method.as_str())
                    .concat(generics)
                    .concat("(&mut self, ")
                    .concat(arg.as_str())
                    .concat(": ")
                    .concat(arg_ty.as_str())
                    .concat(in_args.as_str())
                    .concat(") -> Result<Result<")
                    .concat(out_ty.as_str())
                    .concat(out_args.as_str())
                    .concat(", ()>, savon::Error>")
                    .concat(bounds.as_str())
                    .concat(" {\n")
                    .concat("savon::http::request_response(&self.client, &self.base_url, &mut self.cookie, ")
                    .concat(ns_lit.as_str())
                    .concat(", ")
                    .concat(name_lit.as_str())
                    .concat(", &")
                    .concat(arg.as_str())
                    .concat(").await\n")
                    .concat("}\n");
                Ok(Some(text))
            } else {
                let hidden = String::from_str("_").concat(input.as_str());
                let arg = to_snake(&hidden);
                let err_ty = to_camel(name.as_str());
                let text = String::from_str("pub async fn ")
                    .concat(method.as_str())
                    .concat("(&self, ")
                    .concat(arg.as_str())
                    .concat(": ")
                    .concat(arg_ty.as_str())
                    .concat(") -> Result<Result<")
                    .concat(out_ty.as_str())
                    .concat(", ")
                    .concat(err_ty.as_str())
                    .concat("Error>, savon::Error> {\n")
                    .concat("unimplemented!()\n")
                    .concat("}\n");
                Ok(Some(text))
            }
        },
    }
}

/// One variant for each of the first `n` faults, named as the fault's
/// type.
pub open spec fn variants_text(faults: Seq<Seq<char>>, n: nat) -> Seq<char>
    decreases n,
{
    if n == 0 {
        Seq::empty()
    } else {
        let fault = faults[n - 1];
        variants_text(faults, (n - 1) as nat) + (camel(fault)
            + "("@
            + camel(fault)
            + "),\n"@)
    }
}

/// The union of the faults that the operation `name` declares.
pub open spec fn fault_enum_text(name: Seq<char>, faults: Seq<Seq<char>>) -> Seq<char> {
    "#[derive(Clone, Debug, PartialEq)]\n"@
        + "pub enum "@
        + camel(name)
        + "Error {\n"@
        + variants_text(faults, faults.len())
        + "}\n"@
}

fn gen_fault_enum(name: &String, faults: &Vec<String>) -> (r: String)
    ensures
        r@ == fault_enum_text(name@, strings(faults@)),
{
    let mut variants = String::new();
    let mut i: usize = 0;
    while i < faults.len()
        invariant
            i <= faults.len(),
            variants@ == variants_text(strings(faults@), i as nat),
        decreases faults.len() - i,
    {
        let ty = to_camel(faults[i].as_str());
        let variant = String::from_str(ty.as_str())
            .concat("(")
            .concat(ty.as_str())
            .concat("),\n");
        variants.append(variant.as_str());
        i += 1;
    }
    let ty = to_camel(name.as_str());
    String::from_str("#[derive(Clone, Debug, PartialEq)]\n")
        .concat("pub enum ")
        .concat(ty.as_str())
        .concat("Error {\n")
        .concat(variants.as_str())
        .concat("}\n")
}

/// The declarations of a generated client, by kind.
#[derive(Debug)]
pub struct SourceArtifact {
    /// The name of the service.
    pub service: String,
    /// What each entry of the type map is lowered to, in the map's order.
    pub types: Vec<String>,
    /// The wrapper of each message, in the order of the messages.
    pub messages: Vec<String>,
    /// The method of each operation that has one, in the order of the
    /// operations.
    pub methods: Vec<String>,
    /// The fault union of each operation that declares faults.
    pub faults: Vec<String>,
}

/// A `SourceArtifact` with its texts as character sequences.
pub struct SourceView {
    pub service: Seq<char>,
    pub types: Seq<Seq<char>>,
    pub messages: Seq<Seq<char>>,
    pub methods: Seq<Seq<char>>,
    pub faults: Seq<Seq<char>>,
}

impl View for SourceArtifact {
    type V = SourceView;

    open spec fn view(&self) -> SourceView {
        SourceView {
            service: self.service@,
            types: strings(self.types@),
            messages: strings(self.messages@),
            methods: strings(self.methods@),
            faults: strings(self.faults@),
        }
    }
}

/// The texts `acc` and after them what the entries `types[i..]` are
/// lowered to; the first entry that cannot be lowered decides the error.
pub open spec fn type_texts_from(types: TypesView, acc: Seq<Seq<char>>, i: int) -> Result<
    Seq<Seq<char>>,
    GenError,
>
    decreases types.len() - i,
{
    if i < 0 || i >= types.len() {
        Ok(acc)
    } else {
        match type_text(types[i].0, types[i].1) {
            Err(e) => Err(e),
            Ok(text) => type_texts_from(types, acc.push(text), i + 1),
        }
    }
}

/// The texts `acc` and after them the methods of the operations
/// `w.operations[i..]`; the first operation without an input decides the
/// error.
pub open spec fn method_texts_from(w: WsdlView, acc: Seq<Seq<char>>, i: int) -> Result<
    Seq<Seq<char>>,
    GenError,
>
    decreases w.operations.len() - i,
{
    if i < 0 || i >= w.operations.len() {
        Ok(acc)
    } else {
        match method_of(
            w.target_namespace,
            w.types,
            w.messages,
            w.operations[i].0,
            w.operations[i].1,
        ) {
            Err(e) => Err(e),
            Ok(None) => method_texts_from(w, acc, i + 1),
            Ok(Some(text)) => method_texts_from(w, acc.push(text), i + 1),
        }
    }
}

/// The wrappers of the first `n` messages.
pub open spec fn message_texts(w: WsdlView, n: nat) -> Seq<Seq<char>>
    decreases n,
{
    if n == 0 {
        Seq::empty()
    } else {
        message_texts(w, (n - 1) as nat).push(
            message_text(w.types, w.messages[n - 1].0, w.messages[n - 1].1),
        )
    }
}

/// The fault unions of those of the first `n` operations that declare
/// faults.
pub open spec fn fault_texts(w: WsdlView, n: nat) -> Seq<Seq<char>>
    decreases n,
{
    if n == 0 {
        Seq::empty()
    } else {
        match w.operations[n - 1].1.faults {
            Some(faults) => fault_texts(w, (n - 1) as nat).push(
                fault_enum_text(w.operations[n - 1].0, faults),
            ),
            None => fault_texts(w, (n - 1) as nat),
        }
    }
}

/// What the service `w` is lowered to, or why it cannot be: an operation
/// without an input, or else a type that is an import or an enumeration.
pub open spec fn source_of(w: WsdlView) -> Result<SourceView, GenError> {
    match method_texts_from(w, Seq::empty(), 0) {
        Err(e) => Err(e),
        Ok(methods) => match type_texts_from(w.types, Seq::empty(), 0) {
            Err(e) => Err(e),
            Ok(types) => Ok(
                SourceView {
                    service: w.name,
                    types,
                    messages: message_texts(w, w.messages.len()),
                    methods,
                    faults: fault_texts(w, w.operations.len()),
                },
            ),
        },
    }
}

fn gen_methods(wsdl: &Wsdl) -> (r: Result<Vec<String>, GenError>)
    ensures
        match r {
            Ok(v) => method_texts_from(wsdl@, Seq::empty(), 0) == Ok::<Seq<Seq<char>>, GenError>(
                strings(v@),
            ),
            Err(e) => method_texts_from(wsdl@, Seq::empty(), 0) == Err::<Seq<Seq<char>>, GenError>(
                e,
            ),
        },
{
    let mut methods: Vec<String> = Vec::new();
    let n = wsdl.operations.len();
    let mut i: usize = 0;
    assert(strings(methods@) =~= Seq::empty());
    while i < n
        invariant
            i <= n,
            n == wsdl@.operations.len(),
            method_texts_from(wsdl@, Seq::empty(), 0) == method_texts_from(
                wsdl@,
                strings(methods@),
                i as int,
            ),
        decreases n - i,
    {
        match gen_operation(wsdl, wsdl.operations.key_at(i), wsdl.operations.value_at(i)) {
            Err(e) => {
                return Err(e);
            },
            Ok(None) => {},
            Ok(Some(text)) => {
                let ghost before = strings(methods@);
                methods.push(text);
                assert(strings(methods@) =~= before.push(text@));
            },
        }
        i += 1;
    }
    Ok(methods)
}

fn gen_types(wsdl: &Wsdl) -> (r: Result<Vec<String>, GenError>)
    ensures
        match r {
            Ok(v) => type_texts_from(wsdl@.types, Seq::empty(), 0) == Ok::<
                Seq<Seq<char>>,
                GenError,
            >(strings(v@)),
            Err(e) => type_texts_from(wsdl@.types, Seq::empty(), 0) == Err::<
                Seq<Seq<char>>,
                GenError,
            >(e),
        },
{
    let mut types: Vec<String> = Vec::new();
    let n = wsdl.types.len();
    let mut i: usize = 0;
    assert(strings(types@) =~= Seq::empty());
    while i < n
        invariant
            i <= n,
            n == wsdl@.types.len(),
            type_texts_from(wsdl@.types, Seq::empty(), 0) == type_texts_from(
                wsdl@.types,
                strings(types@),
                i as int,
            ),
        decreases n - i,
    {
        match gen_type(wsdl.types.key_at(i), wsdl.types.value_at(i)) {
            Err(e) => {
                return Err(e);
            },
            Ok(text) => {
                let ghost before = strings(types@);
                types.push(text);
                assert(strings(types@) =~= before.push(text@));
            },
        }
        i += 1;
    }
    Ok(types)
}

fn gen_messages(wsdl: &Wsdl) -> (r: Vec<String>)
    ensures
        strings(r@) == message_texts(wsdl@, wsdl@.messages.len()),
{
    let mut messages: Vec<String> = Vec::new();
    let n = wsdl.messages.len();
    let mut i: usize = 0;
    assert(strings(messages@) =~= Seq::empty());
    while i < n
        invariant
            i <= n,
            n == wsdl@.messages.len(),
            strings(messages@) == message_texts(wsdl@, i as nat),
        decreases n - i,
    {
        let text = gen_message(&wsdl.types, wsdl.messages.key_at(i), wsdl.messages.value_at(i));
        let ghost before = strings(messages@);
        messages.push(text);
        assert(strings(messages@) =~= before.push(text@));
        i += 1;
    }
    messages
}

fn gen_faults(wsdl: &Wsdl) -> (r: Vec<String>)
    ensures
        strings(r@) == fault_texts(wsdl@, wsdl@.operations.len()),
{
    let mut faults: Vec<String> = Vec::new();
    let n = wsdl.operations.len();
    let mut i: usize = 0;
    assert(strings(faults@) =~= Seq::empty());
    while i < n
        invariant
            i <= n,
            n == wsdl@.operations.len(),
            strings(faults@) == fault_texts(wsdl@, i as nat),
        decreases n - i,
    {
        let op = wsdl.operations.value_at(i);
        match &op.faults {
            Some(declared) => {
                let text = gen_fault_enum(wsdl.operations.key_at(i), declared);
                let ghost before = strings(faults@);
                faults.push(text);
                assert(strings(faults@) =~= before.push(text@));
            },
            None => {},
        }
        i += 1;
    }
    faults
}

/// Lowers a service description to the declarations of its client.
///
/// Nothing is produced for a description that holds an operation without
/// an input, or a type that is an import or an enumeration.
pub fn gen(wsdl: &Wsdl) -> (r: Result<SourceArtifact, GenError>)
    ensures
        match r {
            Ok(artifact) => source_of(wsdl@) == Ok::<SourceView, GenError>(artifact@),
            Err(e) => source_of(wsdl@) == Err::<SourceView, GenError>(e),
        },
{
    let methods = match gen_methods(wsdl) {
        Ok(m) => m,
        Err(e) => {
            return Err(e);
        },
    };
    let types = match gen_types(wsdl) {
        Ok(t) => t,
        Err(e) => {
            return Err(e);
        },
    };
    let messages = gen_messages(wsdl);
    let faults = gen_faults(wsdl);
    Ok(SourceArtifact { service: wsdl.name.clone(), types, messages, methods, faults })
}

/// The first `n` of `parts`, one after the other.
pub open spec fn joined(parts: Seq<Seq<char>>, n: nat) -> Seq<char>
    decreases n,
{
    if n == 0 {
        Seq::empty()
    } else {
        joined(parts, (n - 1) as nat) + parts[n - 1]
    }
}

fn join(parts: &Vec<String>) -> (r: String)
    ensures
        r@ == joined(strings(parts@), parts@.len()),
{
    let mut text = String::new();
    let mut i: usize = 0;
    while i < parts.len()
        invariant
            i <= parts.len(),
            text@ == joined(strings(parts@), i as nat),
        decreases parts.len() - i,
    {
        text.append(parts[i].as_str());
        i += 1;
    }
    text
}

/// The declaration of the client: the base URL, the slot of the session
/// cookie and the HTTP client.
pub open spec fn service_struct_text(service: Seq<char>) -> Seq<char> {
    "pub struct "@
        + service
        + " {\n"@
        + "pub base_url: String,\n"@
        + "pub cookie: Option<String>,\n"@
        + "pub client: savon::internal::reqwest::Client,\n"@
        + "}\n"@
}

/// The head of the client's methods: its two constructors.
pub open spec fn service_head_text(service: Seq<char>) -> Seq<char> {
    "#[allow(dead_code)]\n"@
        + "impl "@
        + service
        + " {\n"@
        + "pub fn new(base_url: String) -> Self {\n"@
        + "Self::with_client(base_url, savon::internal::reqwest::Client::new())\n"@
        + "}\n"@
        + "pub fn with_client(base_url: String, client: savon::internal::reqwest::Client) -> Self {\n"@
        + service
        + " {\n"@
        + "base_url,\n"@
        + "cookie: None,\n"@
        + "client,\n"@
        + "}\n"@
        + "}\n"@
}

/// The source text of a client: the imports, the types, the client, the
/// message wrappers, the client's constructors and methods, and the fault
/// unions.
pub open spec fn source_text(s: SourceView) -> Seq<char> {
    PREAMBLE@
        + joined(s.types, s.types.len())
        + service_struct_text(s.service)
        + joined(s.messages, s.messages.len())
        + service_head_text(s.service)
        + joined(s.methods, s.methods.len())
        + "}\n"@
        + joined(s.faults, s.faults.len())
}

impl SourceArtifact {
    /// The declarations as one source text.
    pub fn to_source(&self) -> (r: String)
        ensures
            r@ == source_text(self@),
    {
        let service = self.service.as_str();
        let types = join(&self.types);
        let decl = String::from_str("pub struct ")
            .concat(service)
            .concat(" {\n")
            .concat("pub base_url: String,\n")
            .concat("pub cookie: Option<String>,\n")
            .concat("pub client: savon::internal::reqwest::Client,\n")
            .concat("}\n");
        let messages = join(&self.messages);
        let head = String::from_str("#[allow(dead_code)]\n")
            .concat("impl ")
            .concat(service)
            .concat(" {\n")
            .concat("pub fn new(base_url: String) -> Self {\n")
            .concat("Self::with_client(base_url, savon::internal::reqwest::Client::new())\n")
            .concat("}\n")
            .concat("pub fn with_client(base_url: String, client: savon::internal::reqwest::Client) -> Self {\n")
            .concat(service)
            .concat(" {\n")
            .concat("base_url,\n")
            .concat("cookie: None,\n")
            .concat("client,\n")
            .concat("}\n")
            .concat("}\n");
        let methods = join(&self.methods);
        let faults = join(&self.faults);
        String::from_str(PREAMBLE)
            .concat(types.as_str())
            .concat(decl.as_str())
            .concat(messages.as_str())
            .concat(head.as_str())
            .concat(methods.as_str())
            .concat("}\n")
            .concat(faults.as_str())
    }
}

/// A field that states bounds of exactly one and is not nillable is
/// declared, written and read as a field that states nothing.
pub proof fn lemma_exactly_one_same_field(name: Seq<char>, t: SimpleTypeView)
    ensures
        ({
            let one = normalized(
                TypeAttribute {
                    nillable: false,
                    min_occurs: Some(Occurence::Num(1)),
                    max_occurs: Some(Occurence::Num(1)),
                },
            );
            let none = normalized(
                TypeAttribute { nillable: false, min_occurs: None, max_occurs: None },
            );
            &&& field_decl_text(name, one, t) == field_decl_text(name, none, t)
            &&& field_serialize_text(name, one, t) == field_serialize_text(name, none, t)
            &&& field_init_text(name, one, t) == field_init_text(name, none, t)
        }),
{
}

/// The source text that the document with the root element `root` is
/// lowered to, or the error that reading or lowering it meets.
pub open spec fn generated(root: XmlElement) -> Result<Seq<char>, Error> {
    match wsdl_of(root) {
        Err(e) => Err(Error::Wsdl(e)),
        Ok(w) => match source_of(w) {
            Err(e) => Err(Error::Gen(e)),
            Ok(s) => Ok(source_text(s)),
        },
    }
}

/// Reads a service description and lowers it to the source text of its
/// client.
pub fn generate(bytes: &[u8]) -> (r: Result<String, Error>)
    ensures
        match document_tree(bytes@) {
            None => r matches Err(Error::Wsdl(WsdlError::Parse(_))),
            Some(root) => match r {
                Ok(text) => generated(root) == Ok::<Seq<char>, Error>(text@),
                Err(e) => generated(root) == Err::<Seq<char>, Error>(e),
            },
        },
{
    let wsdl = match parse(bytes) {
        Ok(w) => w,
        Err(e) => {
            return Err(Error::Wsdl(e));
        },
    };
    match gen(&wsdl) {
        Ok(artifact) => Ok(artifact.to_source()),
        Err(e) => Err(Error::Gen(e)),
    }
}


} // verus!
