//! The type model of a service description, and the parser that builds it.

use crate::error::Error;
use crate::ordered::{insert_entry, Key, Order, OrderedMap};
use crate::text::{
    chars_of, decimal_u32, find_char, index_of, lemma_lt_irreflexive, lemma_lt_total,
    lemma_lt_transitive, parse_u32, str_compare, str_eq, str_lt, string_of,
};
use crate::xml::{document_tree, first_element_from, read_document, XmlElement, XmlNode};
use vstd::string::{StrSliceExecFns, StringExecFns};
use vstd::prelude::*;

verus! {

/// Why a service description could not be read.
#[derive(Debug)]
pub enum WsdlError {
    /// The bytes are not a well-formed XML document.
    Parse(xmltree::ParseError),
    /// A required element is missing.
    ElementNotFound(&'static str),
    /// A required attribute is missing.
    AttributeNotFound(&'static str),
    /// A node that has to be an element is none.
    NotAnElement,
    /// An element that has to hold a child is empty.
    Empty,
    /// A schema construct that the parser does not handle.
    Unsupported(&'static str),
    /// An attribute whose value cannot be read.
    InvalidAttribute(&'static str),
}

/// A fully qualified type name: a namespace and a local name.
#[derive(Debug, Hash, Clone, PartialEq, Eq, PartialOrd, Ord)]
pub struct QualifiedTypename(String, String);

impl View for QualifiedTypename {
    type V = (Seq<char>, Seq<char>);

    closed spec fn view(&self) -> (Seq<char>, Seq<char>) {
        (self.0@, self.1@)
    }
}

/// A qualified name as text.
pub open spec fn qualified_text(q: (Seq<char>, Seq<char>)) -> Seq<char> {
    q.0 + ":"@ + q.1
}

/// The two parts of a name written as `namespace:name`: what stands before
/// the first colon, and what stands between it and the next colon or the
/// end. Nothing where `s` holds no colon.
pub open spec fn qualified_parts(s: Seq<char>) -> Option<(Seq<char>, Seq<char>)> {
    let i = index_of(s, ':');
    if i < s.len() {
        let rest = s.skip(i + 1);
        Some((s.take(i), rest.take(index_of(rest, ':'))))
    } else {
        None
    }
}

/// Names are ordered by namespace, and by local name within a namespace.
pub open spec fn name_lt(a: (Seq<char>, Seq<char>), b: (Seq<char>, Seq<char>)) -> bool {
    str_lt(a.0, b.0) || (a.0 == b.0 && str_lt(a.1, b.1))
}

impl Key for QualifiedTypename {
    open spec fn lt(a: (Seq<char>, Seq<char>), b: (Seq<char>, Seq<char>)) -> bool {
        name_lt(a, b)
    }

    proof fn lemma_irreflexive(a: (Seq<char>, Seq<char>)) {
        lemma_lt_irreflexive(a.0, 0);
        lemma_lt_irreflexive(a.1, 0);
    }

    proof fn lemma_transitive(
        a: (Seq<char>, Seq<char>),
        b: (Seq<char>, Seq<char>),
        c: (Seq<char>, Seq<char>),
    ) {
        if str_lt(a.0, b.0) && str_lt(b.0, c.0) {
            lemma_lt_transitive(a.0, b.0, c.0, 0);
        }
        if str_lt(a.1, b.1) && str_lt(b.1, c.1) {
            lemma_lt_transitive(a.1, b.1, c.1, 0);
        }
    }

    proof fn lemma_total(a: (Seq<char>, Seq<char>), b: (Seq<char>, Seq<char>)) {
        lemma_lt_total(a.0, b.0, 0);
        lemma_lt_total(a.1, b.1, 0);
        assert(a.0.skip(0) =~= a.0);
        assert(b.0.skip(0) =~= b.0);
        assert(a.1.skip(0) =~= a.1);
        assert(b.1.skip(0) =~= b.1);
    }

    fn compare(&self, other: &Self) -> (o: Order) {
        match str_compare(self.0.as_str(), other.0.as_str()) {
            Order::Less => Order::Less,
            Order::Greater => Order::Greater,
            Order::Equal => str_compare(self.1.as_str(), other.1.as_str()),
        }
    }
}

impl QualifiedTypename {
    /// The name `name` in the namespace `namespace`.
    pub fn new(namespace: String, name: String) -> (q: Self)
        ensures
            q@ == (namespace@, name@),
    {
        QualifiedTypename(namespace, name)
    }

    /// Reads a name written as `namespace:name`.
    pub fn from_str(s: &str) -> (r: Result<Self, Error>)
        ensures
            match r {
                Ok(q) => qualified_parts(s@) == Some(q@),
                Err(e) => qualified_parts(s@) is None && (e matches Error::StringError(m) && m@
                    == "invalid qualified name"@),
            },
    {
        let chars = chars_of(s);
        let i = find_char(&chars, ':');
        if i < chars.len() {
            let rest = string_of(&chars, i + 1, chars.len());
            let rest_chars = chars_of(rest.as_str());
            let j = find_char(&rest_chars, ':');
            Ok(QualifiedTypename(string_of(&chars, 0, i), string_of(&rest_chars, 0, j)))
        } else {
            Err(Error::StringError(String::from_str("invalid qualified name")))
        }
    }

    /// The namespace and the local name.
    pub fn as_tuple(&self) -> (r: (&str, &str))
        ensures
            r.0@ == self@.0,
            r.1@ == self@.1,
    {
        (self.0.as_str(), self.1.as_str())
    }

    /// The local name.
    pub fn name(&self) -> (r: &str)
        ensures
            r@ == self@.1,
    {
        self.1.as_str()
    }

    /// The namespace.
    pub fn namespace(&self) -> (r: &str)
        ensures
            r@ == self@.0,
    {
        self.0.as_str()
    }

    /// The name as text: the namespace, a colon, the local name.
    pub fn to_string(&self) -> (r: String)
        ensures
            r@ == qualified_text(self@),
    {
        String::from_str(self.0.as_str()).concat(":").concat(self.1.as_str())
    }

    /// A copy of the name.
    pub fn duplicate(&self) -> (q: Self)
        ensures
            q@ == self@,
    {
        QualifiedTypename(self.0.clone(), self.1.clone())
    }
}

/// The type of a field or of a simple type's base.
#[derive(Debug, Clone)]
pub enum SimpleType {
    Base64Binary,
    Boolean,
    String,
    Float,
    Int,
    Long,
    DateTime,
    Any,
    /// A reference to another entry of the type map, by its key.
    Complex(QualifiedTypename),
}

/// A `SimpleType` with its reference as character sequences.
pub enum SimpleTypeView {
    Base64Binary,
    Boolean,
    String,
    Float,
    Int,
    Long,
    DateTime,
    Any,
    Complex((Seq<char>, Seq<char>)),
}

impl View for SimpleType {
    type V = SimpleTypeView;

    open spec fn view(&self) -> SimpleTypeView {
        match self {
            SimpleType::Base64Binary => SimpleTypeView::Base64Binary,
            SimpleType::Boolean => SimpleTypeView::Boolean,
            SimpleType::String => SimpleTypeView::String,
            SimpleType::Float => SimpleTypeView::Float,
            SimpleType::Int => SimpleTypeView::Int,
            SimpleType::Long => SimpleTypeView::Long,
            SimpleType::DateTime => SimpleTypeView::DateTime,
            SimpleType::Any => SimpleTypeView::Any,
            SimpleType::Complex(q) => SimpleTypeView::Complex(q@),
        }
    }
}

/// A bound on how often a field occurs.
#[derive(Debug, Clone, Copy, PartialEq, Eq, Structural)]
pub enum Occurence {
    Unbounded,
    Num(u32),
}

/// What a schema says of a field besides its type.
#[derive(Debug, Clone, Copy, PartialEq, Eq)]
pub struct TypeAttribute {
    pub nillable: bool,
    pub min_occurs: Option<Occurence>,
    pub max_occurs: Option<Occurence>,
}

impl View for TypeAttribute {
    type V = TypeAttribute;

    open spec fn view(&self) -> TypeAttribute {
        *self
    }
}

impl Default for TypeAttribute {
    fn default() -> (a: Self)
        ensures
            a == (TypeAttribute { nillable: false, min_occurs: None, max_occurs: None }),
    {
        TypeAttribute { nillable: false, min_occurs: None, max_occurs: None }
    }
}

/// The attributes that stand for `a` in the model. Bounds of exactly one
/// are dropped; bounds of none to one become `nillable`; a nillable field
/// that repeats without bound is a plain list.
pub open spec fn normalized(a: TypeAttribute) -> TypeAttribute {
    if !a.nillable && a.min_occurs == Some(Occurence::Num(1)) && a.max_occurs == Some(
        Occurence::Num(1),
    ) {
        TypeAttribute { nillable: false, min_occurs: None, max_occurs: None }
    } else if !a.nillable && a.min_occurs == Some(Occurence::Num(0)) && a.max_occurs == Some(
        Occurence::Num(1),
    ) {
        TypeAttribute { nillable: true, min_occurs: None, max_occurs: None }
    } else if a.nillable && (a.min_occurs == Some(Occurence::Num(0)) || a.min_occurs == Some(
        Occurence::Num(1),
    )) && a.max_occurs == Some(Occurence::Unbounded) {
        TypeAttribute {
            nillable: false,
            min_occurs: Some(Occurence::Num(0)),
            max_occurs: Some(Occurence::Unbounded),
        }
    } else {
        a
    }
}

/// Normalizing twice gives what normalizing once gives.
pub proof fn lemma_normalized_idempotent(a: TypeAttribute)
    ensures
        normalized(normalized(a)) == normalized(a),
{
}

/// A field that states bounds of exactly one and is not nillable stands in
/// the model as a field that states nothing.
pub proof fn lemma_normalized_exactly_one()
    ensures
        normalized(
            TypeAttribute {
                nillable: false,
                min_occurs: Some(Occurence::Num(1)),
                max_occurs: Some(Occurence::Num(1)),
            },
        ) == normalized(TypeAttribute { nillable: false, min_occurs: None, max_occurs: None }),
{
}

impl TypeAttribute {
    /// Removes redundant combinations of `nillable` and the two bounds.
    pub fn normalize(self) -> (r: TypeAttribute)
        ensures
            r == normalized(self),
    {
        match (self.nillable, self.min_occurs, self.max_occurs) {
            (false, Some(Occurence::Num(1)), Some(Occurence::Num(1))) => TypeAttribute {
                nillable: false,
                min_occurs: None,
                max_occurs: None,
            },
            (false, Some(Occurence::Num(0)), Some(Occurence::Num(1))) => TypeAttribute {
                nillable: true,
                min_occurs: None,
                max_occurs: None,
            },
            (true, Some(Occurence::Num(0)), Some(Occurence::Unbounded)) => TypeAttribute {
                nillable: false,
                min_occurs: Some(Occurence::Num(0)),
                max_occurs: Some(Occurence::Unbounded),
            },
            (true, Some(Occurence::Num(1)), Some(Occurence::Unbounded)) => TypeAttribute {
                nillable: false,
                min_occurs: Some(Occurence::Num(0)),
                max_occurs: Some(Occurence::Unbounded),
            },
            _ => self,
        }
    }
}

/// The fields of a record by name.
#[derive(Debug)]
pub struct ComplexType {
    pub fields: OrderedMap<String, (TypeAttribute, SimpleType)>,
}

/// The fields of a record in ascending order of their names.
pub type FieldsView = Seq<(Seq<char>, (TypeAttribute, SimpleTypeView))>;

impl View for ComplexType {
    type V = FieldsView;

    open spec fn view(&self) -> FieldsView {
        self.fields@
    }
}

/// An entry of the type map.
#[derive(Debug)]
pub enum Type {
    Simple(SimpleType),
    Complex(ComplexType),
    /// A namespace that a schema imports.
    Import(String),
    /// A generic wrapper around a homogeneous collection of elements.
    Template,
    /// An enumeration, by its values.
    Enum(Vec<String>),
}

/// A `Type` with its strings as character sequences.
pub enum TypeView {
    Simple(SimpleTypeView),
    Complex(FieldsView),
    Import(Seq<char>),
    Template,
    Enum(Seq<Seq<char>>),
}

impl View for Type {
    type V = TypeView;

    open spec fn view(&self) -> TypeView {
        match self {
            Type::Simple(t) => TypeView::Simple(t@),
            Type::Complex(c) => TypeView::Complex(c@),
            Type::Import(s) => TypeView::Import(s@),
            Type::Template => TypeView::Template,
            Type::Enum(v) => TypeView::Enum(v@.map_values(|s: String| s@)),
        }
    }
}

/// A wire message: one named part and the element it carries.
#[derive(Debug, Clone)]
pub struct Message {
    pub part_name: String,
    pub part_element: String,
}

/// A `Message` with its strings as character sequences.
pub struct MessageView {
    pub part_name: Seq<char>,
    pub part_element: Seq<char>,
}

impl View for Message {
    type V = MessageView;

    open spec fn view(&self) -> MessageView {
        MessageView { part_name: self.part_name@, part_element: self.part_element@ }
    }
}

/// An operation of the port type, with its messages by name.
#[derive(Debug)]
pub struct Operation {
    pub name: String,
    pub input: Option<String>,
    pub output: Option<String>,
    pub faults: Option<Vec<String>>,
}

/// An `Operation` with its strings as character sequences.
pub struct OperationView {
    pub name: Seq<char>,
    pub input: Option<Seq<char>>,
    pub output: Option<Seq<char>>,
    pub faults: Option<Seq<Seq<char>>>,
}

/// The characters of an optional string.
pub open spec fn opt_chars(s: Option<String>) -> Option<Seq<char>> {
    match s {
        Some(s) => Some(s@),
        None => None,
    }
}

/// The strings of `v` as character sequences.
pub open spec fn strings(v: Seq<String>) -> Seq<Seq<char>> {
    v.map_values(|s: String| s@)
}

impl View for Operation {
    type V = OperationView;

    open spec fn view(&self) -> OperationView {
        OperationView {
            name: self.name@,
            input: opt_chars(self.input),
            output: opt_chars(self.output),
            faults: match self.faults {
                Some(v) => Some(strings(v@)),
                None => None,
            },
        }
    }
}

/// A service description.
#[derive(Debug)]
pub struct Wsdl {
    /// The name of the service.
    pub name: String,
    pub target_namespace: String,
    pub types: OrderedMap<QualifiedTypename, Type>,
    pub messages: OrderedMap<String, Message>,
    pub operations: OrderedMap<String, Operation>,
}

/// The type map in ascending order of its keys.
pub type TypesView = Seq<((Seq<char>, Seq<char>), TypeView)>;

/// The messages in ascending order of their names.
pub type MessagesView = Seq<(Seq<char>, MessageView)>;

/// The operations in ascending order of their names.
pub type OperationsView = Seq<(Seq<char>, OperationView)>;

/// A `Wsdl` with its strings as character sequences and its maps as
/// sequences of entries.
pub struct WsdlView {
    pub name: Seq<char>,
    pub target_namespace: Seq<char>,
    pub types: TypesView,
    pub messages: MessagesView,
    pub operations: OperationsView,
}

impl View for Wsdl {
    type V = WsdlView;

    open spec fn view(&self) -> WsdlView {
        WsdlView {
            name: self.name@,
            target_namespace: self.target_namespace@,
            types: self.types@,
            messages: self.messages@,
            operations: self.operations@,
        }
    }
}

/// `r` is the outcome `s`, a value standing for its view.
pub open spec fn same<T: View>(r: Result<T, WsdlError>, s: Result<T::V, WsdlError>) -> bool {
    match r {
        Ok(v) => s == Ok::<T::V, WsdlError>(v@),
        Err(e) => s == Err::<T::V, WsdlError>(e),
    }
}

/// The namespace of XML Schema's built-in types.
pub open spec fn xsd() -> Seq<char> {
    "http://www.w3.org/2001/XMLSchema"@
}

/// What follows the first colon of `s`; all of `s` if it holds none.
pub open spec fn local_part(s: Seq<char>) -> Seq<char> {
    let i = index_of(s, ':');
    if i < s.len() {
        s.skip(i + 1)
    } else {
        s
    }
}

/// Strips the namespace prefix from a reference.
pub fn split_namespace(s: &str) -> (r: &str)
    ensures
        r@ == local_part(s@),
{
    let chars = chars_of(s);
    let i = find_char(&chars, ':');
    if i < chars.len() {
        s.substring_char(i + 1, chars.len())
    } else {
        s
    }
}

/// The name that the reference `s` stands for where the prefixes of
/// `scope` hold: a reference without a prefix lies in `default_ns`, one
/// with a prefix in the namespace of that prefix, and one whose prefix is
/// not in scope stands for nothing.
pub open spec fn qualified(s: Seq<char>, scope: XmlElement, default_ns: Seq<char>) -> Option<
    (Seq<char>, Seq<char>),
> {
    let i = index_of(s, ':');
    if i < s.len() {
        match scope.uri(s.take(i)) {
            Some(uri) => Some((uri, s.skip(i + 1))),
            None => None,
        }
    } else {
        Some((default_ns, s))
    }
}

/// Resolves a reference to a qualified name.
pub fn qualified_type(s: &str, scope: &XmlElement, default_ns: &str) -> (r: Option<
    QualifiedTypename,
>)
    ensures
        match r {
            Some(q) => qualified(s@, *scope, default_ns@) == Some(q@),
            None => qualified(s@, *scope, default_ns@) is None,
        },
{
    let chars = chars_of(s);
    let i = find_char(&chars, ':');
    if i < chars.len() {
        let prefix = string_of(&chars, 0, i);
        match scope.namespace_uri(prefix.as_str()) {
            Some(uri) => Some(
                QualifiedTypename::new(uri.clone(), string_of(&chars, i + 1, chars.len())),
            ),
            None => None,
        }
    } else {
        Some(QualifiedTypename::new(default_ns.to_owned(), s.to_owned()))
    }
}

/// The type that a qualified name refers to: one of the built-in types of
/// XML Schema, or an entry of the type map.
pub open spec fn type_ref(q: (Seq<char>, Seq<char>)) -> SimpleTypeView {
    if q.0 != xsd() {
        SimpleTypeView::Complex(q)
    } else if q.1 == "boolean"@ {
        SimpleTypeView::Boolean
    } else if q.1 == "string"@ {
        SimpleTypeView::String
    } else if q.1 == "int"@ {
        SimpleTypeView::Int
    } else if q.1 == "float"@ {
        SimpleTypeView::Float
    } else if q.1 == "dateTime"@ {
        SimpleTypeView::DateTime
    } else if q.1 == "base64Binary"@ {
        SimpleTypeView::Base64Binary
    } else {
        SimpleTypeView::Complex(q)
    }
}

/// Classifies the type that `name` refers to.
pub fn parse_type_ref(name: &QualifiedTypename) -> (t: SimpleType)
    ensures
        t@ == type_ref(name@),
{
    let (ns, local) = name.as_tuple();
    if !str_eq(ns, "http://www.w3.org/2001/XMLSchema") {
        SimpleType::Complex(name.duplicate())
    } else if str_eq(local, "boolean") {
        SimpleType::Boolean
    } else if str_eq(local, "string") {
        SimpleType::String
    } else if str_eq(local, "int") {
        SimpleType::Int
    } else if str_eq(local, "float") {
        SimpleType::Float
    } else if str_eq(local, "dateTime") {
        SimpleType::DateTime
    } else if str_eq(local, "base64Binary") {
        SimpleType::Base64Binary
    } else {
        SimpleType::Complex(name.duplicate())
    }
}

/// The bound that an occurrence attribute states: none where the attribute
/// is absent, `Unbounded` for `unbounded`, a number for a number.
/// `None` where the value is neither.
pub open spec fn occurs(v: Option<Seq<char>>) -> Option<Option<Occurence>> {
    match v {
        None => Some(None),
        Some(s) => if s == "unbounded"@ {
            Some(Some(Occurence::Unbounded))
        } else {
            match decimal_u32(s) {
                Some(n) => Some(Some(Occurence::Num(n))),
                None => None,
            }
        },
    }
}

fn parse_occurs(v: Option<&String>) -> (r: Option<Option<Occurence>>)
    ensures
        r == occurs(
            match v {
                Some(s) => Some(s@),
                None => None,
            },
        ),
{
    match v {
        None => Some(None),
        Some(s) => if str_eq(s.as_str(), "unbounded") {
            Some(Some(Occurence::Unbounded))
        } else {
            match parse_u32(s.as_str()) {
                Some(n) => Some(Some(Occurence::Num(n))),
                None => None,
            }
        },
    }
}

/// The attributes that the element `field` states, before normalization.
pub open spec fn stated_attributes(field: XmlElement) -> TypeAttribute {
    TypeAttribute {
        nillable: field.attr("nillable"@) == Some("true"@),
        min_occurs: occurs(field.attr("minOccurs"@))->0,
        max_occurs: occurs(field.attr("maxOccurs"@))->0,
    }
}

/// What the element `field` declares: its normalized attributes and its
/// type, or the first thing that is wrong with it.
pub open spec fn field_of(field: XmlElement, tns: Seq<char>) -> Result<
    (TypeAttribute, SimpleTypeView),
    WsdlError,
> {
    if field.attr("name"@) is None {
        Err(WsdlError::AttributeNotFound("name"))
    } else if field.attr("type"@) is None {
        Err(WsdlError::AttributeNotFound("type"))
    } else if occurs(field.attr("minOccurs"@)) is None {
        Err(WsdlError::InvalidAttribute("minOccurs"))
    } else if occurs(field.attr("maxOccurs"@)) is None {
        Err(WsdlError::InvalidAttribute("maxOccurs"))
    } else {
        match qualified(field.attr("type"@)->0, field, tns) {
            None => Err(WsdlError::InvalidAttribute("type")),
            Some(q) => Ok((normalized(stated_attributes(field)), type_ref(q))),
        }
    }
}

/// A field that states `minOccurs` and `maxOccurs` of one and is not
/// nillable is read as the same field without the three attributes.
pub proof fn lemma_field_exactly_one(a: XmlElement, b: XmlElement, tns: Seq<char>)
    requires
        a.attr("name"@) == b.attr("name"@),
        a.attr("type"@) == b.attr("type"@),
        a.namespaces@ == b.namespaces@,
        a.attr("minOccurs"@) == Some("1"@),
        a.attr("maxOccurs"@) == Some("1"@),
        a.attr("nillable"@) != Some("true"@),
        b.attr("minOccurs"@) is None,
        b.attr("maxOccurs"@) is None,
        b.attr("nillable"@) != Some("true"@),
    ensures
        field_of(a, tns) == field_of(b, tns),
{
    reveal_strlit("1");
    reveal_strlit("unbounded");
    assert("1"@.len() == 1);
    assert("unbounded"@.len() == 9);
    assert(crate::text::all_digits("1"@));
    assert(crate::text::digits_value("1"@, 1) == 1) by {
        reveal_with_fuel(crate::text::digits_value, 2);
    }
    assert(decimal_u32("1"@) == Some(1u32));
    assert(occurs(Some("1"@)) == Some(Some(Occurence::Num(1))));
}

/// Reads one field declaration.
pub fn parse_element(field: &XmlElement, target_namespace: &str) -> (r: Result<
    (TypeAttribute, SimpleType),
    WsdlError,
>)
    ensures
        same(r, field_of(*field, target_namespace@)),
{
    if field.attribute("name").is_none() {
        return Err(WsdlError::AttributeNotFound("name"));
    }
    let field_type = match field.attribute("type") {
        Some(t) => t,
        None => {
            return Err(WsdlError::AttributeNotFound("type"));
        },
    };
    let nillable = match field.attribute("nillable") {
        Some(v) => str_eq(v.as_str(), "true"),
        None => false,
    };
    let min_occurs = match parse_occurs(field.attribute("minOccurs")) {
        Some(o) => o,
        None => {
            return Err(WsdlError::InvalidAttribute("minOccurs"));
        },
    };
    let max_occurs = match parse_occurs(field.attribute("maxOccurs")) {
        Some(o) => o,
        None => {
            return Err(WsdlError::InvalidAttribute("maxOccurs"));
        },
    };
    let attributes = TypeAttribute { nillable, min_occurs, max_occurs }.normalize();
    match qualified_type(field_type.as_str(), field, target_namespace) {
        None => Err(WsdlError::InvalidAttribute("type")),
        Some(q) => Ok((attributes, parse_type_ref(&q))),
    }
}

/// The type that the `simpleType` element `el` declares: the base of its
/// restriction.
pub open spec fn simple_type_of(el: XmlElement, tns: Seq<char>) -> Result<TypeView, WsdlError> {
    if el.children@.len() == 0 {
        Err(WsdlError::Empty)
    } else {
        match el.children@[0] {
            XmlNode::Element(inner) => if inner.name@ != "restriction"@ {
                Err(WsdlError::Unsupported("simpleType"))
            } else {
                match inner.attr("base"@) {
                    None => Err(WsdlError::AttributeNotFound("base")),
                    Some(base) => match qualified(base, el, tns) {
                        None => Err(WsdlError::InvalidAttribute("base")),
                        Some(q) => Ok(TypeView::Simple(type_ref(q))),
                    },
                }
            },
            _ => Err(WsdlError::NotAnElement),
        }
    }
}

/// Reads a `simpleType` declaration.
pub fn parse_simple_type(el: &XmlElement, target_namespace: &str) -> (r: Result<Type, WsdlError>)
    ensures
        same(r, simple_type_of(*el, target_namespace@)),
{
    if el.children.len() == 0 {
        return Err(WsdlError::Empty);
    }
    let inner = match el.children[0].as_element() {
        Some(e) => e,
        None => {
            return Err(WsdlError::NotAnElement);
        },
    };
    if !str_eq(inner.name.as_str(), "restriction") {
        return Err(WsdlError::Unsupported("simpleType"));
    }
    let base = match inner.attribute("base") {
        Some(b) => b,
        None => {
            return Err(WsdlError::AttributeNotFound("base"));
        },
    };
    match qualified_type(base.as_str(), el, target_namespace) {
        None => Err(WsdlError::InvalidAttribute("base")),
        Some(q) => Ok(Type::Simple(parse_type_ref(&q))),
    }
}

/// The fields `acc` after the field declarations among `nodes[i..]`, each
/// bound under its name in turn; nodes that are no elements are passed
/// over.
pub open spec fn sequence_from(acc: FieldsView, nodes: Seq<XmlNode>, i: int, tns: Seq<char>) -> Result<
    FieldsView,
    WsdlError,
>
    decreases nodes.len() - i,
{
    if i < 0 || i >= nodes.len() {
        Ok(acc)
    } else {
        match nodes[i] {
            XmlNode::Element(field) => match field.attr("name"@) {
                None => Err(WsdlError::AttributeNotFound("name")),
                Some(name) => match field_of(field, tns) {
                    Err(e) => Err(e),
                    Ok(v) => sequence_from(
                        insert_entry::<String, (TypeAttribute, SimpleTypeView)>(acc, name, v),
                        nodes,
                        i + 1,
                        tns,
                    ),
                },
            },
            _ => sequence_from(acc, nodes, i + 1, tns),
        }
    }
}

fn parse_sequence(
    fields: OrderedMap<String, (TypeAttribute, SimpleType)>,
    sequence: &XmlElement,
    target_namespace: &str,
) -> (r: Result<OrderedMap<String, (TypeAttribute, SimpleType)>, WsdlError>)
    ensures
        same(r, sequence_from(fields@, sequence.children@, 0, target_namespace@)),
{
    let ghost start = fields@;
    let ghost nodes = sequence.children@;
    let ghost tns = target_namespace@;
    let mut map = fields;
    let mut i: usize = 0;
    while i < sequence.children.len()
        invariant
            i <= sequence.children.len(),
            nodes == sequence.children@,
            tns == target_namespace@,
            start == fields@,
            sequence_from(start, nodes, 0, tns) == sequence_from(map@, nodes, i as int, tns),
        decreases sequence.children.len() - i,
    {
        match &sequence.children[i] {
            XmlNode::Element(field) => {
                let name = match field.attribute("name") {
                    Some(n) => n,
                    None => {
                        return Err(WsdlError::AttributeNotFound("name"));
                    },
                };
                match parse_element(field, target_namespace) {
                    Err(e) => {
                        return Err(e);
                    },
                    Ok(v) => {
                        map.insert(name.clone(), v);
                    },
                }
            },
            _ => {},
        }
        i += 1;
    }
    Ok(map)
}

/// The fields `acc` after the `sequence` blocks among `nodes[i..]`.
/// Elements of another name are passed over; a node that is no element is
/// an error.
pub open spec fn complex_from(acc: FieldsView, nodes: Seq<XmlNode>, i: int, tns: Seq<char>) -> Result<
    FieldsView,
    WsdlError,
>
    decreases nodes.len() - i,
{
    if i < 0 || i >= nodes.len() {
        Ok(acc)
    } else {
        match nodes[i] {
            XmlNode::Element(child) => if child.name@ == "sequence"@ {
                match sequence_from(acc, child.children@, 0, tns) {
                    Err(e) => Err(e),
                    Ok(fields) => complex_from(fields, nodes, i + 1, tns),
                }
            } else {
                complex_from(acc, nodes, i + 1, tns)
            },
            _ => Err(WsdlError::NotAnElement),
        }
    }
}

/// The record that the `complexType` element `el` declares.
pub open spec fn complex_type_of(el: XmlElement, tns: Seq<char>) -> Result<TypeView, WsdlError> {
    match complex_from(Seq::empty(), el.children@, 0, tns) {
        Ok(fields) => Ok(TypeView::Complex(fields)),
        Err(e) => Err(e),
    }
}

/// Reads a `complexType` declaration.
pub fn parse_complex_type(el: &XmlElement, target_namespace: &str) -> (r: Result<Type, WsdlError>)
    ensures
        same(r, complex_type_of(*el, target_namespace@)),
{
    let ghost nodes = el.children@;
    let ghost tns = target_namespace@;
    let mut fields: OrderedMap<String, (TypeAttribute, SimpleType)> = OrderedMap::new();
    let mut i: usize = 0;
    while i < el.children.len()
        invariant
            i <= el.children.len(),
            nodes == el.children@,
            tns == target_namespace@,
            complex_from(Seq::empty(), nodes, 0, tns) == complex_from(fields@, nodes, i as int, tns),
        decreases el.children.len() - i,
    {
        match &el.children[i] {
            XmlNode::Element(child) => {
                if str_eq(child.name.as_str(), "sequence") {
                    match parse_sequence(fields, child, target_namespace) {
                        Err(e) => {
                            return Err(e);
                        },
                        Ok(f) => {
                            fields = f;
                        },
                    }
                }
            },
            _ => {
                return Err(WsdlError::NotAnElement);
            },
        }
        i += 1;
    }
    Ok(Type::Complex(ComplexType { fields }))
}

/// The element that holds the declaration of the schema member `elem`: the
/// first child of an `element`, a `complexType` or `simpleType` itself.
pub open spec fn member_inner(elem: XmlElement) -> Result<XmlElement, WsdlError> {
    if elem.name@ == "element"@ {
        if elem.children@.len() == 0 {
            Err(WsdlError::Empty)
        } else {
            match elem.children@[0] {
                XmlNode::Element(inner) => Ok(inner),
                _ => Err(WsdlError::NotAnElement),
            }
        }
    } else if elem.name@ == "complexType"@ || elem.name@ == "simpleType"@ {
        Ok(elem)
    } else {
        Err(WsdlError::Unsupported("schema member"))
    }
}

/// The type that the declaration `inner` declares.
pub open spec fn member_type(inner: XmlElement, tns: Seq<char>) -> Result<TypeView, WsdlError> {
    if inner.name@ == "complexType"@ {
        complex_type_of(inner, tns)
    } else if inner.name@ == "simpleType"@ {
        simple_type_of(inner, tns)
    } else {
        Err(WsdlError::Unsupported("type declaration"))
    }
}

/// The type map `acc` after the members of a schema among `nodes[i..]`,
/// each bound under its name in the namespace `tns` in turn. An `import`
/// needs its `namespace` and adds nothing.
pub open spec fn schema_from(acc: TypesView, nodes: Seq<XmlNode>, i: int, tns: Seq<char>) -> Result<
    TypesView,
    WsdlError,
>
    decreases nodes.len() - i,
{
    if i < 0 || i >= nodes.len() {
        Ok(acc)
    } else {
        match nodes[i] {
            XmlNode::Element(elem) => if elem.name@ == "import"@ {
                if elem.attr("namespace"@) is None {
                    Err(WsdlError::AttributeNotFound("namespace"))
                } else {
                    schema_from(acc, nodes, i + 1, tns)
                }
            } else {
                match member_inner(elem) {
                    Err(e) => Err(e),
                    Ok(inner) => match elem.attr("name"@) {
                        None => Err(WsdlError::AttributeNotFound("name")),
                        Some(name) => match member_type(inner, tns) {
                            Err(e) => Err(e),
                            Ok(t) => schema_from(
                                insert_entry::<QualifiedTypename, TypeView>(acc, (tns, name), t),
                                nodes,
                                i + 1,
                                tns,
                            ),
                        },
                    },
                }
            },
            _ => schema_from(acc, nodes, i + 1, tns),
        }
    }
}

fn schema_member_inner(elem: &XmlElement) -> (r: Result<&XmlElement, WsdlError>)
    ensures
        match r {
            Ok(e) => member_inner(*elem) == Ok::<XmlElement, WsdlError>(*e),
            Err(e) => member_inner(*elem) == Err::<XmlElement, WsdlError>(e),
        },
{
    if str_eq(elem.name.as_str(), "element") {
        if elem.children.len() == 0 {
            return Err(WsdlError::Empty);
        }
        match elem.children[0].as_element() {
            Some(inner) => Ok(inner),
            None => Err(WsdlError::NotAnElement),
        }
    } else if str_eq(elem.name.as_str(), "complexType") || str_eq(
        elem.name.as_str(),
        "simpleType",
    ) {
        Ok(elem)
    } else {
        Err(WsdlError::Unsupported("schema member"))
    }
}

fn schema_member_type(inner: &XmlElement, target_namespace: &str) -> (r: Result<Type, WsdlError>)
    ensures
        same(r, member_type(*inner, target_namespace@)),
{
    if str_eq(inner.name.as_str(), "complexType") {
        parse_complex_type(inner, target_namespace)
    } else if str_eq(inner.name.as_str(), "simpleType") {
        parse_simple_type(inner, target_namespace)
    } else {
        Err(WsdlError::Unsupported("type declaration"))
    }
}

/// Reads the members of one schema into `types`.
pub fn parse_schema(
    types: OrderedMap<QualifiedTypename, Type>,
    schema: &XmlElement,
    target_namespace: &str,
) -> (r: Result<OrderedMap<QualifiedTypename, Type>, WsdlError>)
    ensures
        same(r, schema_from(types@, schema.children@, 0, target_namespace@)),
{
    let ghost start = types@;
    let ghost nodes = schema.children@;
    let ghost tns = target_namespace@;
    let mut map = types;
    let mut i: usize = 0;
    while i < schema.children.len()
        invariant
            i <= schema.children.len(),
            nodes == schema.children@,
            tns == target_namespace@,
            start == types@,
            schema_from(start, nodes, 0, tns) == schema_from(map@, nodes, i as int, tns),
        decreases schema.children.len() - i,
    {
        match &schema.children[i] {
            XmlNode::Element(elem) => {
                if str_eq(elem.name.as_str(), "import") {
                    if elem.attribute("namespace").is_none() {
                        return Err(WsdlError::AttributeNotFound("namespace"));
                    }
                } else {
                    let inner = match schema_member_inner(elem) {
                        Ok(inner) => inner,
                        Err(e) => {
                            return Err(e);
                        },
                    };
                    let name = match elem.attribute("name") {
                        Some(n) => n,
                        None => {
                            return Err(WsdlError::AttributeNotFound("name"));
                        },
                    };
                    match schema_member_type(inner, target_namespace) {
                        Err(e) => {
                            return Err(e);
                        },
                        Ok(t) => {
                            map.insert(
                                QualifiedTypename::new(target_namespace.to_owned(), name.clone()),
                                t,
                            );
                        },
                    }
                }
            },
            _ => {},
        }
        i += 1;
    }
    Ok(map)
}

/// The namespace of the schema `schema` where `default_ns` is that of the
/// document.
pub open spec fn schema_namespace(schema: XmlElement, default_ns: Seq<char>) -> Seq<char> {
    match schema.attr("targetNamespace"@) {
        Some(ns) => ns,
        None => default_ns,
    }
}

/// The type map `acc` after the schemas among `nodes[i..]`. All schemas
/// fill one map: a later entry replaces an earlier one of the same name.
pub open spec fn types_from(acc: TypesView, nodes: Seq<XmlNode>, i: int, default_ns: Seq<char>) -> Result<
    TypesView,
    WsdlError,
>
    decreases nodes.len() - i,
{
    if i < 0 || i >= nodes.len() {
        Ok(acc)
    } else {
        match nodes[i] {
            XmlNode::Element(schema) => match schema_from(
                acc,
                schema.children@,
                0,
                schema_namespace(schema, default_ns),
            ) {
                Err(e) => Err(e),
                Ok(types) => types_from(types, nodes, i + 1, default_ns),
            },
            _ => types_from(acc, nodes, i + 1, default_ns),
        }
    }
}

/// The type map that the `types` element `root_el` declares.
pub open spec fn types_of(root_el: XmlElement, default_ns: Seq<char>) -> Result<TypesView, WsdlError> {
    types_from(Seq::empty(), root_el.children@, 0, default_ns)
}

/// Reads the schemas under a `types` element.
pub fn parse_types(root_el: &XmlElement, target_namespace: &str) -> (r: Result<
    OrderedMap<QualifiedTypename, Type>,
    WsdlError,
>)
    ensures
        same(r, types_of(*root_el, target_namespace@)),
{
    let ghost nodes = root_el.children@;
    let ghost tns = target_namespace@;
    let mut types: OrderedMap<QualifiedTypename, Type> = OrderedMap::new();
    let mut i: usize = 0;
    while i < root_el.children.len()
        invariant
            i <= root_el.children.len(),
            nodes == root_el.children@,
            tns == target_namespace@,
            types_from(Seq::empty(), nodes, 0, tns) == types_from(types@, nodes, i as int, tns),
        decreases root_el.children.len() - i,
    {
        match &root_el.children[i] {
            XmlNode::Element(schema) => {
                let namespace = match schema.attribute("targetNamespace") {
                    Some(ns) => ns.as_str(),
                    None => target_namespace,
                };
                match parse_schema(types, schema, namespace) {
                    Err(e) => {
                        return Err(e);
                    },
                    Ok(t) => {
                        types = t;
                    },
                }
            },
            _ => {},
        }
        i += 1;
    }
    Ok(types)
}

/// The message that the `message` element `m` declares, with its name: the
/// name and the element of its first part, the element without its prefix.
pub open spec fn message_of(m: XmlElement) -> Result<(Seq<char>, MessageView), WsdlError> {
    match m.attr("name"@) {
        None => Err(WsdlError::AttributeNotFound("name")),
        Some(name) => match first_element_from(m.children@, 0) {
            None => Err(WsdlError::ElementNotFound("part")),
            Some(part) => match part.attr("name"@) {
                None => Err(WsdlError::AttributeNotFound("name")),
                Some(part_name) => match part.attr("element"@) {
                    None => Err(WsdlError::AttributeNotFound("element")),
                    Some(element) => Ok(
                        (name, MessageView { part_name, part_element: local_part(element) }),
                    ),
                },
            },
        },
    }
}

fn parse_message(m: &XmlElement) -> (r: Result<(String, Message), WsdlError>)
    ensures
        same(r, message_of(*m)),
{
    let name = match m.attribute("name") {
        Some(n) => n,
        None => {
            return Err(WsdlError::AttributeNotFound("name"));
        },
    };
    let part = match m.first_element() {
        Some(p) => p,
        None => {
            return Err(WsdlError::ElementNotFound("part"));
        },
    };
    let part_name = match part.attribute("name") {
        Some(n) => n,
        None => {
            return Err(WsdlError::AttributeNotFound("name"));
        },
    };
    let element = match part.attribute("element") {
        Some(e) => e,
        None => {
            return Err(WsdlError::AttributeNotFound("element"));
        },
    };
    Ok(
        (
            name.clone(),
            Message {
                part_name: part_name.clone(),
                part_element: split_namespace(element.as_str()).to_owned(),
            },
        ),
    )
}

/// The messages `acc` after the `message` elements among `nodes[i..]`.
pub open spec fn messages_from(acc: MessagesView, nodes: Seq<XmlNode>, i: int) -> Result<
    MessagesView,
    WsdlError,
>
    decreases nodes.len() - i,
{
    if i < 0 || i >= nodes.len() {
        Ok(acc)
    } else {
        match nodes[i] {
            XmlNode::Element(m) => if m.name@ == "message"@ {
                match message_of(m) {
                    Err(e) => Err(e),
                    Ok(entry) => messages_from(
                        insert_entry::<String, MessageView>(acc, entry.0, entry.1),
                        nodes,
                        i + 1,
                    ),
                }
            } else {
                messages_from(acc, nodes, i + 1)
            },
            _ => messages_from(acc, nodes, i + 1),
        }
    }
}

fn parse_messages(root: &XmlElement) -> (r: Result<OrderedMap<String, Message>, WsdlError>)
    ensures
        same(r, messages_from(Seq::empty(), root.children@, 0)),
{
    let ghost nodes = root.children@;
    let mut messages: OrderedMap<String, Message> = OrderedMap::new();
    let mut i: usize = 0;
    while i < root.children.len()
        invariant
            i <= root.children.len(),
            nodes == root.children@,
            messages_from(Seq::empty(), nodes, 0) == messages_from(messages@, nodes, i as int),
        decreases root.children.len() - i,
    {
        match &root.children[i] {
            XmlNode::Element(m) => {
                if str_eq(m.name.as_str(), "message") {
                    match parse_message(m) {
                        Err(e) => {
                            return Err(e);
                        },
                        Ok(entry) => {
                            messages.insert(entry.0, entry.1);
                        },
                    }
                }
            },
            _ => {},
        }
        i += 1;
    }
    Ok(messages)
}

/// The operation `acc` after the members among `nodes[i..]` that name a
/// message. The last `input` and the last `output` stand; every `fault`
/// is kept, in document order. A member of another name is an error.
pub open spec fn members_from(acc: OperationView, nodes: Seq<XmlNode>, i: int) -> Result<
    OperationView,
    WsdlError,
>
    decreases nodes.len() - i,
{
    if i < 0 || i >= nodes.len() {
        Ok(acc)
    } else {
        match nodes[i] {
            XmlNode::Element(child) => match child.attr("message"@) {
                None => members_from(acc, nodes, i + 1),
                Some(reference) => {
                    let message = local_part(reference);
                    if child.name@ == "input"@ {
                        members_from(OperationView { input: Some(message), ..acc }, nodes, i + 1)
                    } else if child.name@ == "output"@ {
                        members_from(OperationView { output: Some(message), ..acc }, nodes, i + 1)
                    } else if child.name@ == "fault"@ {
                        members_from(
                            OperationView {
                                faults: Some(
                                    match acc.faults {
                                        Some(faults) => faults.push(message),
                                        None => seq![message],
                                    },
                                ),
                                ..acc
                            },
                            nodes,
                            i + 1,
                        )
                    } else {
                        Err(WsdlError::ElementNotFound("operation member"))
                    }
                },
            },
            _ => members_from(acc, nodes, i + 1),
        }
    }
}

/// The operation that the `operation` element `op` declares, with its name.
pub open spec fn operation_of(op: XmlElement) -> Result<(Seq<char>, OperationView), WsdlError> {
    match op.attr("name"@) {
        None => Err(WsdlError::AttributeNotFound("name")),
        Some(name) => match members_from(
            OperationView { name, input: None, output: None, faults: None },
            op.children@,
            0,
        ) {
            Err(e) => Err(e),
            Ok(operation) => Ok((name, operation)),
        },
    }
}

fn parse_operation(op: &XmlElement) -> (r: Result<(String, Operation), WsdlError>)
    ensures
        same(r, operation_of(*op)),
{
    let name = match op.attribute("name") {
        Some(n) => n,
        None => {
            return Err(WsdlError::AttributeNotFound("name"));
        },
    };
    let ghost nodes = op.children@;
    let ghost start = OperationView { name: name@, input: None, output: None, faults: None };
    let mut operation = Operation { name: name.clone(), input: None, output: None, faults: None };
    let mut i: usize = 0;
    while i < op.children.len()
        invariant
            i <= op.children.len(),
            nodes == op.children@,
            op.attr("name"@) == Some(name@),
            start == (OperationView { name: name@, input: None, output: None, faults: None }),
            members_from(start, nodes, 0) == members_from(operation@, nodes, i as int),
        decreases op.children.len() - i,
    {
        match &op.children[i] {
            XmlNode::Element(child) => {
                match child.attribute("message") {
                    None => {},
                    Some(reference) => {
                        let message = split_namespace(reference.as_str()).to_owned();
                        if str_eq(child.name.as_str(), "input") {
                            operation.input = Some(message);
                        } else if str_eq(child.name.as_str(), "output") {
                            operation.output = Some(message);
                        } else if str_eq(child.name.as_str(), "fault") {
                            let ghost before = operation@;
                            let mut faults = match operation.faults {
                                Some(f) => f,
                                None => Vec::new(),
                            };
                            faults.push(message);
                            proof {
                                match before.faults {
                                    Some(f) => {
                                        assert(strings(faults@) =~= f.push(message@));
                                    },
                                    None => {
                                        assert(strings(faults@) =~= seq![message@]);
                                    },
                                }
                            }
                            operation.faults = Some(faults);
                        } else {
                            return Err(WsdlError::ElementNotFound("operation member"));
                        }
                    },
                }
            },
            _ => {},
        }
        i += 1;
    }
    Ok((name.clone(), operation))
}

/// The operations `acc` after the `operation` elements among `nodes[i..]`.
pub open spec fn operations_from(acc: OperationsView, nodes: Seq<XmlNode>, i: int) -> Result<
    OperationsView,
    WsdlError,
>
    decreases nodes.len() - i,
{
    if i < 0 || i >= nodes.len() {
        Ok(acc)
    } else {
        match nodes[i] {
            XmlNode::Element(op) => match operation_of(op) {
                Err(e) => Err(e),
                Ok(entry) => operations_from(
                    insert_entry::<String, OperationView>(acc, entry.0, entry.1),
                    nodes,
                    i + 1,
                ),
            },
            _ => operations_from(acc, nodes, i + 1),
        }
    }
}

fn parse_operations(port_type: &XmlElement) -> (r: Result<
    OrderedMap<String, Operation>,
    WsdlError,
>)
    ensures
        same(r, operations_from(Seq::empty(), port_type.children@, 0)),
{
    let ghost nodes = port_type.children@;
    let mut operations: OrderedMap<String, Operation> = OrderedMap::new();
    let mut i: usize = 0;
    while i < port_type.children.len()
        invariant
            i <= port_type.children.len(),
            nodes == port_type.children@,
            operations_from(Seq::empty(), nodes, 0) == operations_from(
                operations@,
                nodes,
                i as int,
            ),
        decreases port_type.children.len() - i,
    {
        match &port_type.children[i] {
            XmlNode::Element(op) => {
                match parse_operation(op) {
                    Err(e) => {
                        return Err(e);
                    },
                    Ok(entry) => {
                        operations.insert(entry.0, entry.1);
                    },
                }
            },
            _ => {},
        }
        i += 1;
    }
    Ok(operations)
}

/// The model that the document with the root element `root` describes, or
/// the first thing that it lacks: the target namespace, the `types`
/// element and its schemas, the messages, the `portType` element and its
/// operations, the `service` element and its name, in this order.
pub open spec fn wsdl_of(root: XmlElement) -> Result<WsdlView, WsdlError> {
    match root.attr("targetNamespace"@) {
        None => Err(WsdlError::AttributeNotFound("targetNamespace")),
        Some(target_namespace) => match root.child("types"@) {
            None => Err(WsdlError::ElementNotFound("types")),
            Some(types_el) => match types_of(types_el, target_namespace) {
                Err(e) => Err(e),
                Ok(types) => match messages_from(Seq::empty(), root.children@, 0) {
                    Err(e) => Err(e),
                    Ok(messages) => match root.child("portType"@) {
                        None => Err(WsdlError::ElementNotFound("portType")),
                        Some(port_type) => match operations_from(
                            Seq::empty(),
                            port_type.children@,
                            0,
                        ) {
                            Err(e) => Err(e),
                            Ok(operations) => match root.child("service"@) {
                                None => Err(WsdlError::ElementNotFound("service")),
                                Some(service) => match service.attr("name"@) {
                                    None => Err(WsdlError::AttributeNotFound("name")),
                                    Some(name) => Ok(
                                        WsdlView {
                                            name,
                                            target_namespace,
                                            types,
                                            messages,
                                            operations,
                                        },
                                    ),
                                },
                            },
                        },
                    },
                },
            },
        },
    }
}

/// Builds the model from the root element of a service description.
pub fn parse_document(root: &XmlElement) -> (r: Result<Wsdl, WsdlError>)
    ensures
        same(r, wsdl_of(*root)),
{
    let target_namespace = match root.attribute("targetNamespace") {
        Some(ns) => ns,
        None => {
            return Err(WsdlError::AttributeNotFound("targetNamespace"));
        },
    };
    let types_el = match root.get_child("types") {
        Some(e) => e,
        None => {
            return Err(WsdlError::ElementNotFound("types"));
        },
    };
    let types = match parse_types(types_el, target_namespace.as_str()) {
        Ok(t) => t,
        Err(e) => {
            return Err(e);
        },
    };
    let messages = match parse_messages(root) {
        Ok(m) => m,
        Err(e) => {
            return Err(e);
        },
    };
    let port_type = match root.get_child("portType") {
        Some(e) => e,
        None => {
            return Err(WsdlError::ElementNotFound("portType"));
        },
    };
    let operations = match parse_operations(port_type) {
        Ok(o) => o,
        Err(e) => {
            return Err(e);
        },
    };
    let service = match root.get_child("service") {
        Some(e) => e,
        None => {
            return Err(WsdlError::ElementNotFound("service"));
        },
    };
    let name = match service.attribute("name") {
        Some(n) => n,
        None => {
            return Err(WsdlError::AttributeNotFound("name"));
        },
    };
    Ok(
        Wsdl {
            name: name.clone(),
            target_namespace: target_namespace.clone(),
            types,
            messages,
            operations,
        },
    )
}

/// Reads a service description from the bytes of its XML document.
///
/// Bytes that are no well-formed document give `WsdlError::Parse`; a
/// document gives what its root element describes.
pub fn parse(bytes: &[u8]) -> (r: Result<Wsdl, WsdlError>)
    ensures
        match document_tree(bytes@) {
            Some(root) => same(r, wsdl_of(root)),
            None => r matches Err(WsdlError::Parse(_)),
        },
{
    match read_document(bytes) {
        Ok(root) => parse_document(&root),
        Err(e) => Err(WsdlError::Parse(e)),
    }
}

} // verus!
