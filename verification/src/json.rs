//! The library's own model of a structured document: a tree of plain values.
//! Schema documents and payload data are both held in this form, so the
//! validator can be specified and verified over ordinary datatypes.

use vstd::prelude::*;

use crate::text::str_eq;

verus! {

/// A structured value: the document tree that schemas and payloads share.
///
/// Object fields are kept as an ordered list of (name, value) pairs; a lookup
/// returns the last binding of a name, so later insertions shadow earlier
/// ones.
#[derive(Debug, PartialEq, Eq)]
pub enum JsonValue {
    Null,
    Boolean(bool),
    Number(i64),
    Text(String),
    Array(Vec<JsonValue>),
    Object(Vec<(String, JsonValue)>),
}

/// The document a run of text parses to, if it is well formed. The parse is a
/// function of the text alone; no contract of this crate pins the parse of a
/// given text, so concrete checks go through functions that take the parsed
/// document as an argument.
pub uninterp spec fn parsed_document(s: Seq<char>) -> Option<JsonValue>;

/// serde_json's own parse tree, declared so a value of it can be carried into
/// the conversion below; this crate never looks inside one.
#[verifier::external_type_specification]
#[verifier::external_body]
pub struct ExValue(serde_json::Value);

/// Parses a run of text as a schema document: a document for well-formed
/// input, nothing otherwise.
pub fn parse_schema_document(s: &str) -> (r: Option<JsonValue>)
    ensures
        r == parsed_document(s@),
{
    parse_document(s)
}

/// Relies on serde_json::from_str: parses a run of text, yielding a document
/// for well-formed input and nothing otherwise.
#[verifier::external_body]
fn parse_document(s: &str) -> (r: Option<JsonValue>)
    ensures
        r == parsed_document(s@),
{
    match serde_json::from_str::<serde_json::Value>(s) {
        Ok(v) => Some(document_from_value(v)),
        Err(_) => None,
    }
}

/// Relies on serde_json::Value: carries a parsed tree over into the library's
/// document type, arm by arm; a number is carried as its integer part.
#[verifier::external_body]
fn document_from_value(v: serde_json::Value) -> JsonValue {
    match v {
        serde_json::Value::Null => JsonValue::Null,
        serde_json::Value::Bool(b) => JsonValue::Boolean(b),
        serde_json::Value::Number(n) => JsonValue::Number(n.as_i64().unwrap_or(0)),
        serde_json::Value::String(s) => JsonValue::Text(s),
        serde_json::Value::Array(items) => JsonValue::Array(
            items.into_iter().map(document_from_value).collect(),
        ),
        serde_json::Value::Object(map) => JsonValue::Object(
            map.into_iter().map(|p| (p.0, document_from_value(p.1))).collect(),
        ),
    }
}

/// Deep structural equality of two documents: the same shape, the same field
/// names, the same leaf values. This is what a copy preserves; spec equality
/// of the whole value would also compare the backing allocations of arrays
/// and objects, which a fresh copy cannot share.
pub open spec fn doc_eq(a: JsonValue, b: JsonValue) -> bool
    decreases a,
{
    match (a, b) {
        (JsonValue::Null, JsonValue::Null) => true,
        (JsonValue::Boolean(x), JsonValue::Boolean(y)) => x == y,
        (JsonValue::Number(x), JsonValue::Number(y)) => x == y,
        (JsonValue::Text(x), JsonValue::Text(y)) => x@ == y@,
        (JsonValue::Array(x), JsonValue::Array(y)) => x@.len() == y@.len() && (forall|i: int|
            #![trigger x@[i]]
            0 <= i < x@.len() ==> doc_eq(x@[i], y@[i])),
        (JsonValue::Object(x), JsonValue::Object(y)) => x@.len() == y@.len() && (forall|i: int|
            #![trigger x@[i]]
            0 <= i < x@.len() ==> x@[i].0@ == y@[i].0@ && doc_eq(x@[i].1, y@[i].1)),
        _ => false,
    }
}

/// Deep structural equality of two runs of field bindings.
pub open spec fn doc_pairs_eq(a: Seq<(String, JsonValue)>, b: Seq<(String, JsonValue)>) -> bool {
    a.len() == b.len() && (forall|i: int|
        #![trigger a[i]]
        0 <= i < a.len() ==> a[i].0@ == b[i].0@ && doc_eq(a[i].1, b[i].1))
}

impl Clone for JsonValue {
    /// A deep copy, structurally equal to the original.
    fn clone(&self) -> (res: Self)
        ensures
            doc_eq(res, *self),
        decreases *self,
    {
        match self {
            JsonValue::Null => JsonValue::Null,
            JsonValue::Boolean(b) => JsonValue::Boolean(*b),
            JsonValue::Number(n) => JsonValue::Number(*n),
            JsonValue::Text(s) => JsonValue::Text(s.clone()),
            JsonValue::Array(items) => JsonValue::Array(clone_values(items)),
            JsonValue::Object(pairs) => JsonValue::Object(clone_pairs(pairs)),
        }
    }
}

/// Deep copy of an array's elements.
#[verifier::loop_isolation(false)]
fn clone_values(items: &Vec<JsonValue>) -> (res: Vec<JsonValue>)
    ensures
        res@.len() == items@.len(),
        forall|i: int| #![trigger res@[i]] 0 <= i < items@.len() ==> doc_eq(res@[i], items@[i]),
    decreases *items,
{
    let mut res: Vec<JsonValue> = Vec::new();
    let mut i: usize = 0;
    while i < items.len()
        invariant
            i <= items.len(),
            res@.len() == i as int,
            forall|j: int| #![trigger res@[j]] 0 <= j < i ==> doc_eq(res@[j], items@[j]),
        decreases items.len() - i,
    {
        proof {
            assert(decreases_to!(*items => items@[i as int]));
        }
        res.push(items[i].clone());
        i = i + 1;
    }
    res
}

/// Deep copy of an object's field bindings.
#[verifier::loop_isolation(false)]
pub(crate) fn clone_pairs(pairs: &Vec<(String, JsonValue)>) -> (res: Vec<(String, JsonValue)>)
    ensures
        doc_pairs_eq(res@, pairs@),
    decreases *pairs,
{
    let mut res: Vec<(String, JsonValue)> = Vec::new();
    let mut i: usize = 0;
    while i < pairs.len()
        invariant
            i <= pairs.len(),
            res@.len() == i as int,
            forall|j: int| #![trigger res@[j]] 0 <= j < i
                ==> res@[j].0@ == pairs@[j].0@ && doc_eq(res@[j].1, pairs@[j].1),
        decreases pairs.len() - i,
    {
        let pair = &pairs[i];
        proof {
            assert(decreases_to!(*pairs => pairs@[i as int]));
            assert(decreases_to!(pairs@[i as int] => pairs@[i as int].1));
        }
        res.push((pair.0.clone(), pair.1.clone()));
        i = i + 1;
    }
    res
}

/// The last value bound to `name` among `pairs`, if any.
pub open spec fn pairs_lookup(pairs: Seq<(String, JsonValue)>, name: Seq<char>) -> Option<
    JsonValue,
>
    decreases pairs.len(),
{
    if pairs.len() == 0 {
        None
    } else if pairs.last().0@ == name {
        Some(pairs.last().1)
    } else {
        pairs_lookup(pairs.drop_last(), name)
    }
}

/// The field `name` of `v`, when `v` is an object that has it.
pub open spec fn spec_get_field(v: JsonValue, name: Seq<char>) -> Option<JsonValue> {
    match v {
        JsonValue::Object(pairs) => pairs_lookup(pairs@, name),
        _ => None,
    }
}

impl JsonValue {
    pub open spec fn spec_is_object(&self) -> bool {
        self is Object
    }

    pub open spec fn spec_is_array(&self) -> bool {
        self is Array
    }

    pub open spec fn spec_is_string(&self) -> bool {
        self is Text
    }

    pub open spec fn spec_is_number(&self) -> bool {
        self is Number
    }

    pub open spec fn spec_is_boolean(&self) -> bool {
        self is Boolean
    }

    pub open spec fn spec_is_null(&self) -> bool {
        self is Null
    }

    /// The value of field `name`, when this value is an object carrying it;
    /// the last binding wins when a name is bound twice.
    #[verifier::loop_isolation(false)]
    pub fn get_field(&self, name: &str) -> (r: Option<&JsonValue>)
        ensures
            match r {
                Some(v) => spec_get_field(*self, name@) == Some(*v),
                None => spec_get_field(*self, name@) is None,
            },
    {
        match self {
            JsonValue::Object(pairs) => {
                let mut i: usize = pairs.len();
                proof {
                    assert(pairs@.take(pairs@.len() as int) =~= pairs@);
                }
                while i > 0
                    invariant
                        i <= pairs.len(),
                        pairs_lookup(pairs@, name@) == pairs_lookup(
                            pairs@.take(i as int),
                            name@,
                        ),
                    decreases i,
                {
                    i = i - 1;
                    proof {
                        assert(pairs@.take(i + 1 as int).last() == pairs@[i as int]);
                        assert(pairs@.take(i + 1 as int).drop_last() =~= pairs@.take(i as int));
                    }
                    if str_eq(pairs[i].0.as_str(), name) {
                        proof {
                            assert(pairs_lookup(pairs@.take(i + 1 as int), name@) == Some(
                                pairs@[i as int].1,
                            ));
                        }
                        return Some(&pairs[i].1);
                    }
                }
                None
            },
            _ => None,
        }
    }

    /// Whether this value is a keyed structure.
    #[verifier::when_used_as_spec(spec_is_object)]
    pub fn is_object(&self) -> (r: bool)
        ensures
            r == self.spec_is_object(),
    {
        match self {
            JsonValue::Object(_) => true,
            _ => false,
        }
    }

    /// Whether this value is an ordered sequence.
    #[verifier::when_used_as_spec(spec_is_array)]
    pub fn is_array(&self) -> (r: bool)
        ensures
            r == self.spec_is_array(),
    {
        match self {
            JsonValue::Array(_) => true,
            _ => false,
        }
    }

    /// Whether this value is text.
    #[verifier::when_used_as_spec(spec_is_string)]
    pub fn is_string(&self) -> (r: bool)
        ensures
            r == self.spec_is_string(),
    {
        match self {
            JsonValue::Text(_) => true,
            _ => false,
        }
    }

    /// Whether this value is numeric.
    #[verifier::when_used_as_spec(spec_is_number)]
    pub fn is_number(&self) -> (r: bool)
        ensures
            r == self.spec_is_number(),
    {
        match self {
            JsonValue::Number(_) => true,
            _ => false,
        }
    }

    /// Whether this value is true or false.
    #[verifier::when_used_as_spec(spec_is_boolean)]
    pub fn is_boolean(&self) -> (r: bool)
        ensures
            r == self.spec_is_boolean(),
    {
        match self {
            JsonValue::Boolean(_) => true,
            _ => false,
        }
    }

    /// Whether this value is the absence of a value.
    #[verifier::when_used_as_spec(spec_is_null)]
    pub fn is_null(&self) -> (r: bool)
        ensures
            r == self.spec_is_null(),
    {
        match self {
            JsonValue::Null => true,
            _ => false,
        }
    }
}

} // verus!
