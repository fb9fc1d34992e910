//! The structural validator: checks payload data against a cached schema
//! document using a deliberately restricted subset of JSON-Schema semantics.
//! Checks are additive and never short-circuit one another, except for the
//! single blank-header case; property checks are shallow by design, never
//! descending into a nested value's own shape.

use vstd::prelude::*;

use crate::cache::map_at;
use crate::envelope::{Envelope, Header};
use crate::json::{spec_get_field, JsonValue};
use crate::loader::{spec_cache_key, SchemaLoader};
use crate::text::str_eq;

verus! {

/// The views of a run of error strings.
pub open spec fn msgs_of(v: Seq<String>) -> Seq<Seq<char>> {
    v.map_values(|s: String| s@)
}

proof fn lemma_msgs_append(a: Seq<String>, b: Seq<String>)
    ensures
        msgs_of(a + b) == msgs_of(a) + msgs_of(b),
{
    assert(msgs_of(a + b) =~= msgs_of(a) + msgs_of(b));
}

// ---------------------------------------------------------------------------
// The error messages, spelled once as specifications and once as builders.
// ---------------------------------------------------------------------------

pub open spec fn required_field_msg(name: Seq<char>) -> Seq<char> {
    "Required field missing: "@ + name
}

pub open spec fn invalid_type_msg(expected: Seq<char>) -> Seq<char> {
    "Invalid type. Expected: "@ + expected
}

pub open spec fn invalid_property_msg(name: Seq<char>, expected: Seq<char>) -> Seq<char> {
    "Invalid type for field '"@ + name + "'. Expected: "@ + expected
}

pub open spec fn schema_not_found_msg(
    category: Seq<char>,
    name: Seq<char>,
    version: Seq<char>,
) -> Seq<char> {
    "Schema not found: "@ + category + "/"@ + name + " version "@ + version
}

fn required_field_message(name: &str) -> (r: String)
    ensures
        r@ == required_field_msg(name@),
{
    let mut s = String::from_str("Required field missing: ");
    s.append(name);
    s
}

fn invalid_type_message(expected: &str) -> (r: String)
    ensures
        r@ == invalid_type_msg(expected@),
{
    let mut s = String::from_str("Invalid type. Expected: ");
    s.append(expected);
    s
}

fn invalid_property_message(name: &str, expected: &str) -> (r: String)
    ensures
        r@ == invalid_property_msg(name@, expected@),
{
    let mut s = String::from_str("Invalid type for field '");
    s.append(name);
    s.append("'. Expected: ");
    s.append(expected);
    proof {
        assert(s@ =~= invalid_property_msg(name@, expected@));
    }
    s
}

fn schema_not_found_message(category: &str, name: &str, version: &str) -> (r: String)
    ensures
        r@ == schema_not_found_msg(category@, name@, version@),
{
    let mut s = String::from_str("Schema not found: ");
    s.append(category);
    s.append("/");
    s.append(name);
    s.append(" version ");
    s.append(version);
    proof {
        assert(s@ =~= schema_not_found_msg(category@, name@, version@));
    }
    s
}

// ---------------------------------------------------------------------------
// Type checking: the declared type string against the runtime kind of a
// value. Any unrecognized type string is always satisfied.
// ---------------------------------------------------------------------------

/// Whether `v`'s runtime kind satisfies the declared type `expected`.
pub open spec fn spec_kind_matches(v: JsonValue, expected: Seq<char>) -> bool {
    if expected == "object"@ {
        v is Object
    } else if expected == "array"@ {
        v is Array
    } else if expected == "string"@ {
        v is Text
    } else if expected == "number"@ {
        v is Number
    } else if expected == "boolean"@ {
        v is Boolean
    } else if expected == "null"@ {
        v is Null
    } else {
        true
    }
}

/// Checks the runtime kind of a value against a declared type string.
pub fn validate_type(data: &JsonValue, expected_type: &str) -> (r: bool)
    ensures
        r == spec_kind_matches(*data, expected_type@),
{
    if str_eq(expected_type, "object") {
        data.is_object()
    } else if str_eq(expected_type, "array") {
        data.is_array()
    } else if str_eq(expected_type, "string") {
        data.is_string()
    } else if str_eq(expected_type, "number") {
        data.is_number()
    } else if str_eq(expected_type, "boolean") {
        data.is_boolean()
    } else if str_eq(expected_type, "null") {
        data.is_null()
    } else {
        true
    }
}

// ---------------------------------------------------------------------------
// What each of the three independent checks contributes, as specifications.
// ---------------------------------------------------------------------------

/// What one entry of the schema's `required` list contributes: an error when
/// the entry names a field the data lacks.
pub open spec fn required_entry_errors(data: JsonValue, field: JsonValue) -> Seq<Seq<char>> {
    match field {
        JsonValue::Text(name) => if spec_get_field(data, name@) is None {
            seq![required_field_msg(name@)]
        } else {
            Seq::empty()
        },
        _ => Seq::empty(),
    }
}

pub open spec fn required_list_errors(data: JsonValue, fields: Seq<JsonValue>) -> Seq<Seq<char>>
    decreases fields.len(),
{
    if fields.len() == 0 {
        Seq::empty()
    } else {
        required_list_errors(data, fields.drop_last()) + required_entry_errors(
            data,
            fields.last(),
        )
    }
}

/// The errors of the required-fields check: one per field named in the
/// schema's `required` list and absent from the data, in list order.
pub open spec fn required_errors(data: JsonValue, schema: JsonValue) -> Seq<Seq<char>> {
    match spec_get_field(schema, "required"@) {
        Some(JsonValue::Array(fields)) => required_list_errors(data, fields@),
        _ => Seq::empty(),
    }
}

/// The errors of the top-level type check: one when the schema declares a
/// type the data's kind does not satisfy.
pub open spec fn type_errors(data: JsonValue, schema: JsonValue) -> Seq<Seq<char>> {
    match spec_get_field(schema, "type"@) {
        Some(JsonValue::Text(t)) => if !spec_kind_matches(data, t@) {
            seq![invalid_type_msg(t@)]
        } else {
            Seq::empty()
        },
        _ => Seq::empty(),
    }
}

/// What one declared property contributes: an error when the data carries the
/// property and its kind does not satisfy the fragment's own declared type.
/// The check is shallow: only the immediate kind of the value is consulted.
pub open spec fn property_entry_errors(
    data: JsonValue,
    name: Seq<char>,
    fragment: JsonValue,
) -> Seq<Seq<char>> {
    match spec_get_field(data, name) {
        Some(value) => match spec_get_field(fragment, "type"@) {
            Some(JsonValue::Text(t)) => if !spec_kind_matches(value, t@) {
                seq![invalid_property_msg(name, t@)]
            } else {
                Seq::empty()
            },
            _ => Seq::empty(),
        },
        None => Seq::empty(),
    }
}

/// Law: property checking is shallow. A property declared of type `object`
/// is satisfied by any keyed structure the data holds under that name,
/// whatever that structure's own fields are; no nested shape is ever
/// evaluated.
pub proof fn lemma_property_check_shallow(
    data: JsonValue,
    name: Seq<char>,
    fragment: JsonValue,
    fields: Vec<(String, JsonValue)>,
    declared: String,
)
    requires
        spec_get_field(data, name) == Some(JsonValue::Object(fields)),
        spec_get_field(fragment, "type"@) == Some(JsonValue::Text(declared)),
        declared@ == "object"@,
    ensures
        property_entry_errors(data, name, fragment) == Seq::<Seq<char>>::empty(),
{
    assert(spec_kind_matches(JsonValue::Object(fields), declared@));
}

/// Whether `props` binds `name` at any position.
pub open spec fn binds_name(props: Seq<(String, JsonValue)>, name: Seq<char>) -> bool {
    exists|j: int| 0 <= j < props.len() && props[j].0@ == name
}

/// The per-property errors, in declaration order. A binding shadowed by a
/// later binding of the same name contributes nothing: the lookup model sees
/// only the last binding, so only that one is checked.
pub open spec fn property_list_errors(
    data: JsonValue,
    props: Seq<(String, JsonValue)>,
) -> Seq<Seq<char>>
    decreases props.len(),
{
    if props.len() == 0 {
        Seq::empty()
    } else {
        (if binds_name(props.drop_first(), props[0].0@) {
            Seq::empty()
        } else {
            property_entry_errors(data, props[0].0@, props[0].1)
        }) + property_list_errors(data, props.drop_first())
    }
}

/// The errors of the per-property check, in declaration order; only the last
/// binding of each declared property name is consulted.
pub open spec fn property_errors(data: JsonValue, schema: JsonValue) -> Seq<Seq<char>> {
    match spec_get_field(schema, "properties"@) {
        Some(props) => if data is Object && props is Object {
            property_list_errors(data, props->Object_0@)
        } else {
            Seq::empty()
        },
        _ => Seq::empty(),
    }
}

/// Everything `validate_data` reports: the three checks' errors, in order.
pub open spec fn data_errors(data: JsonValue, schema: JsonValue) -> Seq<Seq<char>> {
    required_errors(data, schema) + type_errors(data, schema) + property_errors(data, schema)
}

// ---------------------------------------------------------------------------
// What `validate` reports for a whole envelope.
// ---------------------------------------------------------------------------

/// One error per blank identity field, in a fixed order; these checks do not
/// short-circuit one another.
pub open spec fn header_field_errors(h: Header) -> Seq<Seq<char>> {
    (if h.schema_category@.len() == 0 {
        seq!["Schema category is required in header"@]
    } else {
        Seq::empty()
    }) + (if h.schema_name@.len() == 0 {
        seq!["Schema name is required in header"@]
    } else {
        Seq::empty()
    }) + (if h.schema_version@.len() == 0 {
        seq!["Schema version is required in header"@]
    } else {
        Seq::empty()
    })
}

/// Everything `validate` reports for a header with the given identity fields
/// and a payload, against the given cache contents and the loader's domain
/// and version.
pub open spec fn validate_errors(
    h_version: Seq<char>,
    h_category: Seq<char>,
    h_name: Seq<char>,
    data: JsonValue,
    cache: Map<Seq<char>, JsonValue>,
    domain: Seq<char>,
    version: Seq<char>,
) -> Seq<Seq<char>> {
    if h_category.len() == 0 && h_name.len() == 0 && h_version.len() == 0 {
        seq!["Header is required"@]
    } else {
        (if h_category.len() == 0 {
            seq!["Schema category is required in header"@]
        } else {
            Seq::empty()
        }) + (if h_name.len() == 0 {
            seq!["Schema name is required in header"@]
        } else {
            Seq::empty()
        }) + (if h_version.len() == 0 {
            seq!["Schema version is required in header"@]
        } else {
            Seq::empty()
        }) + (if h_category.len() > 0 && h_name.len() > 0 {
            match map_at(cache, spec_cache_key(domain, version, h_category, h_name)) {
                Some(schema) => data_errors(data, schema),
                None => seq![schema_not_found_msg(h_category, h_name, version)],
            }
        } else {
            Seq::empty()
        })
    }
}

/// Everything `validate` reports for an envelope, against the given cache
/// contents and the loader's domain and version.
pub open spec fn envelope_errors(
    e: Envelope,
    cache: Map<Seq<char>, JsonValue>,
    domain: Seq<char>,
    version: Seq<char>,
) -> Seq<Seq<char>> {
    validate_errors(
        e.header.schema_version@,
        e.header.schema_category@,
        e.header.schema_name@,
        e.data,
        cache,
        domain,
        version,
    )
}

// ---------------------------------------------------------------------------
// ValidationResult
// ---------------------------------------------------------------------------

/// The outcome of a validation: a flag and the accumulated error strings.
/// Results produced by the validator always satisfy
/// `valid == (errors is empty)`; the free-form constructors record exactly
/// what they are given.
#[derive(Debug, PartialEq, Eq)]
pub struct ValidationResult {
    pub valid: bool,
    pub errors: Vec<String>,
}

fn clone_strings(v: &Vec<String>) -> (r: Vec<String>)
    ensures
        r@ == v@,
{
    let mut r: Vec<String> = Vec::new();
    let mut i: usize = 0;
    while i < v.len()
        invariant
            i <= v.len(),
            r@ == v@.take(i as int),
        decreases v.len() - i,
    {
        r.push(v[i].clone());
        proof {
            assert(r@ =~= v@.take(i + 1 as int));
        }
        i = i + 1;
    }
    proof {
        assert(r@ =~= v@);
    }
    r
}

impl Clone for ValidationResult {
    /// A copy with the same flag and the same error strings.
    fn clone(&self) -> (res: Self)
        ensures
            res.valid == self.valid,
            res.errors@ == self.errors@,
    {
        ValidationResult { valid: self.valid, errors: clone_strings(&self.errors) }
    }
}

/// The single successful message, or the errors joined with `"; "`.
pub open spec fn joined_msgs(msgs: Seq<Seq<char>>) -> Seq<char>
    decreases msgs.len(),
{
    if msgs.len() == 0 {
        Seq::empty()
    } else if msgs.len() == 1 {
        msgs[0]
    } else {
        joined_msgs(msgs.drop_last()) + "; "@ + msgs.last()
    }
}

pub open spec fn spec_error_message(msgs: Seq<Seq<char>>) -> Seq<char> {
    if msgs.len() == 0 {
        "Validation successful"@
    } else {
        joined_msgs(msgs)
    }
}

impl ValidationResult {
    /// The views of the error strings, in order.
    pub open spec fn messages(&self) -> Seq<Seq<char>> {
        msgs_of(self.errors@)
    }

    /// A result holding exactly the given flag and errors.
    pub fn new(valid: bool, errors: Vec<String>) -> (r: ValidationResult)
        ensures
            r.valid == valid,
            r.errors == errors,
    {
        ValidationResult { valid, errors }
    }

    /// A successful result: valid, with no errors.
    pub fn success() -> (r: ValidationResult)
        ensures
            r.valid,
            r.errors@ == Seq::<String>::empty(),
    {
        ValidationResult { valid: true, errors: Vec::new() }
    }

    /// A failed result carrying the given errors.
    pub fn failure(errors: Vec<String>) -> (r: ValidationResult)
        ensures
            !r.valid,
            r.errors == errors,
    {
        ValidationResult { valid: false, errors }
    }

    /// Whether validation was successful.
    pub fn is_valid(&self) -> (r: bool)
        ensures
            r == self.valid,
    {
        self.valid
    }

    /// The list of errors.
    pub fn get_errors(&self) -> (r: &Vec<String>)
        ensures
            *r == self.errors,
    {
        &self.errors
    }

    /// The list of errors.
    pub fn errors(&self) -> (r: &Vec<String>)
        ensures
            *r == self.errors,
    {
        &self.errors
    }

    /// Whether any errors were recorded.
    pub fn has_errors(&self) -> (r: bool)
        ensures
            r == (self.errors@.len() > 0),
    {
        self.errors.len() > 0
    }

    /// The errors joined into one string with `"; "`, or a fixed message when
    /// there are none.
    #[verifier::loop_isolation(false)]
    pub fn error_message(&self) -> (r: String)
        ensures
            r@ == spec_error_message(self.messages()),
    {
        if self.errors.len() == 0 {
            String::from_str("Validation successful")
        } else {
            let mut s = self.errors[0].clone();
            let mut i: usize = 1;
            while i < self.errors.len()
                invariant
                    1 <= i <= self.errors@.len(),
                    s@ == joined_msgs(self.messages().take(i as int)),
                decreases self.errors@.len() - i,
            {
                s.append("; ");
                s.append(self.errors[i].as_str());
                proof {
                    assert(self.messages().take(i + 1 as int).drop_last() =~= self.messages().take(
                        i as int,
                    ));
                    assert(self.messages().take(i + 1 as int).last() == self.messages()[i as int]);
                }
                i = i + 1;
            }
            proof {
                assert(self.messages().take(self.messages().len() as int) =~= self.messages());
            }
            s
        }
    }
}

// ---------------------------------------------------------------------------
// The validator
// ---------------------------------------------------------------------------

/// A stateless structural checker holding the loader whose cache it consults.
pub struct Validator {
    pub schema_loader: SchemaLoader,
}

#[verifier::loop_isolation(false)]
fn validate_required_fields(data: &JsonValue, schema: &JsonValue, errors: &mut Vec<String>)
    ensures
        msgs_of(final(errors)@) == msgs_of(old(errors)@) + required_errors(*data, *schema),
{
    let found = schema.get_field("required");
    match found {
        Some(f) => match f {
            JsonValue::Array(fields) => {
                let mut i: usize = 0;
                while i < fields.len()
                    invariant
                        i <= fields.len(),
                        msgs_of(errors@) == msgs_of(old(errors)@) + required_list_errors(
                            *data,
                            fields@.take(i as int),
                        ),
                    decreases fields.len() - i,
                {
                    proof {
                        assert(fields@.take(i + 1 as int).drop_last() =~= fields@.take(i as int));
                        assert(fields@.take(i + 1 as int).last() == fields@[i as int]);
                        assert(required_list_errors(*data, fields@.take(i + 1 as int))
                            == required_list_errors(*data, fields@.take(i as int))
                            + required_entry_errors(*data, fields@[i as int]));
                    }
                    match &fields[i] {
                        JsonValue::Text(name) => {
                            if data.get_field(name.as_str()).is_none() {
                                let ghost prev = errors@;
                                let msg = required_field_message(name.as_str());
                                errors.push(msg);
                                proof {
                                    assert(required_entry_errors(*data, fields@[i as int])
                                        =~= seq![required_field_msg(name@)]);
                                    assert(errors@ == prev.push(msg));
                                    assert(msgs_of(prev.push(msg)) =~= msgs_of(prev) + seq![msg@]);
                                    assert(msg@ == required_field_msg(name@));
                                    assert(msgs_of(errors@) =~= msgs_of(old(errors)@)
                                        + required_list_errors(*data, fields@.take(i + 1 as int)));
                                }
                            }
                        },
                        _ => {},
                    }
                    proof {
                        assert(msgs_of(errors@) =~= msgs_of(old(errors)@)
                            + required_list_errors(*data, fields@.take(i + 1 as int)));
                    }
                    i = i + 1;
                }
                proof {
                    assert(fields@.take(fields@.len() as int) =~= fields@);
                }
            },
            _ => {},
        },
        None => {},
    }
    proof {
        assert(msgs_of(errors@) =~= msgs_of(old(errors)@) + required_errors(*data, *schema));
    }
}

fn validate_type_schema(data: &JsonValue, schema: &JsonValue, errors: &mut Vec<String>)
    ensures
        msgs_of(final(errors)@) == msgs_of(old(errors)@) + type_errors(*data, *schema),
{
    let found = schema.get_field("type");
    match found {
        Some(tv) => match tv {
            JsonValue::Text(t) => {
                if !validate_type(data, t.as_str()) {
                    errors.push(invalid_type_message(t.as_str()));
                }
            },
            _ => {},
        },
        None => {},
    }
    proof {
        assert(msgs_of(errors@) =~= msgs_of(old(errors)@) + type_errors(*data, *schema));
    }
}

fn validate_property_type(
    data: &JsonValue,
    property_name: &str,
    property_schema: &JsonValue,
    errors: &mut Vec<String>,
)
    ensures
        msgs_of(final(errors)@) == msgs_of(old(errors)@) + property_entry_errors(
            *data,
            property_name@,
            *property_schema,
        ),
{
    let found = property_schema.get_field("type");
    match found {
        Some(tv) => match tv {
            JsonValue::Text(t) => {
                match data.get_field(property_name) {
                    Some(value) => {
                        if !validate_type(value, t.as_str()) {
                            errors.push(invalid_property_message(property_name, t.as_str()));
                        }
                    },
                    None => {},
                }
            },
            _ => {},
        },
        None => {},
    }
    proof {
        assert(msgs_of(errors@) =~= msgs_of(old(errors)@) + property_entry_errors(
            *data,
            property_name@,
            *property_schema,
        ));
    }
}

/// Whether `pairs` binds `name` anywhere at or past position `from`.
#[verifier::loop_isolation(false)]
fn binds_name_from(pairs: &Vec<(String, JsonValue)>, from: usize, name: &str) -> (r: bool)
    requires
        from <= pairs@.len(),
    ensures
        r == binds_name(pairs@.skip(from as int), name@),
{
    let mut j: usize = from;
    while j < pairs.len()
        invariant
            from <= j <= pairs@.len(),
            forall|k: int| from <= k < j ==> pairs@[k].0@ != name@,
        decreases pairs@.len() - j,
    {
        if str_eq(pairs[j].0.as_str(), name) {
            proof {
                assert(pairs@.skip(from as int)[j - from] == pairs@[j as int]);
            }
            return true;
        }
        j = j + 1;
    }
    proof {
        assert forall|k: int|
            0 <= k < pairs@.skip(from as int).len() implies pairs@.skip(from as int)[k].0@
            != name@ by {
            assert(pairs@.skip(from as int)[k] == pairs@[from + k]);
        }
    }
    false
}

#[verifier::loop_isolation(false)]
fn validate_properties(data: &JsonValue, schema: &JsonValue, errors: &mut Vec<String>)
    ensures
        msgs_of(final(errors)@) == msgs_of(old(errors)@) + property_errors(*data, *schema),
{
    let found = schema.get_field("properties");
    match found {
        Some(props) => {
            if data.is_object() && props.is_object() {
                match props {
                    JsonValue::Object(pairs) => {
                        let mut i: usize = 0;
                        proof {
                            assert(pairs@.skip(0) =~= pairs@);
                        }
                        while i < pairs.len()
                            invariant
                                i <= pairs.len(),
                                msgs_of(errors@) + property_list_errors(
                                    *data,
                                    pairs@.skip(i as int),
                                ) == msgs_of(old(errors)@) + property_list_errors(*data, pairs@),
                            decreases pairs.len() - i,
                        {
                            proof {
                                assert(pairs@.skip(i as int).drop_first() =~= pairs@.skip(
                                    i + 1 as int,
                                ));
                                assert(pairs@.skip(i as int)[0] == pairs@[i as int]);
                            }
                            let ghost before = errors@;
                            let pair = &pairs[i];
                            let shadowed = binds_name_from(pairs, i + 1, pair.0.as_str());
                            if !shadowed {
                                if data.get_field(pair.0.as_str()).is_some() {
                                    validate_property_type(data, pair.0.as_str(), &pair.1, errors);
                                }
                            }
                            proof {
                                assert(msgs_of(errors@) + property_list_errors(
                                    *data,
                                    pairs@.skip(i + 1 as int),
                                ) =~= msgs_of(before) + property_list_errors(
                                    *data,
                                    pairs@.skip(i as int),
                                ));
                            }
                            i = i + 1;
                        }
                        proof {
                            assert(pairs@.skip(pairs@.len() as int) =~= Seq::<(
                                String,
                                JsonValue,
                            )>::empty());
                            assert(msgs_of(errors@) =~= msgs_of(errors@) + property_list_errors(
                                *data,
                                pairs@.skip(pairs@.len() as int),
                            ));
                        }
                    },
                    _ => {},
                }
            }
        },
        None => {},
    }
    proof {
        assert(msgs_of(errors@) =~= msgs_of(old(errors)@) + property_errors(*data, *schema));
    }
}

impl Validator {
    /// A validator over the given loader.
    pub fn new(schema_loader: SchemaLoader) -> (r: Validator)
        ensures
            r.schema_loader == schema_loader,
    {
        Validator { schema_loader }
    }

    /// A validator over the given loader.
    pub fn with_schema_loader(schema_loader: SchemaLoader) -> (r: Validator)
        ensures
            r.schema_loader == schema_loader,
    {
        Validator { schema_loader }
    }

    /// Validates an envelope against the schema its header names: the header
    /// presence check, then each identity field, then the schema lookup and
    /// the structural check of the payload.
    pub fn validate(&self, envelope: &Envelope) -> (r: ValidationResult)
        ensures
            r.messages() == envelope_errors(
                *envelope,
                self.schema_loader.schema_cache.contents(),
                self.schema_loader.domain@,
                self.schema_loader.version@,
            ),
            r.valid == (r.errors@.len() == 0),
    {
        let mut errors: Vec<String> = Vec::new();
        let h = &envelope.header;
        if h.schema_category.as_str().is_empty() && h.schema_name.as_str().is_empty()
            && h.schema_version.as_str().is_empty() {
            errors.push(String::from_str("Header is required"));
            proof {
                assert(msgs_of(errors@) =~= seq!["Header is required"@]);
            }
            return ValidationResult::new(false, errors);
        }
        if h.schema_category.as_str().is_empty() {
            errors.push(String::from_str("Schema category is required in header"));
        }
        if h.schema_name.as_str().is_empty() {
            errors.push(String::from_str("Schema name is required in header"));
        }
        if h.schema_version.as_str().is_empty() {
            errors.push(String::from_str("Schema version is required in header"));
        }
        proof {
            assert(msgs_of(errors@) =~= header_field_errors(envelope.header));
        }
        if !h.schema_category.as_str().is_empty() && !h.schema_name.as_str().is_empty() {
            let ghost before = errors@;
            match self.schema_loader.load_schema(
                h.schema_category.as_str(),
                h.schema_name.as_str(),
            ) {
                Some(schema) => {
                    let dv = self.validate_data(&envelope.data, schema);
                    let mut dv_errors = dv.errors;
                    proof {
                        lemma_msgs_append(before, dv_errors@);
                    }
                    errors.append(&mut dv_errors);
                },
                None => {
                    errors.push(
                        schema_not_found_message(
                            h.schema_category.as_str(),
                            h.schema_name.as_str(),
                            self.schema_loader.version.as_str(),
                        ),
                    );
                    proof {
                        assert(msgs_of(errors@) =~= msgs_of(before) + seq![schema_not_found_msg(
                            h.schema_category@,
                            h.schema_name@,
                            self.schema_loader.version@,
                        )]);
                    }
                },
            }
        }
        let valid = errors.len() == 0;
        proof {
            assert(msgs_of(errors@) =~= envelope_errors(
                *envelope,
                self.schema_loader.schema_cache.contents(),
                self.schema_loader.domain@,
                self.schema_loader.version@,
            ));
        }
        ValidationResult::new(valid, errors)
    }

    /// Validates data against a schema document: required fields, the
    /// top-level type, and each declared property's type, all independent and
    /// additive.
    pub fn validate_data(&self, data: &JsonValue, schema: &JsonValue) -> (r: ValidationResult)
        ensures
            r.messages() == data_errors(*data, *schema),
            r.valid == (r.errors@.len() == 0),
    {
        let mut errors: Vec<String> = Vec::new();
        validate_required_fields(data, schema, &mut errors);
        validate_type_schema(data, schema, &mut errors);
        validate_properties(data, schema, &mut errors);
        let valid = errors.len() == 0;
        proof {
            assert(msgs_of(errors@) =~= data_errors(*data, *schema));
        }
        ValidationResult::new(valid, errors)
    }
}

} // verus!
