//! A façade composing the loader, the validator and envelope construction,
//! for callers that want one handle: build an envelope, validate it, and hand
//! it to a sender only when it is valid.

use vstd::prelude::*;

use crate::cache::map_at;
use crate::envelope::{Envelope, Header};
use crate::json::JsonValue;
use crate::loader::{spec_cache_key, LoaderStatus, SchemaLoader};
use crate::validator::{
    data_errors, msgs_of, spec_error_message, validate_errors, ValidationResult, Validator,
};

verus! {

/// The lookup-failure message `validate_data` reports.
pub open spec fn service_not_found_msg(
    domain: Seq<char>,
    category: Seq<char>,
    name: Seq<char>,
) -> Seq<char> {
    "Schema not found: "@ + domain + "/"@ + category + "/"@ + name
}

fn service_not_found_message(domain: &str, category: &str, name: &str) -> (r: String)
    ensures
        r@ == service_not_found_msg(domain@, category@, name@),
{
    let mut s = String::from_str("Schema not found: ");
    s.append(domain);
    s.append("/");
    s.append(category);
    s.append("/");
    s.append(name);
    proof {
        assert(s@ =~= service_not_found_msg(domain@, category@, name@));
    }
    s
}

/// One handle over a loader and the validator that consults it.
pub struct PactsService {
    pub validator: Validator,
}

impl PactsService {
    /// A service over a fresh loader for the given root, domain and version.
    /// The loader starts uninitialized: its cache is populated by driving the
    /// source chain.
    pub fn new(schema_root: String, domain: String, version: String) -> (r: PactsService)
        requires
            schema_root@.len() > 0,
            domain@.len() > 0,
            version@.len() > 0,
        ensures
            r.validator.schema_loader.schema_root == schema_root,
            r.validator.schema_loader.domain == domain,
            r.validator.schema_loader.version == version,
            r.validator.schema_loader.schema_cache.contents() == Map::<
                Seq<char>,
                JsonValue,
            >::empty(),
            r.validator.schema_loader.status == LoaderStatus::Uninitialized,
    {
        let schema_loader = SchemaLoader::new(schema_root, domain, version);
        PactsService { validator: Validator::new(schema_loader) }
    }

    /// An envelope for the given schema coordinates, versioned as the loader
    /// is and marked as JSON.
    pub fn create_envelope(
        &self,
        schema_category: String,
        schema_name: String,
        data: JsonValue,
    ) -> (r: Envelope)
        ensures
            r.header.schema_version@ == self.validator.schema_loader.version@,
            r.header.schema_category == schema_category,
            r.header.schema_name == schema_name,
            r.header.content_type is Some && r.header.content_type->0@ == "application/json"@,
            r.header.auth_token is None,
            r.data == data,
            r.metadata is None,
    {
        let header = Header::with_content_type(
            self.validator.schema_loader.version.clone(),
            schema_category,
            schema_name,
            String::from_str("application/json"),
        );
        Envelope::new(header, data)
    }

    /// As `create_envelope`, carrying an authentication token.
    pub fn create_envelope_with_auth(
        &self,
        schema_category: String,
        schema_name: String,
        data: JsonValue,
        auth_token: String,
    ) -> (r: Envelope)
        ensures
            r.header.schema_version@ == self.validator.schema_loader.version@,
            r.header.schema_category == schema_category,
            r.header.schema_name == schema_name,
            r.header.content_type is Some && r.header.content_type->0@ == "application/json"@,
            r.header.auth_token == Some(auth_token),
            r.data == data,
            r.metadata is None,
    {
        let header = Header::with_auth(
            self.validator.schema_loader.version.clone(),
            schema_category,
            schema_name,
            Some(String::from_str("application/json")),
            auth_token,
        );
        Envelope::new(header, data)
    }

    /// Validates an envelope against the schema its header names.
    pub fn validate(&self, envelope: &Envelope) -> (r: ValidationResult)
        ensures
            r.messages() == crate::validator::envelope_errors(
                *envelope,
                self.validator.schema_loader.schema_cache.contents(),
                self.validator.schema_loader.domain@,
                self.validator.schema_loader.version@,
            ),
            r.valid == (r.errors@.len() == 0),
    {
        self.validator.validate(envelope)
    }

    /// Validates data against the cached schema at the given category and
    /// name; reports a single lookup error when no such schema is cached.
    pub fn validate_data(&self, data: &JsonValue, category: &str, schema_name: &str) -> (r:
        ValidationResult)
        ensures
            ({
                let looked_up = map_at(
                    self.validator.schema_loader.schema_cache.contents(),
                    spec_cache_key(
                        self.validator.schema_loader.domain@,
                        self.validator.schema_loader.version@,
                        category@,
                        schema_name@,
                    ),
                );
                match looked_up {
                    Some(schema) => r.messages() == data_errors(*data, schema) && r.valid == (
                    r.errors@.len() == 0),
                    None => !r.valid && r.messages() == seq![
                        service_not_found_msg(
                            self.validator.schema_loader.domain@,
                            category@,
                            schema_name@,
                        ),
                    ],
                }
            }),
    {
        match self.validator.schema_loader.load_schema(category, schema_name) {
            Some(schema) => self.validator.validate_data(data, schema),
            None => {
                let msg = service_not_found_message(
                    self.validator.schema_loader.domain.as_str(),
                    category,
                    schema_name,
                );
                let mut errors: Vec<String> = Vec::new();
                errors.push(msg);
                proof {
                    assert(msgs_of(errors@) =~= seq![
                        service_not_found_msg(
                            self.validator.schema_loader.domain@,
                            category@,
                            schema_name@,
                        ),
                    ]);
                }
                ValidationResult::failure(errors)
            },
        }
    }

    /// Builds an envelope, validates it, and hands it to `sender` only when
    /// it is valid; a failed validation is reported without calling `sender`.
    pub fn send_validated_data<T, F: FnOnce(&Envelope) -> Result<T, String>>(
        &self,
        schema_category: String,
        schema_name: String,
        data: JsonValue,
        sender: F,
    ) -> (r: Result<T, String>)
        requires
            forall|e: Envelope| #[trigger] call_requires(sender, (&e,)),
        ensures
            ({
                let msgs = validate_errors(
                    self.validator.schema_loader.version@,
                    schema_category@,
                    schema_name@,
                    data,
                    self.validator.schema_loader.schema_cache.contents(),
                    self.validator.schema_loader.domain@,
                    self.validator.schema_loader.version@,
                );
                &&& msgs.len() != 0 ==> r is Err && r->Err_0@ == "Validation failed: "@
                    + spec_error_message(msgs)
                &&& msgs.len() == 0 ==> exists|e: Envelope|
                    {
                        &&& #[trigger] call_ensures(sender, (&e,), r)
                        &&& e.header.schema_version@ == self.validator.schema_loader.version@
                        &&& e.header.schema_category == schema_category
                        &&& e.header.schema_name == schema_name
                        &&& e.data == data
                    }
            }),
    {
        let envelope = self.create_envelope(schema_category, schema_name, data);
        let result = self.validate(&envelope);
        if result.is_valid() {
            sender(&envelope)
        } else {
            let mut m = String::from_str("Validation failed: ");
            let detail = result.error_message();
            m.append(detail.as_str());
            Err(m)
        }
    }

    /// The validator.
    pub fn validator(&self) -> (r: &Validator)
        ensures
            *r == self.validator,
    {
        &self.validator
    }

    /// The loader the validator consults.
    pub fn schema_loader(&self) -> (r: &SchemaLoader)
        ensures
            *r == self.validator.schema_loader,
    {
        &self.validator.schema_loader
    }
}

impl Default for PactsService {
    /// The service at its conventional coordinates: root `schemas`, domain
    /// `bees`, version `v1`, nothing resolved yet.
    fn default() -> (r: Self)
        ensures
            r.validator.schema_loader.schema_root@ == "schemas"@,
            r.validator.schema_loader.domain@ == "bees"@,
            r.validator.schema_loader.version@ == "v1"@,
            r.validator.schema_loader.schema_cache.contents() == Map::<
                Seq<char>,
                JsonValue,
            >::empty(),
            r.validator.schema_loader.status == LoaderStatus::Uninitialized,
    {
        proof {
            reveal_strlit("schemas");
            reveal_strlit("bees");
            reveal_strlit("v1");
        }
        PactsService::new(
            String::from_str("schemas"),
            String::from_str("bees"),
            String::from_str("v1"),
        )
    }
}

} // verus!
