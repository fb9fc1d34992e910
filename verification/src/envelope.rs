//! The data model passed between a producer and the validator: a header
//! naming which schema governs the payload, and the envelope wrapping the
//! payload itself.

use vstd::prelude::*;

use crate::json::{doc_eq, doc_pairs_eq, JsonValue};

verus! {

/// Relies on std::time::SystemTime::now: a clock reading, reduced to
/// nanoseconds since the epoch. A clock set before the epoch reads as 0 and
/// a reading too large for the field wraps, so the body returns on every
/// clock state; the instant is whatever the clock says, so nothing is
/// claimed of it.
#[verifier::external_body]
fn now_timestamp() -> i64 {
    match std::time::SystemTime::now().duration_since(std::time::UNIX_EPOCH) {
        Ok(d) => d.as_nanos() as i64,
        Err(_) => 0,
    }
}

/// Identity and metadata block naming which schema governs an envelope's
/// payload. The three identity fields drive validation; the timestamp is the
/// construction instant in nanoseconds since the epoch, kept for diagnostics.
#[derive(Debug, PartialEq, Eq)]
pub struct Header {
    pub schema_version: String,
    pub schema_category: String,
    pub schema_name: String,
    pub timestamp: i64,
    pub content_type: Option<String>,
    pub auth_token: Option<String>,
}

impl Clone for Header {
    /// A copy equal to the original.
    fn clone(&self) -> (res: Self)
        ensures
            res == *self,
    {
        Header {
            schema_version: self.schema_version.clone(),
            schema_category: self.schema_category.clone(),
            schema_name: self.schema_name.clone(),
            timestamp: self.timestamp,
            content_type: match &self.content_type {
                Some(s) => Some(s.clone()),
                None => None,
            },
            auth_token: match &self.auth_token {
                Some(s) => Some(s.clone()),
                None => None,
            },
        }
    }
}

impl Header {
    /// A header for the given schema coordinates, stamped with the current
    /// instant; the instant itself is up to the clock.
    pub fn new(schema_version: String, schema_category: String, schema_name: String) -> (r: Header)
        ensures
            r.schema_version == schema_version,
            r.schema_category == schema_category,
            r.schema_name == schema_name,
            r.content_type is None,
            r.auth_token is None,
    {
        Header {
            schema_version,
            schema_category,
            schema_name,
            timestamp: now_timestamp(),
            content_type: None,
            auth_token: None,
        }
    }

    /// As `new`, with a declared content type.
    pub fn with_content_type(
        schema_version: String,
        schema_category: String,
        schema_name: String,
        content_type: String,
    ) -> (r: Header)
        ensures
            r.schema_version == schema_version,
            r.schema_category == schema_category,
            r.schema_name == schema_name,
            r.content_type == Some(content_type),
            r.auth_token is None,
    {
        Header {
            schema_version,
            schema_category,
            schema_name,
            timestamp: now_timestamp(),
            content_type: Some(content_type),
            auth_token: None,
        }
    }

    /// As `new`, with an optional content type and an authentication token.
    pub fn with_auth(
        schema_version: String,
        schema_category: String,
        schema_name: String,
        content_type: Option<String>,
        auth_token: String,
    ) -> (r: Header)
        ensures
            r.schema_version == schema_version,
            r.schema_category == schema_category,
            r.schema_name == schema_name,
            r.content_type == content_type,
            r.auth_token == Some(auth_token),
    {
        Header {
            schema_version,
            schema_category,
            schema_name,
            timestamp: now_timestamp(),
            content_type,
            auth_token: Some(auth_token),
        }
    }

    /// The schema version.
    pub fn schema_version(&self) -> (r: &str)
        ensures
            r@ == self.schema_version@,
    {
        self.schema_version.as_str()
    }

    /// The schema category.
    pub fn schema_category(&self) -> (r: &str)
        ensures
            r@ == self.schema_category@,
    {
        self.schema_category.as_str()
    }

    /// The schema name.
    pub fn schema_name(&self) -> (r: &str)
        ensures
            r@ == self.schema_name@,
    {
        self.schema_name.as_str()
    }

    /// The construction instant, in nanoseconds since the epoch.
    pub fn timestamp(&self) -> (r: i64)
        ensures
            r == self.timestamp,
    {
        self.timestamp
    }

    /// The declared content type, if any.
    pub fn content_type(&self) -> (r: Option<&str>)
        ensures
            match r {
                Some(s) => self.content_type is Some && s@ == self.content_type->0@,
                None => self.content_type is None,
            },
    {
        match &self.content_type {
            Some(s) => Some(s.as_str()),
            None => None,
        }
    }

    /// The authentication token, if any.
    pub fn auth_token(&self) -> (r: Option<&str>)
        ensures
            match r {
                Some(s) => self.auth_token is Some && s@ == self.auth_token->0@,
                None => self.auth_token is None,
            },
    {
        match &self.auth_token {
            Some(s) => Some(s.as_str()),
            None => None,
        }
    }
}

/// The outer wrapper carrying a header, the payload data the schema governs,
/// and free-form metadata. Immutable once constructed.
#[derive(Debug, PartialEq, Eq)]
pub struct Envelope {
    pub header: Header,
    pub data: JsonValue,
    pub metadata: Option<Vec<(String, JsonValue)>>,
}

impl Clone for Envelope {
    /// A deep copy: the same header, structurally equal data and metadata.
    fn clone(&self) -> (res: Self)
        ensures
            res.header == self.header,
            doc_eq(res.data, self.data),
            match (res.metadata, self.metadata) {
                (Some(a), Some(b)) => doc_pairs_eq(a@, b@),
                (None, None) => true,
                _ => false,
            },
    {
        Envelope {
            header: self.header.clone(),
            data: self.data.clone(),
            metadata: match &self.metadata {
                Some(pairs) => Some(crate::json::clone_pairs(pairs)),
                None => None,
            },
        }
    }
}

impl Envelope {
    /// An envelope without metadata.
    pub fn new(header: Header, data: JsonValue) -> (r: Envelope)
        ensures
            r.header == header,
            r.data == data,
            r.metadata is None,
    {
        Envelope { header, data, metadata: None }
    }

    /// An envelope with metadata.
    pub fn with_metadata(
        header: Header,
        data: JsonValue,
        metadata: Vec<(String, JsonValue)>,
    ) -> (r: Envelope)
        ensures
            r.header == header,
            r.data == data,
            r.metadata == Some(metadata),
    {
        Envelope { header, data, metadata: Some(metadata) }
    }

    /// The header.
    pub fn header(&self) -> (r: &Header)
        ensures
            *r == self.header,
    {
        &self.header
    }

    /// The payload data.
    pub fn data(&self) -> (r: &JsonValue)
        ensures
            *r == self.data,
    {
        &self.data
    }

    /// The metadata, if any.
    pub fn metadata(&self) -> (r: Option<&Vec<(String, JsonValue)>>)
        ensures
            match r {
                Some(m) => self.metadata == Some(*m),
                None => self.metadata is None,
            },
    {
        match &self.metadata {
            Some(m) => Some(m),
            None => None,
        }
    }
}

} // verus!
