//! Proxy errors and the HTTP responses they become.
use vstd::prelude::*;
use crate::json::{Json, JsonV, json_entries_view, lemma_entries_empty, push_entry};
use crate::text::{concat, decimal, decimal_string, owned};

verus! {

/// An error of the proxy's request path. Errors of the JSON and HTTP client
/// libraries are carried as their messages.
#[derive(Debug)]
pub enum ProxyError {
    BadRequest(String),
    Upstream { status: u16, body: String },
    Serde(String),
    Http(String),
    Internal(String),
    ModelNotAvailable { model: String, profile: String },
}

/// The display text of an error.
pub open spec fn spec_error_message(e: ProxyError) -> Seq<char> {
    match e {
        ProxyError::BadRequest(m) => "bad request: "@ + m@,
        ProxyError::Upstream { status, body } => "upstream error "@ + decimal(status as nat) + ": "@ + body@,
        ProxyError::Serde(m) => "serialization error: "@ + m@,
        ProxyError::Http(m) => "http client error: "@ + m@,
        ProxyError::Internal(m) => "internal error: "@ + m@,
        ProxyError::ModelNotAvailable { model, profile } => "model '"@ + model@ + "' is not available on "@ + profile@,
    }
}

/// The HTTP status of an upstream status code: itself when it is a valid
/// status code (100 to 999), else 502.
pub open spec fn spec_upstream_status(status: u16) -> u16 {
    if 100 <= status <= 999 { status } else { 502 }
}

/// The HTTP status, error type and message of the response for an error.
pub open spec fn spec_error_parts(e: ProxyError) -> (u16, Seq<char>, Seq<char>) {
    match e {
        ProxyError::BadRequest(m) => (400, "bad_request"@, m@),
        ProxyError::Upstream { status, body } => (spec_upstream_status(status), "upstream_error"@, body@),
        ProxyError::Serde(m) => (400, "serialization_error"@, m@),
        ProxyError::Http(m) => (502, "http_error"@, m@),
        ProxyError::Internal(m) => (500, "internal_error"@, m@),
        ProxyError::ModelNotAvailable { model, profile } => (
            400,
            "model_not_available"@,
            "Model '"@ + model@ + "' is not available on "@ + profile@,
        ),
    }
}

/// The response body `{"error": {"message", "type", "code"}}`.
pub open spec fn spec_error_body(e: ProxyError) -> JsonV {
    let p = spec_error_parts(e);
    JsonV::Object(seq![("error"@, JsonV::Object(seq![
        ("message"@, JsonV::Str(p.2)),
        ("type"@, JsonV::Str(p.1)),
        ("code"@, JsonV::Number(decimal(p.0 as nat))),
    ]))])
}

impl ProxyError {
    /// The display text of this error.
    pub fn message(&self) -> (r: String)
        ensures
            r@ == spec_error_message(*self),
    {
        match self {
            ProxyError::BadRequest(m) => concat("bad request: ", m.as_str()),
            ProxyError::Upstream { status, body } => {
                let mut r = owned("upstream error ");
                r.append(decimal_string(*status as u64).as_str());
                r.append(": ");
                r.append(body.as_str());
                r
            },
            ProxyError::Serde(m) => concat("serialization error: ", m.as_str()),
            ProxyError::Http(m) => concat("http client error: ", m.as_str()),
            ProxyError::Internal(m) => concat("internal error: ", m.as_str()),
            ProxyError::ModelNotAvailable { model, profile } => {
                let mut r = owned("model '");
                r.append(model.as_str());
                r.append("' is not available on ");
                r.append(profile.as_str());
                r
            },
        }
    }

    /// The HTTP status, error type and message of the response for this error.
    pub fn parts(&self) -> (r: (u16, &'static str, String))
        ensures
            (r.0, r.1@, r.2@) == spec_error_parts(*self),
    {
        match self {
            ProxyError::BadRequest(m) => (400, "bad_request", m.clone()),
            ProxyError::Upstream { status, body } => {
                let code = if 100 <= *status && *status <= 999 { *status } else { 502 };
                (code, "upstream_error", body.clone())
            },
            ProxyError::Serde(m) => (400, "serialization_error", m.clone()),
            ProxyError::Http(m) => (502, "http_error", m.clone()),
            ProxyError::Internal(m) => (500, "internal_error", m.clone()),
            ProxyError::ModelNotAvailable { model, profile } => {
                let mut r = owned("Model '");
                r.append(model.as_str());
                r.append("' is not available on ");
                r.append(profile.as_str());
                (400, "model_not_available", r)
            },
        }
    }

    /// The HTTP status and JSON body of the response for this error.
    pub fn response(&self) -> (r: (u16, Json))
        ensures
            r.0 == spec_error_parts(*self).0,
            r.1@ == spec_error_body(*self),
    {
        let (status, type_, message) = self.parts();
        let mut inner: Vec<(String, Json)> = Vec::new();
        proof { lemma_entries_empty(); }
        push_entry(&mut inner, "message", Json::Str(message));
        push_entry(&mut inner, "type", Json::string(type_));
        push_entry(&mut inner, "code", Json::Number(decimal_string(status as u64)));
        let ghost iv = json_entries_view(inner@);
        let mut outer: Vec<(String, Json)> = Vec::new();
        push_entry(&mut outer, "error", Json::Object(inner));
        assert(json_entries_view(outer@) =~= seq![("error"@, JsonV::Object(iv))]);
        assert(iv =~= seq![
            ("message"@, JsonV::Str(spec_error_parts(*self).2)),
            ("type"@, JsonV::Str(spec_error_parts(*self).1)),
            ("code"@, JsonV::Number(decimal(spec_error_parts(*self).0 as nat))),
        ]);
        (status, Json::Object(outer))
    }
}

} // verus!
