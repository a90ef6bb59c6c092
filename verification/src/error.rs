//! What can go wrong between a client and the homeserver.

use vstd::prelude::*;
use crate::json::Json;
use crate::wire::{text_bytes, text_header, Header, ProxyResponse};

verus! {

/// Why a request could not be served.
#[derive(Debug)]
pub enum AppError {
    /// The homeserver could not be reached.
    Upstream(String),
    /// The records could not be read or written.
    Database(String),
    /// The body of the request is too large or unreadable.
    Body,
    /// Something else went wrong.
    Internal(String),
}

/// The body of an error response of Matrix.
pub open spec fn error_json(code: Seq<char>, message: Seq<char>) -> crate::json::JsonView {
    crate::json::JsonView::Object(
        Map::empty().insert("errcode"@, crate::json::JsonView::Text(code)).insert(
            "error"@,
            crate::json::JsonView::Text(message),
        ),
    )
}

/// The body of an error response is read back as it was written.
pub proof fn errors_read_back(code: Seq<char>, message: Seq<char>)
    ensures
        crate::json::reads_back(error_json(code, message)),
{
    reveal_strlit("errcode");
    reveal_strlit("error");
    reveal_strlit("$serde_json::private::RawValue");
    assert("errcode"@.len() == 7 && "error"@.len() == 5 && crate::json::raw_mark().len() == 30);
    reveal_with_fuel(crate::json::readable, 2);
    let m = error_json(code, message)->Object_0;
    assert forall|k: Seq<char>| m.contains_key(k) implies crate::json::readable(
        #[trigger] m[k],
        126,
    ) by {
        assert(k == "errcode"@ || k == "error"@);
    }
}

/// The response to a client that carries a JSON value.
pub open spec fn json_response(status: nat, body: crate::json::JsonView) -> crate::wire::ResponseView {
    crate::wire::ResponseView {
        status,
        headers: seq![("content-type"@, vstd::utf8::encode_utf8("application/json"@))],
        body: vstd::utf8::encode_utf8(crate::json::encoded(body)),
    }
}

/// A response with an error of Matrix.
pub fn error_response(status: u16, code: &str, message: &str) -> (r: ProxyResponse)
    ensures
        r@ == json_response(status as nat, error_json(code@, message@)),
        crate::json::decoded(r@.body) == Some(error_json(code@, message@)),
{
    proof {
        errors_read_back(code@, message@);
    }
    let mut body = Json::object();
    body.set("errcode", Json::text(code));
    body.set("error", Json::text(message));
    let mut headers: Vec<Header> = Vec::new();
    headers.push(text_header("content-type", "application/json"));
    let text = body.write();
    let r = ProxyResponse { status, headers, body: text_bytes(text.as_str()) };
    assert(r@.headers =~= seq![("content-type"@, vstd::utf8::encode_utf8("application/json"@))]);
    r
}

impl AppError {
    /// The status of the response to a client.
    pub open spec fn spec_status(self) -> nat {
        match self {
            AppError::Upstream(_) => 502,
            AppError::Database(_) => 500,
            AppError::Body => 400,
            AppError::Internal(_) => 500,
        }
    }

    /// What the client is told.
    pub open spec fn spec_message(self) -> Seq<char> {
        match self {
            AppError::Upstream(e) => "upstream request failed: "@ + e@,
            AppError::Database(e) => "database error: "@ + e@,
            AppError::Body => "body too large or unreadable"@,
            AppError::Internal(e) => e@,
        }
    }

    /// What went wrong, in words.
    pub fn message(&self) -> (r: String)
        ensures
            r@ == self.spec_message(),
    {
        match self {
            AppError::Upstream(e) => "upstream request failed: ".to_owned().concat(e.as_str()),
            AppError::Database(e) => "database error: ".to_owned().concat(e.as_str()),
            AppError::Body => "body too large or unreadable".to_owned(),
            AppError::Internal(e) => e.clone(),
        }
    }

    /// The response to a client.
    pub fn into_response(self) -> (r: ProxyResponse)
        ensures
            r@ == json_response(self.spec_status(), error_json("M_UNKNOWN"@, self.spec_message())),
            crate::json::decoded(r@.body) == Some(
                error_json("M_UNKNOWN"@, self.spec_message()),
            ),
    {
        let status: u16 = match &self {
            AppError::Upstream(_) => 502,
            AppError::Database(_) => 500,
            AppError::Body => 400,
            AppError::Internal(_) => 500,
        };
        let message = self.message();
        error_response(status, "M_UNKNOWN", message.as_str())
    }
}

} // verus!
