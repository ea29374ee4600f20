//! The agent's unified failure facade.
//!
//! Collaborators wrap every foreign failure into [`Error`] through one named
//! constructor per failure category. The value is opaque: no accessor exposes
//! the variant or its fields to executable callers; the only observable
//! surface is the single-line rendered message. When one failure is embedded
//! inside another, only its rendered text is retained, never the structured
//! cause, so the original sub-error is not recoverable after composition.

use vstd::prelude::*;

use crate::status_code::StatusCode;
use crate::status_code::status_display;

verus! {

/// Declares `std::io::Error` so constructors can absorb platform I/O failures.
#[verifier::external_type_specification]
#[verifier::external_body]
pub struct ExIoError(std::io::Error);

/// Declares `hex::FromHexError`, the cause of a malformed hex-encoded key.
#[verifier::external_type_specification]
#[verifier::external_body]
pub struct ExFromHexError(hex::FromHexError);

/// Declares `http::uri::InvalidUri`, the cause of a URL parse failure.
#[verifier::external_type_specification]
#[verifier::external_body]
pub struct ExInvalidUri(http::uri::InvalidUri);

/// Names one of the three wire-endpoint operations a failure came from.
/// The operation's free-text detail travels in the enclosing `Error`.
#[derive(Debug, Clone, Copy, PartialEq, Eq, Structural)]
pub enum WireServerErrorType {
    Telemetry,
    GoalState,
    SharedConfig,
}

/// Transport and HTTP-client failure kinds. `Custom` carries the transport
/// cause as the text it rendered to, already flattened by the caller.
pub enum HyperErrorType {
    Custom(String, String),
    RequestBuilder(String),
    ServerError(String, StatusCode),
    Deserialize(String),
}

/// Key-lifecycle failure kinds.
pub enum KeyErrorType {
    KeyStatusValidation(String),
    SendKeyRequest(String, String),
    KeyResponse(String, StatusCode),
    ParseKeyUrl(String, String, http::uri::InvalidUri),
}

/// Ghost image of a transport failure: every foreign cause reduced to the
/// text it rendered to when the `Error` was built.
pub enum HyperErrorSpec {
    Custom(Seq<char>, Seq<char>),
    RequestBuilder(Seq<char>),
    ServerError(Seq<char>, u16),
    Deserialize(Seq<char>),
}

/// Ghost image of a key-lifecycle failure.
pub enum KeyErrorSpec {
    KeyStatusValidation(Seq<char>),
    SendKeyRequest(Seq<char>, Seq<char>),
    KeyResponse(Seq<char>, u16),
    ParseKeyUrl(Seq<char>, Seq<char>, Seq<char>),
}

/// Ghost image of an [`Error`]: which category it holds and the plain data
/// its rendering is computed from.
pub enum ErrorSpec {
    IO(Seq<char>, Seq<char>),
    Hyper(HyperErrorSpec),
    Hex(Seq<char>, Seq<char>),
    Key(KeyErrorSpec),
    WireServer(WireServerErrorType, Seq<char>),
    ParseUrl(Seq<char>, Seq<char>),
}

enum HyperData {
    Custom(String, String),
    RequestBuilder(String),
    ServerError(String, StatusCode),
    Deserialize(String),
}

enum KeyData {
    KeyStatusValidation(String),
    SendKeyRequest(String, String),
    KeyResponse(String, StatusCode),
    ParseKeyUrl(String, String, String),
}

enum ErrorData {
    IO(String, String),
    Hyper(HyperData),
    Hex(String, String),
    Key(KeyData),
    WireServer(WireServerErrorType, String),
    ParseUrl(String, String),
}

/// The single opaque failure type. Exactly one category, fixed at
/// construction; immutable afterwards.
pub struct Error(Box<ErrorData>);

spec fn hyper_data_view(d: HyperData) -> HyperErrorSpec {
    match d {
        HyperData::Custom(m, c) => HyperErrorSpec::Custom(m@, c@),
        HyperData::RequestBuilder(m) => HyperErrorSpec::RequestBuilder(m@),
        HyperData::ServerError(t, s) => HyperErrorSpec::ServerError(t@, s.spec_code()),
        HyperData::Deserialize(m) => HyperErrorSpec::Deserialize(m@),
    }
}

spec fn key_data_view(d: KeyData) -> KeyErrorSpec {
    match d {
        KeyData::KeyStatusValidation(m) => KeyErrorSpec::KeyStatusValidation(m@),
        KeyData::SendKeyRequest(a, t) => KeyErrorSpec::SendKeyRequest(a@, t@),
        KeyData::KeyResponse(a, s) => KeyErrorSpec::KeyResponse(a@, s.spec_code()),
        KeyData::ParseKeyUrl(b, p, c) => KeyErrorSpec::ParseKeyUrl(b@, p@, c@),
    }
}

spec fn error_data_view(d: ErrorData) -> ErrorSpec {
    match d {
        ErrorData::IO(m, c) => ErrorSpec::IO(m@, c@),
        ErrorData::Hyper(h) => ErrorSpec::Hyper(hyper_data_view(h)),
        ErrorData::Hex(m, c) => ErrorSpec::Hex(m@, c@),
        ErrorData::Key(k) => ErrorSpec::Key(key_data_view(k)),
        ErrorData::WireServer(w, m) => ErrorSpec::WireServer(w, m@),
        ErrorData::ParseUrl(u, m) => ErrorSpec::ParseUrl(u@, m@),
    }
}

impl View for Error {
    type V = ErrorSpec;

    closed spec fn view(&self) -> ErrorSpec {
        error_data_view(*self.0)
    }
}

/// The fixed template a wire-endpoint operation tag renders to.
pub open spec fn render_wire_server(w: WireServerErrorType) -> Seq<char> {
    match w {
        WireServerErrorType::Telemetry => "Telemetry call to wire server failed"@,
        WireServerErrorType::GoalState => "Goal state call to wire server failed"@,
        WireServerErrorType::SharedConfig => "Shared config call to wire server failed"@,
    }
}

/// The fixed template a transport failure renders to.
pub open spec fn render_hyper(h: HyperErrorSpec) -> Seq<char> {
    match h {
        HyperErrorSpec::Custom(m, c) => m + ": "@ + c,
        HyperErrorSpec::RequestBuilder(m) => "Failed to build request with error: "@ + m,
        HyperErrorSpec::ServerError(t, code) => "Failed to get response from "@ + t
            + ", status code: "@ + status_display(code as int),
        HyperErrorSpec::Deserialize(m) => "Deserialization failed: "@ + m,
    }
}

/// The fixed template a key-lifecycle failure renders to.
pub open spec fn render_key(k: KeyErrorSpec) -> Seq<char> {
    match k {
        KeyErrorSpec::KeyStatusValidation(m) => "Key status validation failed with the error: "@
            + m,
        KeyErrorSpec::SendKeyRequest(a, t) => "Failed to send "@ + a + " key with error: "@ + t,
        KeyErrorSpec::KeyResponse(a, code) => "Failed to "@ + a + " key with status code: "@
            + status_display(code as int),
        KeyErrorSpec::ParseKeyUrl(b, p, c) => "Failed to join "@ + b + " and "@ + p
            + " with error: "@ + c,
    }
}

/// The single-line message an [`Error`] renders to: a pure, deterministic
/// function of the held data.
pub open spec fn render_error(e: ErrorSpec) -> Seq<char> {
    match e {
        ErrorSpec::IO(m, c) => "IO error: "@ + m + ": "@ + c,
        ErrorSpec::Hyper(h) => render_hyper(h),
        ErrorSpec::Hex(m, c) => "Hex encoded key '"@ + m + "' is invalid: "@ + c,
        ErrorSpec::Key(k) => "Key error: "@ + render_key(k),
        ErrorSpec::WireServer(w, m) => render_wire_server(w) + " with the error: "@ + m,
        ErrorSpec::ParseUrl(u, m) => "Failed to parse URL "@ + u + " with error: "@ + m,
    }
}

impl Error {
    fn new(error: ErrorData) -> (r: Self)
        ensures
            r@ == error_data_view(error),
    {
        Self(Box::new(error))
    }

    /// A local storage or filesystem failure, with the caller's context.
    pub fn io(message: String, error: std::io::Error) -> (r: Self)
        ensures
            r@ matches ErrorSpec::IO(m, _) && m == message@,
    {
        let cause = foreign_display(&error);
        Self::new(ErrorData::IO(message, cause))
    }

    /// A transport or HTTP-client failure.
    pub fn hyper(error: HyperErrorType) -> (r: Self)
        ensures
            match error {
                HyperErrorType::Custom(m, c) => r@ == ErrorSpec::Hyper(
                    HyperErrorSpec::Custom(m@, c@),
                ),
                HyperErrorType::RequestBuilder(m) => r@ == ErrorSpec::Hyper(
                    HyperErrorSpec::RequestBuilder(m@),
                ),
                HyperErrorType::ServerError(t, s) => r@ == ErrorSpec::Hyper(
                    HyperErrorSpec::ServerError(t@, s.spec_code()),
                ),
                HyperErrorType::Deserialize(m) => r@ == ErrorSpec::Hyper(
                    HyperErrorSpec::Deserialize(m@),
                ),
            },
    {
        let data = match error {
            HyperErrorType::Custom(m, c) => HyperData::Custom(m, c),
            HyperErrorType::RequestBuilder(m) => HyperData::RequestBuilder(m),
            HyperErrorType::ServerError(t, s) => HyperData::ServerError(t, s),
            HyperErrorType::Deserialize(m) => HyperData::Deserialize(m),
        };
        Self::new(ErrorData::Hyper(data))
    }

    /// Malformed hex-encoded key material, with the offending text.
    pub fn hex(message: String, error: hex::FromHexError) -> (r: Self)
        ensures
            r@ matches ErrorSpec::Hex(m, _) && m == message@,
    {
        let cause = foreign_display(&error);
        Self::new(ErrorData::Hex(message, cause))
    }

    /// A key-lifecycle failure.
    pub fn key(error: KeyErrorType) -> (r: Self)
        ensures
            match error {
                KeyErrorType::KeyStatusValidation(m) => r@ == ErrorSpec::Key(
                    KeyErrorSpec::KeyStatusValidation(m@),
                ),
                KeyErrorType::SendKeyRequest(a, t) => r@ == ErrorSpec::Key(
                    KeyErrorSpec::SendKeyRequest(a@, t@),
                ),
                KeyErrorType::KeyResponse(a, s) => r@ == ErrorSpec::Key(
                    KeyErrorSpec::KeyResponse(a@, s.spec_code()),
                ),
                KeyErrorType::ParseKeyUrl(b, p, _) => r@ matches ErrorSpec::Key(
                    KeyErrorSpec::ParseKeyUrl(b2, p2, _),
                ) && b2 == b@ && p2 == p@,
            },
    {
        let data = match error {
            KeyErrorType::KeyStatusValidation(m) => KeyData::KeyStatusValidation(m),
            KeyErrorType::SendKeyRequest(a, t) => KeyData::SendKeyRequest(a, t),
            KeyErrorType::KeyResponse(a, s) => KeyData::KeyResponse(a, s),
            KeyErrorType::ParseKeyUrl(b, p, e) => KeyData::ParseKeyUrl(b, p, foreign_display(&e)),
        };
        Self::new(ErrorData::Key(data))
    }

    /// A malformed URL, keeping the parser's own reason text.
    pub fn parse_url(url: String, error: http::uri::InvalidUri) -> (r: Self)
        ensures
            r@ matches ErrorSpec::ParseUrl(u, _) && u == url@,
    {
        let cause = foreign_display(&error);
        Self::new(ErrorData::ParseUrl(url, cause))
    }

    /// A malformed URL, with a reason the caller already has as text.
    pub fn parse_url_message(url: String, message: String) -> (r: Self)
        ensures
            r@ == ErrorSpec::ParseUrl(url@, message@),
    {
        Self::new(ErrorData::ParseUrl(url, message))
    }

    /// One of the three wire-endpoint operations failed, with free-text detail.
    pub fn wire_server(error_type: WireServerErrorType, message: String) -> (r: Self)
        ensures
            r@ == ErrorSpec::WireServer(error_type, message@),
    {
        Self::new(ErrorData::WireServer(error_type, message))
    }

    /// The rendered single-line message: the facade's only observable surface.
    pub fn to_string(&self) -> (r: String)
        ensures
            r@ == render_error(self@),
    {
        match &*self.0 {
            ErrorData::IO(m, c) => {
                let mut s = String::from_str("IO error: ");
                s.append(m.as_str());
                s.append(": ");
                s.append(c.as_str());
                s
            },
            ErrorData::Hyper(h) => render_hyper_exec(h),
            ErrorData::Hex(m, c) => {
                let mut s = String::from_str("Hex encoded key '");
                s.append(m.as_str());
                s.append("' is invalid: ");
                s.append(c.as_str());
                s
            },
            ErrorData::Key(k) => {
                let mut s = String::from_str("Key error: ");
                let body = render_key_exec(k);
                s.append(body.as_str());
                s
            },
            ErrorData::WireServer(w, m) => {
                let mut s = match w {
                    WireServerErrorType::Telemetry => String::from_str(
                        "Telemetry call to wire server failed",
                    ),
                    WireServerErrorType::GoalState => String::from_str(
                        "Goal state call to wire server failed",
                    ),
                    WireServerErrorType::SharedConfig => String::from_str(
                        "Shared config call to wire server failed",
                    ),
                };
                s.append(" with the error: ");
                s.append(m.as_str());
                s
            },
            ErrorData::ParseUrl(u, m) => {
                let mut s = String::from_str("Failed to parse URL ");
                s.append(u.as_str());
                s.append(" with error: ");
                s.append(m.as_str());
                s
            },
        }
    }
}

fn render_hyper_exec(h: &HyperData) -> (r: String)
    ensures
        r@ == render_hyper(hyper_data_view(*h)),
{
    match h {
        HyperData::Custom(m, c) => {
            let mut s = m.clone();
            s.append(": ");
            s.append(c.as_str());
            s
        },
        HyperData::RequestBuilder(m) => {
            let mut s = String::from_str("Failed to build request with error: ");
            s.append(m.as_str());
            s
        },
        HyperData::ServerError(t, code) => {
            let mut s = String::from_str("Failed to get response from ");
            s.append(t.as_str());
            s.append(", status code: ");
            let line = code.display();
            s.append(line.as_str());
            s
        },
        HyperData::Deserialize(m) => {
            let mut s = String::from_str("Deserialization failed: ");
            s.append(m.as_str());
            s
        },
    }
}

fn render_key_exec(k: &KeyData) -> (r: String)
    ensures
        r@ == render_key(key_data_view(*k)),
{
    match k {
        KeyData::KeyStatusValidation(m) => {
            let mut s = String::from_str("Key status validation failed with the error: ");
            s.append(m.as_str());
            s
        },
        KeyData::SendKeyRequest(a, t) => {
            let mut s = String::from_str("Failed to send ");
            s.append(a.as_str());
            s.append(" key with error: ");
            s.append(t.as_str());
            s
        },
        KeyData::KeyResponse(a, code) => {
            let mut s = String::from_str("Failed to ");
            s.append(a.as_str());
            s.append(" key with status code: ");
            let line = code.display();
            s.append(line.as_str());
            s
        },
        KeyData::ParseKeyUrl(b, p, c) => {
            let mut s = String::from_str("Failed to join ");
            s.append(b.as_str());
            s.append(" and ");
            s.append(p.as_str());
            s.append(" with error: ");
            s.append(c.as_str());
            s
        },
    }
}

/// Relies on `ToString::to_string` through each foreign cause's `Display`
/// impl: the single line of text the cause describes itself with. Nothing is
/// assumed about its contents.
#[verifier::external_body]
fn foreign_display<T: std::fmt::Display>(value: &T) -> String {
    value.to_string()
}

/// Text-flattening composition: embedding one error's rendering inside a
/// key send-request failure yields the outer template with the inner
/// rendering spliced in verbatim, so composition concatenates text and never
/// preserves the inner structure.
pub proof fn lemma_flatten_to_text(action: Seq<char>, inner: ErrorSpec)
    ensures
        render_error(ErrorSpec::Key(KeyErrorSpec::SendKeyRequest(action, render_error(inner))))
            == "Key error: "@ + "Failed to send "@ + action + " key with error: "@ + render_error(
            inner,
        ),
{
}

} // verus!
