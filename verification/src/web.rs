//! The document-conversion endpoint's request and response shapes, its input
//! check, and the HTTP error split the handlers use. Rendering itself and
//! all transport stay outside the library.

use vstd::prelude::*;

use base64::Engine;
use vstd::string::StringExecFns;

verus! {

/// A conversion request: the HTML text to render.
#[derive(Debug)]
pub struct Html2PdfRequest {
    pub blob: String,
}

/// A conversion response: the rendered document, base64-encoded.
#[derive(Debug)]
pub struct Html2PdfResponse {
    pub pdf_base64: String,
}

/// A handler failure: the caller's fault, with a reason, or the service's,
/// whose detail is never surfaced.
#[derive(Debug)]
pub enum HttpError {
    BadRequest(String),
    InternalServerError(String),
}

impl HttpError {
    /// The HTTP status code of this failure.
    pub open spec fn spec_status_code(&self) -> u16 {
        match self {
            HttpError::BadRequest(_) => 400,
            HttpError::InternalServerError(_) => 500,
        }
    }

    /// Executable form of `spec_status_code`.
    pub fn status_code(&self) -> (r: u16)
        ensures
            r == self.spec_status_code(),
    {
        match self {
            HttpError::BadRequest(_) => 400,
            HttpError::InternalServerError(_) => 500,
        }
    }

    /// The response body: a bad request carries its reason; a server error
    /// deliberately hides its detail.
    pub open spec fn spec_body(&self) -> Seq<char> {
        match self {
            HttpError::BadRequest(m) => "Bad Request: "@ + m@,
            HttpError::InternalServerError(_) => "Internal Server Error"@,
        }
    }

    /// Executable form of `spec_body`.
    pub fn body(&self) -> (r: String)
        ensures
            r@ == self.spec_body(),
    {
        match self {
            HttpError::BadRequest(m) => String::from_str("Bad Request: ").concat(m.as_str()),
            HttpError::InternalServerError(_) => String::from_str("Internal Server Error"),
        }
    }
}

/// What base64 standard encoding makes of the bytes: a function of the bytes
/// alone.
pub uninterp spec fn b64_encode_of(b: Seq<u8>) -> Seq<char>;

/// Relies on base64's STANDARD engine: the encoded text of the bytes.
#[verifier::external_body]
fn b64_encode(bytes: &Vec<u8>) -> (r: String)
    ensures
        r@ == b64_encode_of(bytes@),
        bytes@.len() == 0 ==> r@.len() == 0,
{
    base64::engine::general_purpose::STANDARD.encode(bytes.as_slice())
}

/// Rejects a conversion request with no HTML content.
pub fn validate_html_request(req: &Html2PdfRequest) -> (r: Result<(), HttpError>)
    ensures
        r is Ok <==> req.blob@.len() > 0,
        r is Err ==> (r->Err_0 matches HttpError::BadRequest(m) && m@ == "Empty HTML content"@),
{
    if req.blob.as_str().is_empty() {
        Err(HttpError::BadRequest(String::from_str("Empty HTML content")))
    } else {
        Ok(())
    }
}

/// Wraps rendered document bytes into the response, base64-encoded.
pub fn pdf_response_from_bytes(pdf: &Vec<u8>) -> (r: Html2PdfResponse)
    ensures
        r.pdf_base64@ == b64_encode_of(pdf@),
{
    Html2PdfResponse { pdf_base64: b64_encode(pdf) }
}

/// What `url::Url::parse` finds in the text: its scheme and host (the host
/// empty when the URL has none) — a function of the text alone.
pub uninterp spec fn url_scheme_host_of(s: Seq<char>) -> Option<(Seq<char>, Seq<char>)>;

/// Relies on url::Url::parse with Url::scheme and Url::host_str: the parsed
/// URL's scheme and host exactly when the text is a URL.
#[verifier::external_body]
fn url_scheme_host(s: &str) -> (r: Option<(String, String)>)
    ensures
        r is Some <==> url_scheme_host_of(s@) is Some,
        r is Some ==> ({
            let got = r->0;
            let sh = url_scheme_host_of(s@)->0;
            got.0@ == sh.0 && got.1@ == sh.1
        }),
{
    match url::Url::parse(s) {
        Ok(u) => Some((u.scheme().to_string(), u.host_str().unwrap_or("").to_string())),
        Err(_) => None,
    }
}

/// The issuer base of a key-discovery URL: its scheme and host, joined as an
/// origin; nothing when the text is not a URL.
pub fn extract_issuer_from_jwks_url(jwks_url: &str) -> (r: Option<String>)
    ensures
        r is Some <==> url_scheme_host_of(jwks_url@) is Some,
        r is Some ==> ({
            let sh = url_scheme_host_of(jwks_url@)->0;
            r->0@ == sh.0 + "://"@ + sh.1
        }),
{
    match url_scheme_host(jwks_url) {
        Some((scheme, host)) => Some(scheme.concat("://").concat(host.as_str())),
        None => None,
    }
}

} // verus!
