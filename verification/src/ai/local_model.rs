//! Configuration and wire framing for the local Ollama endpoint.
//!
//! `LocalModel` holds the endpoint URL, the model name and the analysis
//! prompt.  The request body for a generation and the interpretation of
//! the endpoint's replies are built and checked here; the HTTP round
//! trips themselves happen outside the library and hand bodies in and
//! out as plain bytes.

use base64::Engine;
use vstd::prelude::*;
use vstd::string::*;

use crate::json::{escape_bytes, extract_response, fits_scan, key_response, spec_escape,
    spec_string_member, spec_tags_lists_model, tags_lists_model};
use crate::text::push_all;

verus! {

/// The prompt used when the caller has not set one.
pub open spec fn default_prompt() -> Seq<u8> {
    "Describe what you see in this image in detail, focusing on any text, UI elements, and visual content.".spec_bytes()
}

/// The endpoint used when no host is configured.
pub open spec fn default_ollama_url() -> Seq<u8> {
    "http://localhost:11434".spec_bytes()
}

/// The standard base64 encoding (with padding) of a byte string: a
/// function of the bytes alone.
pub uninterp spec fn base64_of(b: Seq<u8>) -> Seq<u8>;

/// Relies on base64's Engine::encode with the STANDARD engine: RFC 4648
/// base64 with padding, four output characters for every three input
/// bytes, deterministic in the input.
#[verifier::external_body]
fn base64_encode(b: &[u8]) -> (r: Vec<u8>)
    requires
        b@.len() <= 0x1000_0000_0000_0000,
    ensures
        r@ == base64_of(b@),
        r@.len() == 4 * ((b@.len() + 2) / 3),
{
    base64::engine::general_purpose::STANDARD.encode(b).into_bytes()
}

/// What errors the endpoint interaction can signal before or after the
/// round trip itself.
#[derive(Clone, Copy, PartialEq, Eq, Structural, Debug)]
pub enum ApiError {
    /// The tag listing could not be read as JSON.
    BadTagsPayload,
    /// The generation reply held no readable `response` member.
    BadResponsePayload,
}

/// Connector configuration for the local Ollama endpoint.
pub struct LocalModel {
    pub ollama_url: Vec<u8>,
    pub model_name: Vec<u8>,
    pub prompt: Vec<u8>,
}

impl LocalModel {
    /// Set up a connector for the named model.  `host` is the
    /// configured endpoint URL, if any; without one the default local
    /// endpoint is used.  The prompt starts at its default.
    pub fn new(model_path: &str, host: Option<&str>) -> (r: Self)
        ensures
            r.model_name@ == model_path.spec_bytes(),
            r.prompt@ == default_prompt(),
            match host {
                Some(h) => r.ollama_url@ == h.spec_bytes(),
                None => r.ollama_url@ == default_ollama_url(),
            },
    {
        let url: Vec<u8> = match host {
            Some(h) => h.as_bytes_vec(),
            None => "http://localhost:11434".as_bytes_vec(),
        };
        LocalModel {
            ollama_url: url,
            model_name: model_path.as_bytes_vec(),
            prompt:
                "Describe what you see in this image in detail, focusing on any text, UI elements, and visual content.".as_bytes_vec(),
        }
    }

    /// Set a custom prompt for image analysis.
    pub fn set_prompt(&mut self, prompt: &str)
        ensures
            final(self).prompt@ == prompt.spec_bytes(),
            final(self).ollama_url == old(self).ollama_url,
            final(self).model_name == old(self).model_name,
    {
        self.prompt = prompt.as_bytes_vec();
    }

    /// Reset to the default prompt.
    pub fn reset_prompt(&mut self)
        ensures
            final(self).prompt@ == default_prompt(),
            final(self).ollama_url == old(self).ollama_url,
            final(self).model_name == old(self).model_name,
    {
        self.prompt =
            "Describe what you see in this image in detail, focusing on any text, UI elements, and visual content.".as_bytes_vec();
    }

    /// The URL of the tag listing.
    pub fn tags_url(&self) -> (r: Vec<u8>)
        ensures
            r@ == self.ollama_url@ + "/api/tags".spec_bytes(),
    {
        let mut url = self.ollama_url.clone();
        push_all(&mut url, "/api/tags".as_bytes());
        url
    }

    /// The URL of the generation endpoint.
    pub fn generate_url(&self) -> (r: Vec<u8>)
        ensures
            r@ == self.ollama_url@ + "/api/generate".spec_bytes(),
    {
        let mut url = self.ollama_url.clone();
        push_all(&mut url, "/api/generate".as_bytes());
        url
    }

    /// The JSON body of a generation request: the model, the prompt,
    /// the image in base64, and streaming off.
    pub fn generate_request_body(&self, image_data: &[u8]) -> (r: Vec<u8>)
        requires
            image_data@.len() <= 0x1000_0000_0000_0000,
        ensures
            r@ == spec_generate_body(
                self.model_name@,
                self.prompt@,
                base64_of(image_data@),
            ),
    {
        let b64 = base64_encode(image_data);
        let mut body: Vec<u8> = "{\"model\":\"".as_bytes_vec();
        let esc_model = escape_bytes(self.model_name.as_slice());
        push_all(&mut body, esc_model.as_slice());
        push_all(&mut body, "\",\"prompt\":\"".as_bytes());
        let esc_prompt = escape_bytes(self.prompt.as_slice());
        push_all(&mut body, esc_prompt.as_slice());
        push_all(&mut body, "\",\"images\":[\"".as_bytes());
        push_all(&mut body, b64.as_slice());
        push_all(&mut body, "\"],\"stream\":false}".as_bytes());
        body
    }

    /// What the tag listing says about this connector's model.  A
    /// listing that cannot be read is an error; an unsuccessful status
    /// means the model cannot be confirmed.
    pub fn model_available(&self, status_ok: bool, tags_body: &[u8]) -> (r: Result<
        bool,
        ApiError,
    >)
        requires
            fits_scan(tags_body@),
        ensures
            !status_ok ==> r == Result::<bool, ApiError>::Ok(false),
            status_ok ==> match spec_tags_lists_model(tags_body@, self.model_name@) {
                Some(b) => r == Result::<bool, ApiError>::Ok(b),
                None => r == Result::<bool, ApiError>::Err(ApiError::BadTagsPayload),
            },
    {
        if !status_ok {
            return Ok(false);
        }
        match tags_lists_model(tags_body, self.model_name.as_slice()) {
            Some(b) => Ok(b),
            None => Err(ApiError::BadTagsPayload),
        }
    }
}

/// The generation request body around an escaped model name, an escaped
/// prompt and a base64 image.
pub open spec fn spec_generate_body(model: Seq<u8>, prompt: Seq<u8>, b64: Seq<u8>) -> Seq<u8> {
    "{\"model\":\"".spec_bytes() + spec_escape(model) + "\",\"prompt\":\"".spec_bytes()
        + spec_escape(prompt) + "\",\"images\":[\"".spec_bytes() + b64
        + "\"],\"stream\":false}".spec_bytes()
}

/// The JSON body of a model pull request.
pub open spec fn spec_pull_body(model: Seq<u8>) -> Seq<u8> {
    "{\"name\":\"".spec_bytes() + spec_escape(model) + "\",\"stream\":true}".spec_bytes()
}

/// Build the body of a model pull request.
pub fn pull_request_body(model: &[u8]) -> (r: Vec<u8>)
    ensures
        r@ == spec_pull_body(model@),
{
    let mut body: Vec<u8> = "{\"name\":\"".as_bytes_vec();
    let esc = escape_bytes(model);
    push_all(&mut body, esc.as_slice());
    push_all(&mut body, "\",\"stream\":true}".as_bytes());
    body
}

/// The failure text for a model the endpoint does not list.
pub open spec fn spec_model_missing_text(model: Seq<u8>) -> Seq<u8> {
    "Model '".spec_bytes() + model + "' not found. Pull it with: ollama pull ".spec_bytes()
        + model
}

/// Failure text for a model the endpoint does not list; it names the
/// missing model, so the dispatcher's classification appends the pull
/// hint.
pub fn model_missing_text(model: &[u8]) -> (r: Vec<u8>)
    ensures
        r@ == spec_model_missing_text(model@),
{
    let mut t: Vec<u8> = "Model '".as_bytes_vec();
    push_all(&mut t, model);
    push_all(&mut t, "' not found. Pull it with: ollama pull ".as_bytes());
    push_all(&mut t, model);
    t
}

/// Failure text for a generation that timed out.
pub fn timeout_text() -> (r: Vec<u8>)
    ensures
        r@ == "Request timed out after 5 minutes. The model might be too large or your system may need more resources.".spec_bytes(),
{
    "Request timed out after 5 minutes. The model might be too large or your system may need more resources.".as_bytes_vec()
}

/// The failure text around an endpoint error description.
pub open spec fn spec_api_error_text(detail: Seq<u8>) -> Seq<u8> {
    "Ollama API error: ".spec_bytes() + detail
}

/// Failure text around an endpoint error description.
pub fn api_error_text(detail: &[u8]) -> (r: Vec<u8>)
    ensures
        r@ == spec_api_error_text(detail@),
{
    let mut t: Vec<u8> = "Ollama API error: ".as_bytes_vec();
    push_all(&mut t, detail);
    t
}

/// Read a generation reply: the `response` member's text on success, or
/// an error when the body holds no readable `response` string.
pub fn parse_generate_response(body: &[u8]) -> (r: Result<Vec<u8>, ApiError>)
    requires
        fits_scan(body@),
    ensures
        match r {
            Ok(v) => spec_string_member(body@, key_response()) == Some(v@),
            Err(e) => e == ApiError::BadResponsePayload && spec_string_member(
                body@,
                key_response(),
            ) is None,
        },
{
    match extract_response(body) {
        Some(v) => Ok(v),
        None => Err(ApiError::BadResponsePayload),
    }
}

} // verus!
