//! The client of the Gemini API: which API it talks to, and with which
//! HTTP settings.

use crate::gemini::http::{genai_settings, paced_options, vertex_settings, ClientSettings, HttpClient};
use crate::gemini::types::{default_options, options_view, HttpOptions};
use vstd::prelude::*;

verus! {

/// A client of the Gemini Developer API or of Vertex AI.
#[derive(Debug, Clone)]
pub struct Client {
    http_client: HttpClient,
    vertexai: bool,
}

/// A client as the contracts see it: its HTTP settings and whether it
/// talks to Vertex AI.
pub struct ClientView {
    pub http: ClientSettings,
    pub vertexai: bool,
}

impl View for Client {
    type V = ClientView;

    closed spec fn view(&self) -> ClientView {
        ClientView { http: self.http_client@, vertexai: self.vertexai }
    }
}

impl Client {
    /// A client of the Gemini Developer API with the default options.
    pub fn with_api_key(api_key: String) -> (c: Self)
        ensures
            c@.http == genai_settings(api_key@, default_options()),
            !c@.vertexai,
    {
        Client { http_client: HttpClient::with_api_key(api_key), vertexai: false }
    }

    /// A client of Vertex AI with the default options.
    pub fn with_vertex_ai(project_id: String, location: String) -> (c: Self)
        ensures
            c@.http == vertex_settings(project_id@, location@, default_options()),
            c@.vertexai,
    {
        Client { http_client: HttpClient::with_vertex_ai(project_id, location), vertexai: true }
    }

    /// A client with the given options: of the Gemini Developer API when a
    /// key is given, else of Vertex AI. It counts as a Vertex AI client
    /// whenever a project is given.
    pub fn with_options(
        api_key: Option<String>,
        project_id: Option<String>,
        location: Option<String>,
        options: HttpOptions,
    ) -> (c: Self)
        requires
            api_key is Some || (project_id is Some && location is Some),
        ensures
            c@.vertexai == project_id is Some,
            match api_key {
                Some(k) => c@.http == genai_settings(k@, options_view(options)),
                None => c@.http == vertex_settings(project_id->0@, location->0@, options_view(options)),
            },
    {
        let is_vertex = project_id.is_some();
        let http_client = match api_key {
            Some(key) => HttpClient::with_api_key_and_options(key, options),
            None => match (project_id, location) {
                (Some(p), Some(l)) => HttpClient::with_vertex_ai_and_options(p, l, options),
                _ => HttpClient::with_api_key_and_options(String::new(), options),
            },
        };
        Client { http_client, vertexai: is_vertex }
    }

    /// A client of the Gemini Developer API that paces itself (see
    /// `HttpClient::with_gemini_rate_limits`).
    pub fn with_api_key_rate_limited(api_key: String) -> (c: Self)
        ensures
            c@.http == genai_settings(api_key@, paced_options(28)),
            !c@.vertexai,
    {
        Client { http_client: HttpClient::with_gemini_rate_limits(api_key), vertexai: false }
    }

    /// A client of Vertex AI that paces itself (see
    /// `HttpClient::with_vertex_ai_rate_limits`).
    pub fn with_vertex_ai_rate_limited(project_id: String, location: String) -> (c: Self)
        ensures
            c@.http == vertex_settings(project_id@, location@, paced_options(25)),
            c@.vertexai,
    {
        Client { http_client: HttpClient::with_vertex_ai_rate_limits(project_id, location), vertexai: true }
    }

    /// A client like `client` but with the default options; it keeps the
    /// key of `client`, which must have one.
    pub fn default_from_client(client: &Client) -> (c: Self)
        requires
            client@.http.api_key is Some,
        ensures
            c@.http == genai_settings(client@.http.api_key->0, default_options()),
            c@.vertexai == client@.vertexai,
    {
        Client { http_client: client.http_client.reset_default_options(), vertexai: client.vertexai }
    }

    /// Whether the client talks to Vertex AI.
    pub fn is_vertex_ai(&self) -> (b: bool)
        ensures
            b == self@.vertexai,
    {
        self.vertexai
    }

    /// The HTTP settings and decisions of the client.
    pub fn http_client(&self) -> (h: &HttpClient)
        ensures
            h@ == self@.http,
    {
        &self.http_client
    }
}

} // verus!
