use hal::gemini::client::Client;
use hal::gemini::http::{capped_retry_delay, Admission, HttpClient, RequestWindow, ResponseStep, WINDOW_NANOS};
use hal::gemini::models::{
    chat_id, chat_turn_contents, compute_tokens_path, count_tokens_path, embed_content_path, file_path,
    generate_content_path, messages_path,
};
use hal::gemini::types::{Candidate, Content, GenerateContentResponse, HttpOptions, ImageData, Part};
use hal::Error;

#[test]
fn test_client_creation_with_api_key() {
    let client = Client::with_api_key("test-api-key".to_string());
    assert!(!client.is_vertex_ai());
}

#[test]
fn test_client_creation_with_vertex_ai() {
    let client = Client::with_vertex_ai("test-project".to_string(), "us-central1".to_string());
    assert!(client.is_vertex_ai());
}

#[test]
fn genai_and_vertex_urls() {
    let c = HttpClient::with_api_key("k".to_string());
    assert_eq!(
        c.build_genai_url("models/gemini-pro:generateContent").unwrap(),
        "https://generativelanguage.googleapis.com/v1beta/models/gemini-pro:generateContent"
    );
    assert!(matches!(c.build_vertex_url("x"), Err(Error::Auth(m)) if m == "Missing project_id or location for Vertex AI"));
    let v = HttpClient::with_vertex_ai("p1".to_string(), "us-central1".to_string());
    assert_eq!(
        v.build_vertex_url("models/m:countTokens").unwrap(),
        "https://us-central1-aiplatform.googleapis.com/v1beta/projects/p1/locations/us-central1/models/m:countTokens"
    );
    assert_eq!(v.api_key(), None);
    assert_eq!(c.api_key().as_deref(), Some("k"));
}

#[test]
fn invalid_url_is_reported() {
    let v = HttpClient::with_vertex_ai("p".to_string(), "bad location".to_string());
    match v.request_url("x", true) {
        Err(Error::Other(m)) => assert!(m.starts_with("Invalid URL: ")),
        other => panic!("unexpected {:?}", other),
    }
}

fn paced(rpm: u32, wait: bool) -> HttpClient {
    let mut options = HttpOptions::default();
    options.enable_client_side_rate_limiting = true;
    options.requests_per_minute = rpm;
    options.wait_when_rate_limited = wait;
    HttpClient::with_api_key_and_options("test-key".to_string(), options)
}

#[test]
fn test_client_side_rate_limiting() {
    let client = paced(3, false);
    let mut window = RequestWindow::new();
    for i in 0..3u64 {
        assert_eq!(
            client.check_rate_limit(&mut window, 1_000 + i).unwrap(),
            Admission::Admitted { in_window: (i + 1) as usize }
        );
    }
    let result = client.check_rate_limit(&mut window, 2_000);
    assert!(matches!(result, Err(Error::RateLimit { retry_after_secs: 60 })));
    assert_eq!(window.len(), 3);
}

#[test]
fn test_client_side_rate_limiting_with_waiting() {
    let client = paced(3, true);
    let mut window = RequestWindow::new();
    for i in 0..3u64 {
        client.check_rate_limit(&mut window, i * 1_000_000_000).unwrap();
    }
    // Ten seconds after the first request, the window is full: wait until it leaves.
    assert_eq!(
        client.check_rate_limit(&mut window, 10_000_000_000).unwrap(),
        Admission::WaitFor { nanos: WINDOW_NANOS - 10_000_000_000 }
    );
    // 61 seconds after the first request, it has left the window.
    assert_eq!(
        client.check_rate_limit(&mut window, 61_000_000_000).unwrap(),
        Admission::Admitted { in_window: 3 }
    );
}

#[test]
fn pacing_off_lets_everything_through() {
    let client = HttpClient::with_api_key("k".to_string());
    let mut window = RequestWindow::new();
    for i in 0..100u64 {
        assert_eq!(client.check_rate_limit(&mut window, i).unwrap(), Admission::Unlimited);
    }
    assert_eq!(window.len(), 0);
}

#[test]
fn rate_limited_answer_slows_pacing() {
    let mut window = RequestWindow::new();
    window.note_rate_limited(20_000_000_000);
    assert_eq!(window.len(), 3);
    let client = paced(3, false);
    assert!(client.check_rate_limit(&mut window, 21_000_000_000).is_err());
}

fn retrying(max_retries: u32, default_secs: u64) -> HttpClient {
    let mut options = HttpOptions::default();
    options.retry_on_rate_limit = true;
    options.max_retries = max_retries;
    options.default_retry_after_secs = default_secs;
    HttpClient::with_api_key_and_options("test-key".to_string(), options)
}

#[test]
fn test_rate_limit_retry_success() {
    let client = retrying(3, 1);
    let first = client.on_response(429, "{}".to_string(), Some(1), 0);
    assert_eq!(first, ResponseStep::Retry { attempts: 1, base_delay_secs: 1 });
    let second = client.on_response(200, "{\"message\": \"success after retry\"}".to_string(), None, 1);
    assert_eq!(second, ResponseStep::Deliver("{\"message\": \"success after retry\"}".to_string()));
}

#[test]
fn test_rate_limit_max_retries_exceeded() {
    let client = retrying(1, 1);
    assert_eq!(
        client.on_response(429, String::new(), Some(1), 0),
        ResponseStep::Retry { attempts: 1, base_delay_secs: 1 }
    );
    assert_eq!(
        client.on_response(429, String::new(), Some(1), 1),
        ResponseStep::Fail(Error::RateLimit { retry_after_secs: 1 })
    );
}

#[test]
fn backoff_doubles_and_saturates() {
    let client = retrying(10, 3);
    assert_eq!(
        client.on_response(429, String::new(), None, 2),
        ResponseStep::Retry { attempts: 3, base_delay_secs: 12 }
    );
    let big = retrying(100, 1);
    assert_eq!(
        big.on_response(429, String::new(), Some(u64::MAX / 2 + 1), 1),
        ResponseStep::Retry { attempts: 2, base_delay_secs: u64::MAX }
    );
    assert_eq!(capped_retry_delay(7), 7);
    assert_eq!(capped_retry_delay(75), 60);
}

#[test]
fn http_test_error_handling() {
    let client = HttpClient::with_api_key("test-key".to_string());
    assert_eq!(
        client.on_response(501, "Not Implemented".to_string(), None, 0),
        ResponseStep::Fail(Error::Unsupported("Operation not supported: Not Implemented".to_string()))
    );
    assert_eq!(
        client.on_response(401, "no".to_string(), None, 0),
        ResponseStep::Fail(Error::Auth("Invalid API key or credentials".to_string()))
    );
    assert_eq!(
        client.on_response(404, "missing".to_string(), None, 0),
        ResponseStep::Fail(Error::Api { status_code: 404, message: "missing".to_string() })
    );
    assert_eq!(
        client.on_response(429, String::new(), None, 0),
        ResponseStep::Fail(Error::RateLimit { retry_after_secs: 60 })
    );
}

#[test]
fn request_paths() {
    assert_eq!(generate_content_path("gemini-pro"), "models/gemini-pro:generateContent");
    assert_eq!(count_tokens_path("gemini-pro"), "models/gemini-pro:countTokens");
    assert_eq!(embed_content_path("e"), "models/e/embedContent");
    assert_eq!(compute_tokens_path("m", true).unwrap(), "models/m/computeTokens");
    assert!(matches!(compute_tokens_path("m", false), Err(Error::Unsupported(m)) if m == "compute_tokens is only available in Vertex AI"));
    assert_eq!(file_path("files/123"), "files/files/123");
    assert_eq!(chat_id("abc"), "chats/abc");
    assert_eq!(messages_path("chats/test-chat-id"), "chats/test-chat-id/messages");
}

#[test]
fn content_builders() {
    let c = Content::new().with_role("user").with_text("Hello").with_image_base64("aGk=", "image/png");
    assert_eq!(c.role.as_deref(), Some("user"));
    assert_eq!(c.parts.len(), 2);
    assert!(matches!(&c.parts[0], Part::Text(t) if t == "Hello"));
    match &c.parts[1] {
        Part::Image(img) => {
            assert_eq!(img.mime_type, "image/png");
            assert!(matches!(&img.data, ImageData::Base64(d) if d == "aGk="));
        }
        _ => panic!("expected an image"),
    }
}

#[test]
fn image_part_from_bytes_is_base64() {
    match Part::from_bytes(b"hello!!".to_vec(), "text/plain") {
        Part::Image(img) => assert!(matches!(img.data, ImageData::Base64(d) if d == "aGVsbG8hIQ==")),
        _ => panic!("expected an image"),
    }
}

#[test]
fn response_text_is_first_text_part() {
    let content = Content::new().with_image_base64("x", "image/png").with_text("Generated text").with_text("more");
    let r = GenerateContentResponse {
        candidates: vec![Candidate { content: Some(content), finish_reason: None, safety_ratings: None }],
        prompt_feedback: None,
    };
    assert_eq!(r.text(), "Generated text");
    let empty = GenerateContentResponse { candidates: vec![], prompt_feedback: None };
    assert_eq!(empty.text(), "");
}

#[test]
fn chat_turn_appends_user_message() {
    let history = vec![Content::new().with_role("model").with_text("Hi")];
    let cs = chat_turn_contents(Some(history), "Hello");
    assert_eq!(cs.len(), 2);
    assert_eq!(cs[1].role.as_deref(), Some("user"));
    assert!(matches!(&cs[1].parts[0], Part::Text(t) if t == "Hello"));
    assert_eq!(chat_turn_contents(None, "x").len(), 1);
}

#[test]
fn http_options_defaults() {
    let o = HttpOptions::default();
    assert_eq!(o.api_version, "v1beta");
    assert!(!o.retry_on_rate_limit);
    assert_eq!(o.max_retries, 3);
    assert_eq!(o.default_retry_after_secs, 60);
    assert!(!o.enable_client_side_rate_limiting);
    assert_eq!(o.requests_per_minute, 30);
    assert!(o.wait_when_rate_limited);
}

#[test]
fn with_options_picks_api() {
    let c = Client::with_options(None, Some("p".to_string()), Some("l".to_string()), HttpOptions::default());
    assert!(c.is_vertex_ai());
    assert_eq!(
        c.http_client().build_vertex_url("a").unwrap(),
        "https://l-aiplatform.googleapis.com/v1beta/projects/p/locations/l/a"
    );
    let k = Client::with_options(Some("key".to_string()), None, None, HttpOptions::default());
    assert!(!k.is_vertex_ai());
    let d = Client::default_from_client(&Client::with_api_key_rate_limited("key".to_string()));
    assert_eq!(d.http_client().api_key().as_deref(), Some("key"));
}

#[test]
fn test_requests_per_minute_of_paced_clients() {
    let genai = HttpClient::with_gemini_rate_limits("key".to_string());
    assert_eq!(genai.requests_per_minute(), 28);
    let vertex = HttpClient::with_vertex_ai_rate_limits("project".to_string(), "us-central1".to_string());
    assert_eq!(vertex.requests_per_minute(), 25);
}
