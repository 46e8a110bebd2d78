use grok_tools::attribution::ToolConsumer;
use grok_tools::headers::Header;
use grok_tools::image_gen::{
    decode_image, default_aspect_ratio, image_data, openai_size, read_image, BearerSource, ImageReply,
    ImageGenClient, ImageGenConfig, ImageGenData, ImageGenResponse, ImageGenTool,
    ImageGenerationProvider, CODEX_IMAGE_TURN_ID_HEADER, OPENAI_IMAGE_MODEL, SESSION_ID_HEADER,
    XAI_IMAGINE_MODEL,
};
use grok_tools::json::JsonValue;

const EDIT_MODEL: &str = "grok-imagine-edit";

fn grok_config(
    headers: indexmap::IndexMap<String, String>,
    model: Option<&str>,
    edit_model: Option<&str>,
    tier_restricted: bool,
) -> ImageGenConfig {
    ImageGenConfig::Enabled {
        provider: ImageGenerationProvider::Grok,
        api_key: "k".into(),
        base_url: "https://api.x.ai/v1/".into(),
        extra_headers: headers,
        has_api_key_provider: false,
        image_gen_enabled: true,
        image_edit_enabled: true,
        model_override: model.map(String::from),
        edit_model_override: edit_model.map(String::from),
        tier_restricted,
    }
}

fn openai_config(has_api_key_provider: bool) -> ImageGenConfig {
    let mut headers = indexmap::IndexMap::new();
    headers.insert("Originator".to_owned(), "codex_cli_rs".to_owned());
    ImageGenConfig::Enabled {
        provider: ImageGenerationProvider::OpenAi,
        api_key: "ignored-static-key".into(),
        base_url: "https://example.test".into(),
        extra_headers: headers,
        has_api_key_provider,
        image_gen_enabled: true,
        image_edit_enabled: true,
        model_override: Some("must-not-cross-providers".into()),
        edit_model_override: Some("must-not-cross-providers".into()),
        tier_restricted: true,
    }
}

fn client(config: &ImageGenConfig) -> ImageGenClient {
    ImageGenClient::new(config, false, EDIT_MODEL).unwrap()
}

fn get<'a>(headers: &'a [Header], name: &str) -> Option<&'a str> {
    headers.iter().find(|h| h.name == name).map(|h| h.value.as_str())
}

fn default_header<'a>(client: &'a ImageGenClient, name: &str) -> Option<&'a str> {
    client.headers.get(name).map(|v| v.to_str().unwrap())
}

fn json(v: &JsonValue) -> serde_json::Value {
    serde_json::from_str(&v.text).unwrap()
}

fn parse(s: &str) -> serde_json::Value {
    serde_json::from_str(s).unwrap()
}

#[test]
fn session_headers_remain_provider_local_and_live_bearers_win() {
    let codex = client(&openai_config(true)).with_session_id("xai-session");
    let sent = codex.request_headers(Some("live-codex"), "turn").unwrap();
    assert_eq!(get(&sent, SESSION_ID_HEADER), None);
    assert_eq!(get(&sent, "authorization"), Some("Bearer live-codex"));
    let grok = client(&grok_config(indexmap::IndexMap::new(), None, None, false))
        .with_session_id("xai-session");
    let sent = grok.request_headers(Some("live-grok"), "turn").unwrap();
    assert_eq!(get(&sent, SESSION_ID_HEADER), Some("xai-session"));
    assert_eq!(get(&sent, "authorization"), Some("Bearer live-grok"));
    assert_eq!(default_header(&grok, "authorization"), Some("Bearer k"));
    assert_eq!(default_header(&codex, "authorization"), None);
}

#[test]
fn tool_name_and_description() {
    let m = ImageGenTool.metadata();
    assert_eq!(m.id, "image_gen");
    assert!(m.description.contains("Generate a new image from a text description"));
    assert!(!m.read_only);
}

#[test]
fn default_aspect_ratio_is_auto() {
    assert_eq!(default_aspect_ratio(), "auto");
}

#[test]
fn openai_size_maps_supported_orientations() {
    assert_eq!(openai_size("1:1"), "1024x1024");
    assert_eq!(openai_size("16:9"), "1536x1024");
    assert_eq!(openai_size("9:16"), "1024x1536");
    assert_eq!(openai_size("auto"), "auto");
    assert_eq!(openai_size("unexpected"), "auto");
    assert_eq!(openai_size(" 9:19.5 "), "1024x1536");
}

#[test]
fn openai_generation_matches_codex_images_contract() {
    let client = client(&openai_config(true));
    assert_eq!(client.provider(), ImageGenerationProvider::OpenAi);
    assert_eq!(client.model, OPENAI_IMAGE_MODEL);
    assert_eq!(client.url("generations"), "https://example.test/images/generations");
    assert_eq!(default_header(&client, "originator"), Some("codex_cli_rs"));
    let sent = client.request_headers(Some("codex-token"), "turn-123").unwrap();
    assert_eq!(get(&sent, "authorization"), Some("Bearer codex-token"));
    assert_eq!(get(&sent, CODEX_IMAGE_TURN_ID_HEADER), Some("turn-123"));
    assert_eq!(
        json(&client.generation_payload("a red fox", "16:9")),
        parse(r#"{"model":"gpt-image-2","prompt":"a red fox","background":"auto","quality":"auto","size":"1536x1024"}"#)
    );
    let request = client.generate("a red fox", "16:9", "turn-123", Some("codex-token")).unwrap();
    assert_eq!(request.operation, "generation");
    assert_eq!(request.url, "https://example.test/images/generations");
    assert_eq!(get(&request.headers, CODEX_IMAGE_TURN_ID_HEADER), Some("turn-123"));
    assert_eq!(json(&request.payload), json(&client.generation_payload("a red fox", "16:9")));
    assert!(!client.is_tier_restricted());
    assert_eq!(client.extension, "png");
}

#[test]
fn openai_edit_uses_image_url_array() {
    let client = client(&openai_config(true));
    let references = vec!["data:image/png;base64,AAAA".to_owned()];
    assert_eq!(
        json(&client.edit_payload("make it blue", &references, "9:16").unwrap()),
        parse(
            r#"{"model":"gpt-image-2","prompt":"make it blue","background":"auto","quality":"auto",
                "size":"1024x1536","images":[{"image_url":"data:image/png;base64,AAAA"}]}"#
        )
    );
    let six = vec!["u".to_owned(); 6];
    let err = client.edit("p", &six, "auto", "turn", None).unwrap_err();
    assert_eq!(err.message, "OpenAI image editing accepts at most 5 reference images.");
    let request = client.edit("p", &references, "auto", "turn", Some("t")).unwrap();
    assert_eq!(request.operation, "edit");
    assert_eq!(request.url, "https://example.test/images/edits");
}

#[test]
fn grok_requests_keep_their_own_shape() {
    let client = client(&grok_config(indexmap::IndexMap::new(), None, None, false));
    assert_eq!(client.url("edits"), "https://api.x.ai/v1/images/edits");
    assert_eq!(
        json(&client.generation_payload("p\"q", "1:1")),
        parse(
            r#"{"model":"grok-imagine-image-quality","prompt":"p\"q","n":1,"aspect_ratio":"1:1",
                "resolution":"1k","response_format":"b64_json"}"#
        )
    );
    let one = vec!["a".to_owned()];
    assert_eq!(
        json(&client.edit_payload("p", &one, "1:1").unwrap()),
        parse(
            r#"{"model":"grok-imagine-edit","prompt":"p","n":1,"resolution":"1k",
                "response_format":"b64_json","image":{"url":"a"}}"#
        )
    );
    let two = vec!["a".to_owned(), "b".to_owned()];
    assert_eq!(
        json(&client.edit_payload("p", &two, "1:1").unwrap()),
        parse(
            r#"{"model":"grok-imagine-edit","prompt":"p","n":1,"resolution":"1k",
                "response_format":"b64_json","images":[{"url":"a"},{"url":"b"}],"aspect_ratio":"1:1"}"#
        )
    );
    let sent = client.request_headers(None, "turn").unwrap();
    assert!(sent.is_empty());
}

#[test]
fn image_tool_reuses_logical_turn_id_across_calls() {
    for call_id in ["call-one", "call-two"] {
        assert_eq!(ImageGenTool.turn_id(Some("logical-turn"), call_id), "logical-turn");
        assert_eq!(ImageGenTool.turn_id(None, call_id), call_id);
    }
}

#[test]
fn openai_live_auth_fails_closed_without_current_bearer() {
    let client = client(&openai_config(true));
    assert_eq!(client.bearer_source, BearerSource::Config);
    let error = client.request_headers(None, "turn").unwrap_err();
    assert!(error.message.contains("login --codex"));
    assert_eq!(error.code, "auth_required");
    assert_eq!(error.status, Some(401));
    let told = client.record_401_attribution(true, ToolConsumer::ImageGen, Some("0123456789abXYZ"));
    let told = told.unwrap();
    assert_eq!(told.consumer, ToolConsumer::ImageGen);
    assert_eq!(told.sent_bearer_prefix.as_deref(), Some("0123456789ab"));
    let error = client.generate("p", "auto", "turn", None).unwrap_err();
    assert_eq!(error.code, "auth_required");
}

#[test]
fn openai_without_live_resolver_never_falls_back_to_static_or_legacy_bearer() {
    let client = ImageGenClient::new(&openai_config(false), true, EDIT_MODEL).unwrap();
    assert_eq!(client.bearer_source, BearerSource::Nowhere);
    assert!(client.request_headers(None, "turn").unwrap_err().message.contains("login --codex"));
    let grok = grok_config(indexmap::IndexMap::new(), None, None, false);
    let grok = ImageGenClient::new(&grok, true, EDIT_MODEL).unwrap();
    assert_eq!(grok.bearer_source, BearerSource::Session);
}

#[test]
fn per_tool_gates_are_independent() {
    let cfg = ImageGenConfig::Enabled {
        provider: ImageGenerationProvider::Grok,
        api_key: "k".into(),
        base_url: "https://api.x.ai/v1".into(),
        extra_headers: indexmap::IndexMap::new(),
        has_api_key_provider: false,
        image_gen_enabled: false,
        image_edit_enabled: true,
        model_override: Some("grok-imagine-image".into()),
        edit_model_override: None,
        tier_restricted: false,
    };
    assert!(cfg.has_credentials());
    assert!(!cfg.image_gen_enabled());
    assert!(cfg.image_edit_enabled());
    assert_eq!(cfg.model_override(), Some("grok-imagine-image"));
    assert!(!ImageGenConfig::Disabled.has_credentials());
    assert_eq!(ImageGenConfig::default().provider(), None);
    assert_eq!(cfg.provider(), Some(ImageGenerationProvider::Grok));
}

#[test]
fn stamp_session_id_header_sets_and_preserves() {
    let headers = |cfg: &ImageGenConfig| match cfg {
        ImageGenConfig::Enabled { extra_headers, .. } => extra_headers.clone(),
        _ => unreachable!(),
    };
    let mut cfg = grok_config(indexmap::IndexMap::new(), None, None, false);
    cfg.stamp_session_id_header("sess-123");
    assert_eq!(headers(&cfg).get(SESSION_ID_HEADER).map(String::as_str), Some("sess-123"));

    let mut preset = indexmap::IndexMap::new();
    preset.insert(SESSION_ID_HEADER.to_string(), "caller-set".to_string());
    let mut cfg = grok_config(preset, None, None, false);
    cfg.stamp_session_id_header("sess-123");
    assert_eq!(headers(&cfg).get(SESSION_ID_HEADER).map(String::as_str), Some("caller-set"));
    let named = client(&cfg).with_session_id("other");
    assert!(named.session_header.is_none());

    let mut disabled = ImageGenConfig::Disabled;
    disabled.stamp_session_id_header("sess-123");
    assert!(!disabled.has_credentials());
    let mut codex = openai_config(true);
    codex.stamp_session_id_header("sess-123");
    assert_eq!(headers(&codex).get(SESSION_ID_HEADER), None);
}

#[test]
fn client_selects_model_from_override() {
    let model = |m: Option<&str>| client(&grok_config(indexmap::IndexMap::new(), m, None, false)).model;
    assert_eq!(model(None), XAI_IMAGINE_MODEL);
    assert_eq!(model(Some("")), XAI_IMAGINE_MODEL);
    assert_eq!(model(Some("grok-imagine-image")), "grok-imagine-image");
}

#[test]
fn client_selects_edit_model_from_override() {
    let make = |m: Option<&str>| client(&grok_config(indexmap::IndexMap::new(), None, m, false));
    assert_eq!(make(None).edit_model, EDIT_MODEL);
    assert_eq!(make(Some("  ")).edit_model, EDIT_MODEL);
    let client = make(Some("grok-imagine-image-v2"));
    assert_eq!(client.edit_model, "grok-imagine-image-v2");
    assert_eq!(client.model, XAI_IMAGINE_MODEL);
}

#[test]
fn tier_restricted_short_circuits_with_upsell() {
    let restricted = client(&grok_config(indexmap::IndexMap::new(), None, None, true));
    let text = ImageGenTool.short_answer(&restricted).unwrap();
    assert!(text.contains("SuperGrok"));
    assert!(text.contains("supergrok?referrer=grok-build"));
    let free = client(&grok_config(indexmap::IndexMap::new(), None, None, false));
    assert!(ImageGenTool.short_answer(&free).is_none());
}

#[test]
fn bad_headers_and_keys_are_refused() {
    let err = ImageGenClient::new(&ImageGenConfig::Disabled, false, EDIT_MODEL).unwrap_err();
    assert_eq!(err.message, "Cannot create ImageGenClient from disabled config");
    let mut headers = indexmap::IndexMap::new();
    headers.insert("bad name".to_string(), "v".to_string());
    let err = ImageGenClient::new(&grok_config(headers, None, None, false), false, EDIT_MODEL).unwrap_err();
    assert_eq!(err.message, "Invalid header name 'bad name': invalid HTTP header name");
    let mut headers = indexmap::IndexMap::new();
    headers.insert("x-a".to_string(), "v\n".to_string());
    let err = ImageGenClient::new(&grok_config(headers, None, None, false), false, EDIT_MODEL).unwrap_err();
    assert_eq!(err.message, "Invalid header value for 'x-a': failed to parse header value");
    let mut bad = grok_config(indexmap::IndexMap::new(), None, None, false);
    if let ImageGenConfig::Enabled { api_key, .. } = &mut bad {
        *api_key = "k\u{0}".into();
    }
    let err = ImageGenClient::new(&bad, false, EDIT_MODEL).unwrap_err();
    assert_eq!(err.message, "Invalid API key for header: failed to parse header value");
    let unnamed = client(&grok_config(indexmap::IndexMap::new(), None, None, false)).with_session_id("a\nb");
    assert!(unnamed.session_header.is_none());
}

fn answer(b64: Option<&str>) -> ImageGenResponse {
    ImageGenResponse { data: vec![ImageGenData { b64_json: b64.map(String::from) }] }
}

#[test]
fn answers_are_read_or_refused() {
    let refused = ImageReply::Refused {
        status: 500,
        status_text: "500 Internal Server Error".into(),
        body: "e".repeat(300),
    };
    let err = read_image("edit", refused).unwrap_err();
    assert_eq!(err.code, "http_failure");
    assert_eq!(err.status, Some(500));
    assert_eq!(err.message, format!("Image edit failed with HTTP 500 Internal Server Error: {}", "e".repeat(200)));
    assert_eq!(answer(Some("cG5n")).b64_data(), Some("cG5n"));
    assert_eq!(ImageGenResponse { data: vec![] }.b64_data(), None);
    assert_eq!(image_data("generation", "", Ok(answer(Some("cG5n")))).unwrap(), "cG5n");
    for empty in [answer(None), answer(Some("")), ImageGenResponse { data: vec![] }] {
        let err = image_data("generation", "", Ok(empty)).unwrap_err();
        assert_eq!(err.message, "Image generation returned no image data.");
    }
    let err = image_data("edit", "{oops", Err("bad".into())).unwrap_err();
    assert_eq!(err.message, "Failed to parse image edit response: bad — body preview: {oops");
    assert_eq!(decode_image("cG5n").unwrap(), b"png");
    let sent = ImageReply::Body { text: "{}".into(), parsed: Ok(answer(Some("cG5n"))) };
    assert_eq!(read_image("generation", sent).unwrap(), b"png");
    let err = read_image("generation", ImageReply::Unsent { error: "dns".into() }).unwrap_err();
    assert_eq!(err.message, "Image generation API request failed: dns");
    let err = read_image("edit", ImageReply::Unreadable { error: "eof".into() }).unwrap_err();
    assert_eq!(err.message, "Failed to read image edit response body: eof");
    assert!(decode_image("***").unwrap_err().message.starts_with("Failed to decode base64 image data: "));
}

#[test]
fn logs_show_no_key() {
    let mut headers = indexmap::IndexMap::new();
    headers.insert("X-A".to_string(), "secret-value".to_string());
    let text = grok_config(headers, None, Some("m"), false).debug_text();
    assert_eq!(
        text,
        "ImageGenConfig::Enabled { provider: Grok, base_url: \"https://api.x.ai/v1/\", extra_header_names: [\"X-A\"], has_live_api_key_provider: false, image_gen_enabled: true, image_edit_enabled: true, model_override: None, edit_model_override: Some(\"m\"), tier_restricted: false, .. }"
    );
    assert_eq!(ImageGenConfig::Disabled.debug_text(), "ImageGenConfig::Disabled");
}
