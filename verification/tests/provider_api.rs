use image_style_studio::config::Config;
use image_style_studio::dto::{GenerateParams, ReferenceImage};
use image_style_studio::json::Json;
use image_style_studio::provider::{
    api_key, available_models, build_image_request, find_model, fresh_cached_models,
    image_response_result, model_list_result, or_request_headers, parse_image_models,
    parse_image_response, require_images, resolve_model, settle_model_fetch, ImageModel,
    ImageModelCache, ImageResponse,
};
use image_style_studio::error::AppError;

fn s(v: &str) -> Json {
    Json::String(v.to_string())
}

fn n(v: &str) -> Json {
    Json::Number(v.to_string())
}

fn obj(entries: Vec<(&str, Json)>) -> Json {
    Json::Object(entries.into_iter().map(|(k, v)| (k.to_string(), v)).collect())
}

fn model(id: &str, max_count: u32, max_references: u32) -> ImageModel {
    ImageModel {
        id: id.to_string(),
        label: format!("{id} label"),
        image_sizes: vec!["2K".to_string()],
        aspect_ratios: vec!["1:1".to_string()],
        max_count,
        max_references,
    }
}

fn message(e: &AppError) -> String {
    e.message()
}

#[test]
fn resolves_legacy_gemini_default() {
    assert_eq!(
        resolve_model(Some("gemini"), Some("gemini-3-pro-image")).unwrap(),
        "google/gemini-3-pro-image-preview"
    );
    assert_eq!(
        resolve_model(None, None).unwrap(),
        "google/gemini-3-pro-image-preview"
    );
    assert!(resolve_model(Some("openai"), Some("gpt-image-1")).is_err());
}

#[test]
fn resolves_other_gemini_models_under_google_prefix() {
    assert_eq!(
        resolve_model(Some("gemini"), Some("gemini-2.5-flash-image")).unwrap(),
        "google/gemini-2.5-flash-image"
    );
    assert_eq!(
        resolve_model(Some("openrouter"), Some("x/y")).unwrap(),
        "x/y"
    );
    let err = resolve_model(Some("openai"), None).unwrap_err();
    assert_eq!(
        message(&err),
        "Provider 'openai' ist in der Desktop-App nicht verfügbar — nur OpenRouter wird unterstützt. Wähle ein OpenRouter-Modell."
    );
}

#[test]
fn parses_image_model_capabilities() {
    let body = obj(vec![(
        "data",
        Json::Array(vec![obj(vec![
            ("id", s("example/image")),
            ("name", s("Example Image")),
            (
                "supported_parameters",
                obj(vec![
                    (
                        "input_references",
                        obj(vec![("type", s("range")), ("min", n("0")), ("max", n("2"))]),
                    ),
                    (
                        "resolution",
                        obj(vec![("type", s("enum")), ("values", Json::Array(vec![s("1K"), s("2K")]))]),
                    ),
                    (
                        "aspect_ratio",
                        obj(vec![
                            ("type", s("enum")),
                            ("values", Json::Array(vec![s("1:1"), s("16:9")])),
                        ]),
                    ),
                    ("n", obj(vec![("type", s("range")), ("min", n("1")), ("max", n("3"))])),
                ]),
            ),
        ])]),
    )]);
    let models = parse_image_models(&body).unwrap();

    assert_eq!(models.len(), 1);
    assert_eq!(models[0].id, "example/image");
    assert_eq!(models[0].image_sizes, ["1K", "2K"]);
    assert_eq!(models[0].aspect_ratios, ["1:1", "16:9"]);
    assert_eq!(models[0].max_count, 3);
    assert_eq!(models[0].max_references, 2);
}

#[test]
fn model_list_skips_blank_ids_and_defaults_capabilities() {
    let body = obj(vec![(
        "data",
        Json::Array(vec![
            obj(vec![("id", s("  "))]),
            obj(vec![("id", s(" a/b "))]),
            obj(vec![("name", s("no id"))]),
        ]),
    )]);
    let models = parse_image_models(&body).unwrap();
    assert_eq!(models.len(), 1);
    assert_eq!(models[0].id, "a/b");
    assert_eq!(models[0].label, "a/b");
    assert_eq!(models[0].max_count, 1);
    assert_eq!(models[0].max_references, 0);
    assert!(models[0].image_sizes.is_empty());
}

#[test]
fn model_list_without_data_is_an_error() {
    let err = parse_image_models(&obj(vec![])).unwrap_err();
    assert_eq!(
        message(&err),
        "OpenRouter hat keine gültige Bildmodellliste geliefert."
    );
}

#[test]
fn model_list_result_reports_http_errors_and_empty_lists() {
    let err = model_list_result(false, "500", Some(&obj(vec![(
        "error",
        obj(vec![("message", s("boom"))]),
    )])))
    .unwrap_err();
    assert_eq!(
        message(&err),
        "OpenRouter-Modellliste konnte nicht geladen werden: boom"
    );
    let err = model_list_result(true, "200", Some(&obj(vec![("data", Json::Array(vec![]))])))
        .unwrap_err();
    assert_eq!(
        message(&err),
        "OpenRouter hat keine Bildmodelle zurückgegeben. Bitte später erneut versuchen."
    );
    let err = model_list_result(true, "200", None).unwrap_err();
    assert_eq!(
        message(&err),
        "OpenRouter-Modellliste konnte nicht gelesen werden (HTTP 200)."
    );
}

#[test]
fn builds_image_api_request_from_capabilities() {
    let model = ImageModel {
        id: "example/image".to_string(),
        label: "Example Image".to_string(),
        image_sizes: vec!["2K".to_string()],
        aspect_ratios: vec!["1:1".to_string()],
        max_count: 2,
        max_references: 1,
    };
    let body = build_image_request(
        &model,
        "test prompt",
        &vec![ReferenceImage {
            mime_type: "image/png".to_string(),
            data: "QUJD".to_string(),
        }],
        &GenerateParams {
            aspect_ratio: Some("1:1".to_string()),
            image_size: Some("2K".to_string()),
            thinking_level: None,
            count: Some(4),
        },
    );

    assert_eq!(body.get("model").unwrap().as_str().unwrap(), "example/image");
    assert_eq!(body.get("n").unwrap().to_compact_string(), "2");
    assert_eq!(body.get("resolution").unwrap().as_str().unwrap(), "2K");
    assert_eq!(body.get("aspect_ratio").unwrap().as_str().unwrap(), "1:1");
    let refs = body.get("input_references").unwrap().as_array().unwrap();
    assert_eq!(
        refs[0]
            .get("image_url")
            .unwrap()
            .get("url")
            .unwrap()
            .as_str()
            .unwrap(),
        "data:image/png;base64,QUJD"
    );
}

#[test]
fn image_request_drops_unsupported_options() {
    let model = model("m", 3, 0);
    let refs = vec![ReferenceImage {
        mime_type: "image/png".to_string(),
        data: "QUJD".to_string(),
    }];
    let body = build_image_request(
        &model,
        "p",
        &refs,
        &GenerateParams {
            aspect_ratio: Some("16:9".to_string()),
            image_size: Some("4K".to_string()),
            thinking_level: None,
            count: None,
        },
    );
    assert_eq!(
        body.to_compact_string(),
        r#"{"model":"m","prompt":"p","n":1}"#
    );
}

#[test]
fn parses_buffered_image_response() {
    let result = parse_image_response(&obj(vec![
        (
            "data",
            Json::Array(vec![obj(vec![("b64_json", s("QUJD")), ("media_type", s("image/webp"))])]),
        ),
        ("usage", obj(vec![("cost", n("0.12"))])),
    ]));

    assert_eq!(result.images[0].data, "QUJD");
    assert_eq!(result.images[0].mime_type, "image/webp");
    assert_eq!(result.cost.as_deref(), Some("0.12"));
}

#[test]
fn image_response_defaults_to_png_and_skips_empty_images() {
    let result = parse_image_response(&obj(vec![(
        "data",
        Json::Array(vec![
            obj(vec![("b64_json", s(""))]),
            obj(vec![("b64_json", s("QUJD"))]),
        ]),
    )]));
    assert_eq!(result.images.len(), 1);
    assert_eq!(result.images[0].mime_type, "image/png");
    assert!(result.cost.is_none());
}

#[test]
fn image_response_errors() {
    let err = image_response_result(false, "400", Some(&obj(vec![]))).unwrap_err();
    assert_eq!(
        message(&err),
        "OpenRouter-Bildgenerierung fehlgeschlagen: Unbekannter Fehler"
    );
    let err = image_response_result(true, "502", None).unwrap_err();
    assert_eq!(
        message(&err),
        "OpenRouter-Antwort konnte nicht gelesen werden (HTTP 502)."
    );
    let empty = ImageResponse { images: vec![], cost: None };
    assert!(require_images(empty).is_err());
}

#[test]
fn missing_model_is_reported_by_id() {
    let models = vec![model("a", 1, 0)];
    assert_eq!(find_model(&models, "a").unwrap().id, "a");
    let err = find_model(&models, "b").unwrap_err();
    assert_eq!(
        message(&err),
        "Das Modell 'b' ist bei OpenRouter nicht mehr verfügbar. Wähle ein anderes Bildmodell."
    );
}

#[test]
fn api_key_requires_a_non_blank_key() {
    let mut config = Config::empty();
    assert!(api_key(&config).is_err());
    config.set("OPENROUTER_API_KEY".to_string(), "  ".to_string());
    assert!(api_key(&config).is_err());
    config.set("OPENROUTER_API_KEY".to_string(), "sk-1".to_string());
    assert_eq!(api_key(&config).unwrap(), "sk-1");
}

#[test]
fn request_headers_carry_key_and_attribution() {
    let mut config = Config::empty();
    config.set("OPENROUTER_API_KEY".to_string(), "sk-1".to_string());
    config.set("OPENROUTER_APP_TITLE".to_string(), "Studio".to_string());
    let headers = or_request_headers(&config).unwrap();
    assert_eq!(
        headers,
        vec![
            ("Authorization".to_string(), "Bearer sk-1".to_string()),
            ("Content-Type".to_string(), "application/json".to_string()),
            ("X-Title".to_string(), "Studio".to_string()),
        ]
    );
}

#[test]
fn cached_models_expire_after_six_hours() {
    let cache = Some(ImageModelCache { fetched_at: 100, models: vec![model("a", 1, 0)] });
    assert_eq!(fresh_cached_models(&cache, 100 + 21600).unwrap().len(), 1);
    assert!(fresh_cached_models(&cache, 100 + 21601).is_none());
    assert!(fresh_cached_models(&None, 5).is_none());
}

#[test]
fn failed_fetch_falls_back_to_cached_models() {
    let cache = Some(ImageModelCache { fetched_at: 1, models: vec![model("old", 1, 0)] });
    let (kept, res) = settle_model_fetch(cache, 99999, Err(AppError::msg("down".to_string())));
    assert_eq!(res.unwrap()[0].id, "old");
    assert_eq!(kept.unwrap().fetched_at, 1);

    let (kept, res) = settle_model_fetch(None, 7, Err(AppError::msg("down".to_string())));
    assert!(kept.is_none());
    assert_eq!(message(&res.unwrap_err()), "down");

    let (kept, res) = settle_model_fetch(None, 7, Ok(vec![model("new", 1, 1)]));
    assert_eq!(res.unwrap()[0].id, "new");
    let kept = kept.unwrap();
    assert_eq!(kept.fetched_at, 7);
    assert_eq!(kept.models[0].id, "new");
}

#[test]
fn available_models_mark_reference_support() {
    let list = available_models(&vec![model("a", 1, 0), model("b", 1, 2)]);
    assert_eq!(list.len(), 2);
    assert_eq!(list[0].provider_id, "openrouter");
    assert_eq!(list[0].model_id, "a");
    assert_eq!(list[0].label, "a label");
    assert!(!list[0].supports_references);
    assert!(list[1].supports_references);
}
