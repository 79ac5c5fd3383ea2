use image_style_studio::dto::{
    AnalyzeStyleInput, CompileStyleBriefInput, GenerateInput, GenerateParams, ReferenceImage,
    StyleDTO,
};
use image_style_studio::generate::{
    effective_params, generate_plan, generation_record, merged_references, output_images,
    params_json,
};
use image_style_studio::images::{
    add_anchor_plan, anchor_files_in_order, anchor_image, image_data_url, with_anchor,
    without_anchor, AddAnchorInput,
};
use image_style_studio::json::Json;
use image_style_studio::misc::{camera_name, check_analyze_input, check_brief_input, mask_key, CameraNameInput};
use image_style_studio::prompt::compile_prompt;
use image_style_studio::provider::GeneratedImage;
use image_style_studio::repo::{ImageRow, StyleRow};

fn s(v: &str) -> Json {
    Json::String(v.to_string())
}

fn obj(entries: Vec<(&str, Json)>) -> Json {
    Json::Object(entries.into_iter().map(|(k, v)| (k.to_string(), v)).collect())
}

fn strings(v: &[&str]) -> Vec<String> {
    v.iter().map(|x| x.to_string()).collect()
}

fn style_row() -> StyleRow {
    StyleRow {
        dto: StyleDTO {
            id: "s".to_string(),
            name: "n".to_string(),
            description: None,
            kind: "foto".to_string(),
            tags: vec![],
            style_json: obj(vec![]),
            style_brief: None,
            schema_version: 1,
            version: 1,
            provider: "openrouter".to_string(),
            model_id: "m".to_string(),
            default_params: obj(vec![]),
            anchor_image_ids: vec![],
            created_at: "c".to_string(),
            updated_at: "u".to_string(),
        },
        brief_source_hash: None,
    }
}

fn generate_input(subject: &str, style_json: Json) -> GenerateInput {
    GenerateInput {
        style_json,
        subject: subject.to_string(),
        provider: None,
        model_id: None,
        params: None,
        references: None,
        kind: None,
        style_id: None,
    }
}

fn reference(data: &str) -> ReferenceImage {
    ReferenceImage { mime_type: "image/png".to_string(), data: data.to_string() }
}

#[test]
fn data_urls_of_stored_images() {
    assert_eq!(image_data_url("image/png", "QUJD").data_url, "data:image/png;base64,QUJD");
    let a = anchor_image("i1".to_string(), "image/jpeg", "AA==");
    assert_eq!(a.id, "i1");
    assert_eq!(a.data_url, "data:image/jpeg;base64,AA==");
}

#[test]
fn anchors_keep_the_style_order() {
    let rows = vec![
        ImageRow { id: "b".to_string(), path: "b.png".to_string() },
        ImageRow { id: "a".to_string(), path: "a.png".to_string() },
    ];
    let files = anchor_files_in_order(&strings(&["a", "missing", "b"]), &rows);
    assert_eq!(
        files,
        vec![
            ("a".to_string(), "a.png".to_string()),
            ("b".to_string(), "b.png".to_string()),
        ]
    );
}

#[test]
fn adding_an_anchor_checks_its_input() {
    let style = style_row();
    let input = |id: &str, url: &str| AddAnchorInput { style_id: id.to_string(), data_url: url.to_string() };
    assert_eq!(
        add_anchor_plan(&input("", "x"), Some(&style)).unwrap_err().message(),
        "styleId erforderlich."
    );
    assert_eq!(
        add_anchor_plan(&input("s", ""), Some(&style)).unwrap_err().message(),
        "dataUrl erforderlich."
    );
    assert_eq!(
        add_anchor_plan(&input("s", "data:image/png;base64,AA"), None).unwrap_err().message(),
        "Stil nicht gefunden."
    );
    assert_eq!(
        add_anchor_plan(&input("s", "nope"), Some(&style)).unwrap_err().message(),
        "Ungültige Data-URL."
    );
    assert_eq!(
        add_anchor_plan(&input("s", "data:image/png;base64,AA"), Some(&style)).unwrap(),
        ("image/png".to_string(), "AA".to_string())
    );
}

#[test]
fn removing_an_added_anchor_restores_the_list() {
    let before = strings(&["a", "b"]);
    let added = with_anchor(before.clone(), "c".to_string());
    assert_eq!(added.image_id, "c");
    assert_eq!(added.anchor_image_ids, strings(&["a", "b", "c"]));
    let removed = without_anchor(added.anchor_image_ids, "c");
    assert_eq!(removed.anchor_image_ids, before);
}

#[test]
fn removing_an_anchor_drops_every_occurrence() {
    let removed = without_anchor(strings(&["a", "x", "b", "x"]), "x");
    assert_eq!(removed.anchor_image_ids, strings(&["a", "b"]));
}

#[test]
fn generation_checks_subject_style_and_provider() {
    assert_eq!(
        generate_plan(&generate_input("  ", obj(vec![]))).unwrap_err().message(),
        "Bitte ein Motiv (subject) angeben."
    );
    assert_eq!(
        generate_plan(&generate_input("x", s("no"))).unwrap_err().message(),
        "styleJson muss ein Objekt sein."
    );
    let mut other = generate_input("x", obj(vec![]));
    other.provider = Some("openai".to_string());
    assert!(generate_plan(&other).is_err());
    assert_eq!(
        generate_plan(&generate_input("x", obj(vec![]))).unwrap(),
        "google/gemini-3-pro-image-preview"
    );
}

#[test]
fn anchors_come_before_request_references() {
    let merged = merged_references(vec![reference("A")], Some(vec![reference("B"), reference("C")]));
    let data: Vec<&str> = merged.iter().map(|r| r.data.as_str()).collect();
    assert_eq!(data, vec!["A", "B", "C"]);
    assert_eq!(merged_references(vec![], None).len(), 0);
}

#[test]
fn generation_parameters_have_defaults() {
    let p = effective_params(&None);
    assert_eq!(p.aspect_ratio.as_deref(), Some("1:1"));
    assert_eq!(p.image_size.as_deref(), Some("2K"));
    assert_eq!(p.thinking_level, None);
    assert_eq!(p.count, Some(1));
    let given = GenerateParams {
        aspect_ratio: Some("16:9".to_string()),
        image_size: None,
        thinking_level: Some("high".to_string()),
        count: Some(3),
    };
    let p = effective_params(&Some(given));
    assert_eq!(p.aspect_ratio.as_deref(), Some("16:9"));
    assert_eq!(p.image_size.as_deref(), Some("2K"));
    assert_eq!(p.thinking_level.as_deref(), Some("high"));
    assert_eq!(p.count, Some(3));
    assert_eq!(
        params_json(&p).to_compact_string(),
        r#"{"aspectRatio":"16:9","imageSize":"2K","thinkingLevel":"high","count":3}"#
    );
}

#[test]
fn generation_record_holds_compact_json() {
    let input = generate_input("cat", obj(vec![]));
    let compiled = compile_prompt(&input.style_json, "cat", false, None);
    let params = effective_params(&None);
    let record = generation_record("s1", &input, "m", &compiled, &params, &strings(&["a"]));
    assert_eq!(record.style_id, "s1");
    assert_eq!(record.subject, "cat");
    assert_eq!(record.compiled_prompt, r#"{"subject":"cat"}"#);
    assert_eq!(record.provider, "openrouter");
    assert_eq!(record.params, r#"{"aspectRatio":"1:1","imageSize":"2K","count":1}"#);
    assert_eq!(record.reference_image_ids, r#"["a"]"#);
}

#[test]
fn generated_images_become_data_urls() {
    let out = output_images(&vec![GeneratedImage {
        data: "QUJD".to_string(),
        mime_type: "image/webp".to_string(),
    }]);
    assert_eq!(out[0].data_url, "data:image/webp;base64,QUJD");
    assert_eq!(out[0].mime_type, "image/webp");
}

#[test]
fn analysis_input_is_checked() {
    let input = |b: &str, m: &str| AnalyzeStyleInput { image_base64: b.to_string(), mime_type: m.to_string() };
    assert_eq!(
        check_analyze_input(&input(" ", "image/png")).unwrap_err().message(),
        "Bitte ein Bild (imageBase64) übergeben."
    );
    assert_eq!(
        check_analyze_input(&input("AA", "text/plain")).unwrap_err().message(),
        "mimeType muss ein Bild-MIME-Typ sein (image/...)."
    );
    assert!(check_analyze_input(&input("AA", "image/jpeg")).is_ok());
    let brief = CompileStyleBriefInput { style_json: Json::Null, kind: None };
    assert_eq!(
        check_brief_input(&brief).unwrap_err().message(),
        "styleJson muss ein Objekt sein."
    );
}

#[test]
fn camera_names_are_trimmed() {
    let input = |n: &str| CameraNameInput { name: n.to_string() };
    assert_eq!(camera_name(&input("  Leica M6 ")).unwrap(), "Leica M6");
    assert_eq!(camera_name(&input("   ")).unwrap_err().message(), "Name erforderlich.");
}

#[test]
fn keys_are_masked() {
    assert_eq!(mask_key(""), None);
    assert_eq!(mask_key("abc").as_deref(), Some("abc…abc (3 Zeichen)"));
    assert_eq!(
        mask_key("sk-or-v1-1234567890").as_deref(),
        Some("sk-o…7890 (19 Zeichen)")
    );
}

#[test]
fn data_url_of_an_image_parses_back() {
    let url = image_data_url("image/webp", "UklGRg==").data_url;
    let (mime, b64) = image_style_studio::storage::parse_data_url(&url).unwrap();
    assert_eq!(mime, "image/webp");
    assert_eq!(b64, "UklGRg==");
}

#[test]
fn a_style_pins_at_most_eleven_anchors() {
    let mut style = style_row();
    style.dto.anchor_image_ids = (0..11).map(|i| format!("a{i}")).collect();
    let input = AddAnchorInput {
        style_id: "s".to_string(),
        data_url: "data:image/png;base64,AA==".to_string(),
    };
    assert_eq!(
        add_anchor_plan(&input, Some(&style)).unwrap_err().message(),
        "Ein Stil kann höchstens 11 Anker-Bilder haben."
    );
    style.dto.anchor_image_ids.pop();
    assert!(add_anchor_plan(&input, Some(&style)).is_ok());
}
