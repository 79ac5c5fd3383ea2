use image_style_studio::json::Json;
use image_style_studio::prompt::{
    compile_prompt, human_label, is_empty_style, render_prompt_as_text,
    INFOGRAPHIC_TEXT_INSTRUCTION, STYLE_REFERENCE_INSTRUCTION,
};

fn s(v: &str) -> Json {
    Json::String(v.to_string())
}

fn n(v: &str) -> Json {
    Json::Number(v.to_string())
}

fn obj(entries: Vec<(&str, Json)>) -> Json {
    Json::Object(entries.into_iter().map(|(k, v)| (k.to_string(), v)).collect())
}

fn keys(j: &Json) -> Vec<String> {
    j.as_object().unwrap().iter().map(|(k, _)| k.clone()).collect()
}

#[test]
fn injects_style_reference_when_references_present() {
    let out = compile_prompt(&obj(vec![("mood", s("calm"))]), "ein Hund", true, None);
    assert!(out.prompt_object.get("style_reference").is_some());
    assert_eq!(
        out.prompt_object.get("subject").unwrap().to_compact_string(),
        "\"ein Hund\""
    );
}

#[test]
fn injects_text_rendering_for_infografik() {
    let out = compile_prompt(&obj(vec![]), "x", false, Some("infografik"));
    assert!(out.prompt_object.get("text_rendering").is_some());
    let out2 = compile_prompt(&obj(vec![]), "x", false, Some("foto"));
    assert!(out2.prompt_object.get("text_rendering").is_none());
}

#[test]
fn renders_prompt_object_as_plain_language() {
    let prompt = obj(vec![
        ("style_reference", s("Match the reference image.")),
        ("camera", obj(vec![("lens_mm", n("35"))])),
        ("mood", s("calm")),
        ("subject", s("a red apple")),
    ]);
    assert_eq!(
        render_prompt_as_text(&prompt),
        "Create an image of a red apple.\n\nStyle requirements:\n- Style reference: Match the reference image.\n- Camera:\n  - Lens mm: 35\n- Mood: calm"
    );
}

#[test]
fn empty_style_detection() {
    assert!(is_empty_style(&obj(vec![])));
    assert!(is_empty_style(&obj(vec![
        ("a", s("")),
        ("b", obj(vec![("c", Json::Array(vec![]))])),
    ])));
    assert!(!is_empty_style(&obj(vec![("a", Json::Bool(false))])));
    assert!(!is_empty_style(&obj(vec![("a", s("x"))])));
}

#[test]
fn compiled_prompt_puts_instructions_first_and_subject_last() {
    let out = compile_prompt(&obj(vec![("mood", s("calm"))]), "a cat", true, Some("infografik"));
    assert_eq!(
        keys(&out.prompt_object),
        vec!["style_reference", "text_rendering", "mood", "subject"]
    );
    assert_eq!(
        out.prompt_object.get("style_reference").unwrap().as_str().unwrap(),
        STYLE_REFERENCE_INSTRUCTION
    );
    assert_eq!(
        out.prompt_object.get("text_rendering").unwrap().as_str().unwrap(),
        INFOGRAPHIC_TEXT_INSTRUCTION
    );
    assert_eq!(out.prompt_text, out.prompt_object.to_pretty_string());
}

#[test]
fn compiled_prompt_lets_style_override_text_rendering() {
    let style = obj(vec![
        ("subject", s("old")),
        ("text_rendering", s("mine")),
    ]);
    let out = compile_prompt(&style, "new", false, Some("infografik"));
    assert_eq!(keys(&out.prompt_object), vec!["text_rendering", "subject"]);
    assert_eq!(out.prompt_object.get("subject").unwrap().as_str().unwrap(), "new");
    assert_eq!(out.prompt_object.get("text_rendering").unwrap().as_str().unwrap(), "mine");
}

#[test]
fn compiled_prompt_without_references_has_no_style_reference() {
    let out = compile_prompt(&obj(vec![("mood", s("calm"))]), "x", false, None);
    assert_eq!(keys(&out.prompt_object), vec!["mood", "subject"]);
}

#[test]
fn human_labels_capitalise_and_split_words() {
    assert_eq!(human_label("lens_mm"), "Lens mm");
    assert_eq!(human_label("style_reference"), "Style reference");
    assert_eq!(human_label(""), "");
}

#[test]
fn renders_arrays_and_booleans() {
    let prompt = obj(vec![
        ("palette", Json::Array(vec![s("red"), s("blue")])),
        ("grain", Json::Bool(true)),
        ("subject", s("x")),
    ]);
    assert_eq!(
        render_prompt_as_text(&prompt),
        "Create an image of x.\n\nStyle requirements:\n- Palette:\n  - red\n  - blue\n- Grain: true"
    );
}

#[test]
fn renders_default_subject_and_nested_objects_in_arrays() {
    let prompt = obj(vec![
        ("lights", Json::Array(vec![obj(vec![("kind", s("key")), ("gone", Json::Null)])])),
        ("unused", Json::Null),
    ]);
    assert_eq!(
        render_prompt_as_text(&prompt),
        "Create an image of the requested subject.\n\nStyle requirements:\n- Lights:\n  -\n    - Kind: key\n    - Gone"
    );
}

#[test]
fn renders_only_the_sentence_without_requirements() {
    let prompt = obj(vec![("subject", s("a dog"))]);
    assert_eq!(render_prompt_as_text(&prompt), "Create an image of a dog.");
}

#[test]
fn rendered_compiled_prompt_opens_with_subject() {
    let out = compile_prompt(&obj(vec![("mood", s("calm"))]), "a fox", true, None);
    let text = render_prompt_as_text(&out.prompt_object);
    assert_eq!(
        text,
        format!("Create an image of a fox.\n\nStyle requirements:\n- Style reference: {STYLE_REFERENCE_INSTRUCTION}\n- Mood: calm")
    );
}
