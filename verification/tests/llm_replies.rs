use image_style_studio::error::AppError;
use image_style_studio::json::Json;
use image_style_studio::llm::{
    analysis_content, analysis_failure, analysis_result, brief_failure, brief_request,
    chat_completion_result, chat_request_body, strip_code_fences, BRIEF_INSTRUCTION,
};

fn s(v: &str) -> Json {
    Json::String(v.to_string())
}

fn obj(entries: Vec<(&str, Json)>) -> Json {
    Json::Object(entries.into_iter().map(|(k, v)| (k.to_string(), v)).collect())
}

#[test]
fn strips_code_fences() {
    assert_eq!(strip_code_fences("```json\n{\"a\":1}\n```"), "{\"a\":1}");
    assert_eq!(strip_code_fences("{\"a\":1}"), "{\"a\":1}");
    assert_eq!(strip_code_fences("```\n{}\n```"), "{}");
}

#[test]
fn analysis_result_drops_subject() {
    let parsed = obj(vec![("subject", s("cat")), ("mood", s("calm"))]);
    let style = analysis_result(Some(parsed)).unwrap();
    assert_eq!(style.to_compact_string(), r#"{"mood":"calm"}"#);
}

#[test]
fn analysis_result_errors() {
    assert_eq!(
        analysis_result(None).unwrap_err().message(),
        "Antwort des Modells war kein gültiges JSON."
    );
    assert_eq!(
        analysis_result(Some(Json::Array(vec![]))).unwrap_err().message(),
        "Antwort des Modells war kein JSON-Objekt."
    );
}

#[test]
fn chat_answer_is_first_choice_content() {
    let body = obj(vec![(
        "choices",
        Json::Array(vec![obj(vec![("message", obj(vec![("content", s("hi"))]))])]),
    )]);
    assert_eq!(chat_completion_result(true, "200", Some(&body)).unwrap(), "hi");
    assert_eq!(
        chat_completion_result(true, "200", None).unwrap_err().message(),
        "OpenRouter-Antwort konnte nicht gelesen werden (HTTP 200)."
    );
}

#[test]
fn chat_body_asks_for_json_only_when_wanted() {
    let body = chat_request_body("m", s("hello"), true);
    assert_eq!(
        body.to_compact_string(),
        r#"{"model":"m","messages":[{"role":"user","content":"hello"}],"response_format":{"type":"json_object"}}"#
    );
    let body = chat_request_body("m", s("hello"), false);
    assert_eq!(
        body.to_compact_string(),
        r#"{"model":"m","messages":[{"role":"user","content":"hello"}]}"#
    );
}

#[test]
fn analysis_content_sends_image_then_instruction() {
    let content = analysis_content("QUJD", "image/png");
    let items = content.as_array().unwrap();
    assert_eq!(items.len(), 2);
    assert_eq!(
        items[0].get("image_url").unwrap().get("url").unwrap().as_str().unwrap(),
        "data:image/png;base64,QUJD"
    );
    assert_eq!(items[1].get("type").unwrap().as_str().unwrap(), "text");
}

#[test]
fn brief_request_is_skipped_for_empty_style() {
    assert!(brief_request(&obj(vec![("a", s(" "))]), None).is_none());
    let prompt = brief_request(&obj(vec![("a", s("x"))]), Some("foto")).unwrap();
    assert_eq!(
        prompt,
        format!("{BRIEF_INSTRUCTION}\n\nImage kind: foto.\n\nSTYLE JSON:\n{{\n  \"a\": \"x\"\n}}")
    );
}

#[test]
fn failures_name_the_model_setting() {
    let e = AppError::msg("boom".to_string());
    assert_eq!(
        analysis_failure(&e, "m1").message(),
        "Stil-Analyse fehlgeschlagen: boom. Bei Modell-Problemen prüfe die Variable OPENROUTER_ANALYSIS_MODEL (aktuell: m1)."
    );
    assert_eq!(
        brief_failure(&e, "m2").message(),
        "Style-Brief-Generierung fehlgeschlagen: boom. Bei Modell-Problemen prüfe die Variable OPENROUTER_BRIEF_MODEL (aktuell: m2)."
    );
}

#[test]
fn error_messages_name_their_source() {
    assert_eq!(AppError::msg("a".to_string()).message(), "a");
    assert_eq!(AppError::msg_str("b").message(), "b");
    assert_eq!(AppError::Db("x".to_string()).message(), "Datenbankfehler: x");
    assert_eq!(AppError::Http("x".to_string()).message(), "Netzwerkfehler: x");
    assert_eq!(AppError::Io("x".to_string()).message(), "Dateisystemfehler: x");
    assert_eq!(AppError::Json("x".to_string()).message(), "JSON-Fehler: x");
}
