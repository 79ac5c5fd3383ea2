use image_style_studio::dto::{CreateStyleInput, StyleDTO, UpdateStyleInput};
use image_style_studio::error::AppError;
use image_style_studio::canonical::hash_style_json;
use image_style_studio::json::Json;
use image_style_studio::repo::StyleRow;
use image_style_studio::styles::{
    brief_fields, create_style_plan, deleted_style, duplicate_style_plan, generations_query,
    list_styles, style_changed, update_assignments, update_style_plan, version_row, ColumnValue,
    ListGenerationsInput, ListStylesInput,
};

fn s(v: &str) -> Json {
    Json::String(v.to_string())
}

fn obj(entries: Vec<(&str, Json)>) -> Json {
    Json::Object(entries.into_iter().map(|(k, v)| (k.to_string(), v)).collect())
}

fn style(id: &str, name: &str, description: Option<&str>, tags: &[&str]) -> StyleDTO {
    StyleDTO {
        id: id.to_string(),
        name: name.to_string(),
        description: description.map(|d| d.to_string()),
        kind: "foto".to_string(),
        tags: tags.iter().map(|t| t.to_string()).collect(),
        style_json: obj(vec![("mood", s("calm"))]),
        style_brief: Some("brief".to_string()),
        schema_version: 1,
        version: 4,
        provider: "openrouter".to_string(),
        model_id: "m".to_string(),
        default_params: obj(vec![]),
        anchor_image_ids: vec!["img1".to_string()],
        created_at: "c".to_string(),
        updated_at: "u".to_string(),
    }
}

fn row(dto: StyleDTO, hash: Option<String>) -> StyleRow {
    StyleRow { dto, brief_source_hash: hash }
}

fn rows() -> Vec<StyleRow> {
    vec![
        row(style("1", "Film Noir", None, &["dark", "bw"]), None),
        row(style("2", "Pastell", Some("Weiche FARBEN"), &["light"]), None),
        row(style("3", "Neon", Some("city lights"), &["dark"]), None),
    ]
}

fn ids(list: &[StyleDTO]) -> Vec<String> {
    list.iter().map(|d| d.id.clone()).collect()
}

fn create_input(name: &str, style_json: Json) -> CreateStyleInput {
    CreateStyleInput {
        name: name.to_string(),
        description: None,
        kind: None,
        tags: None,
        style_json,
        default_params: None,
        anchor_image_ids: None,
        provider: None,
        model_id: None,
    }
}

fn update_input(id: &str) -> UpdateStyleInput {
    UpdateStyleInput {
        id: id.to_string(),
        name: None,
        description: None,
        kind: None,
        tags: None,
        style_json: None,
        default_params: None,
        anchor_image_ids: None,
        provider: None,
        model_id: None,
    }
}

#[test]
fn lists_all_styles_without_filters() {
    assert_eq!(ids(&list_styles(rows(), None)), vec!["1", "2", "3"]);
}

#[test]
fn lists_styles_by_tag_and_search() {
    let by_tag = list_styles(
        rows(),
        Some(ListStylesInput { tag: Some("dark".to_string()), search: None }),
    );
    assert_eq!(ids(&by_tag), vec!["1", "3"]);
    let by_search = list_styles(
        rows(),
        Some(ListStylesInput { tag: None, search: Some("farben".to_string()) }),
    );
    assert_eq!(ids(&by_search), vec!["2"]);
    let both = list_styles(
        rows(),
        Some(ListStylesInput { tag: Some("dark".to_string()), search: Some("NOIR".to_string()) }),
    );
    assert_eq!(ids(&both), vec!["1"]);
}

#[test]
fn create_requires_name_and_object() {
    let err = create_style_plan(create_input("   ", obj(vec![]))).unwrap_err();
    assert_eq!(err.message(), "Name ist erforderlich.");
    let err = create_style_plan(create_input("X", Json::Array(vec![]))).unwrap_err();
    assert_eq!(err.message(), "styleJson muss ein Objekt sein.");
}

#[test]
fn create_fills_in_defaults() {
    let plan = create_style_plan(create_input("  Neu  ", obj(vec![("a", s("b"))]))).unwrap();
    assert_eq!(plan.name, "Neu");
    assert_eq!(plan.kind, "foto");
    assert_eq!(plan.tags, "[]");
    assert_eq!(plan.style_json_text, r#"{"a":"b"}"#);
    assert_eq!(plan.default_params, "{}");
    assert_eq!(plan.anchor_image_ids, "[]");
    assert_eq!(plan.provider, "openrouter");
    assert_eq!(plan.model_id, "google/gemini-3-pro-image-preview");
    assert!(plan.style_brief.is_none());
}

#[test]
fn create_keeps_given_values() {
    let mut input = create_input("X", obj(vec![]));
    input.kind = Some("infografik".to_string());
    input.tags = Some(vec!["t\"1".to_string()]);
    input.provider = Some("gemini".to_string());
    let plan = create_style_plan(input).unwrap();
    assert_eq!(plan.kind, "infografik");
    assert_eq!(plan.tags, r#"["t\"1"]"#);
    assert_eq!(plan.provider, "gemini");
}

#[test]
fn brief_fields_follow_the_outcome() {
    let style = obj(vec![("a", s("b"))]);
    let (brief, hash) = brief_fields(Ok("text".to_string()), &style);
    assert_eq!(brief.as_deref(), Some("text"));
    assert_eq!(hash, Some(hash_style_json(&style)));
    let (brief, hash) = brief_fields(Ok(String::new()), &style);
    assert!(brief.is_none());
    assert!(hash.is_some());
    let (brief, hash) = brief_fields(Err(AppError::msg("x".to_string())), &style);
    assert!(brief.is_none() && hash.is_none());
}

#[test]
fn update_needs_id_and_existing_style() {
    let current = row(style("1", "A", None, &[]), None);
    let err = update_style_plan(&update_input(" "), Some(&current)).err().unwrap();
    assert_eq!(err.message(), "id ist erforderlich.");
    let err = update_style_plan(&update_input("1"), None).err().unwrap();
    assert_eq!(err.message(), "Stil nicht gefunden.");
}

#[test]
fn version_grows_only_when_style_changes() {
    let dto = style("1", "A", None, &[]);
    let hash = hash_style_json(&dto.style_json);
    let current = row(dto, Some(hash));

    let plan = update_style_plan(&update_input("1"), Some(&current)).unwrap();
    assert!(!plan.style_changed);
    assert_eq!(plan.next_version, 4);
    assert!(plan.brief_kind.is_none());

    let mut same = update_input("1");
    same.style_json = Some(obj(vec![("mood", s("calm"))]));
    let plan = update_style_plan(&same, Some(&current)).unwrap();
    assert!(!plan.style_changed);
    assert_eq!(plan.next_version, 4);
    assert!(plan.brief_kind.is_none());
    assert!(version_row(&same, &plan).is_none());

    let mut changed = update_input("1");
    changed.style_json = Some(obj(vec![("mood", s("wild"))]));
    changed.kind = Some("illustration".to_string());
    let plan = update_style_plan(&changed, Some(&current)).unwrap();
    assert!(plan.style_changed);
    assert_eq!(plan.next_version, 5);
    assert_eq!(plan.brief_kind.as_deref(), Some("illustration"));
    assert_eq!(
        version_row(&changed, &plan),
        Some((5, r#"{"mood":"wild"}"#.to_string()))
    );
}

#[test]
fn missing_brief_is_made_even_for_same_style() {
    let mut dto = style("1", "A", None, &[]);
    dto.style_brief = None;
    let hash = hash_style_json(&dto.style_json);
    let current = row(dto, Some(hash));
    let mut same = update_input("1");
    same.style_json = Some(obj(vec![("mood", s("calm"))]));
    let plan = update_style_plan(&same, Some(&current)).unwrap();
    assert_eq!(plan.brief_kind.as_deref(), Some("foto"));
}

#[test]
fn style_change_compares_compact_text() {
    let a = obj(vec![("x", s("1")), ("y", s("2"))]);
    let b = obj(vec![("y", s("2")), ("x", s("1"))]);
    assert!(style_changed(&Some(b), &a));
    assert!(!style_changed(&None, &a));
}

#[test]
fn update_assigns_only_given_columns() {
    let mut input = update_input("1");
    input.name = Some("  B ".to_string());
    input.description = Some(None);
    input.kind = Some("bogus".to_string());
    input.model_id = Some("m2".to_string());
    let brief = Some((Some("br".to_string()), Some("h".to_string())));
    let cols = update_assignments(&input, 7, &brief, "NOW");
    let names: Vec<&str> = cols.iter().map(|(c, _)| c.as_str()).collect();
    assert_eq!(
        names,
        vec!["version", "updatedAt", "name", "description", "kind", "styleBrief", "briefSourceHash", "modelId"]
    );
    assert!(matches!(cols[0].1, ColumnValue::Integer(7)));
    assert!(matches!(&cols[2].1, ColumnValue::Text(t) if t == "B"));
    assert!(matches!(cols[3].1, ColumnValue::Null));
    assert!(matches!(&cols[4].1, ColumnValue::Text(t) if t == "foto"));
}

#[test]
fn delete_reports_missing_style() {
    assert_eq!(
        deleted_style(0, "x".to_string()).unwrap_err().message(),
        "Stil nicht gefunden."
    );
    assert_eq!(
        deleted_style(1, "x".to_string()).unwrap().to_compact_string(),
        r#"{"id":"x"}"#
    );
}

#[test]
fn duplicate_marks_copy_and_drops_anchors() {
    let source = row(style("1", "Noir", Some("d"), &["t"]), Some("h".to_string()));
    let copy = duplicate_style_plan(&source);
    assert_eq!(copy.name, "Noir (Kopie)");
    assert_eq!(copy.anchor_image_ids, "[]");
    assert_eq!(copy.tags, r#"["t"]"#);
    assert_eq!(copy.style_brief.as_deref(), Some("brief"));
    assert_eq!(copy.brief_source_hash.as_deref(), Some("h"));
    assert_eq!(copy.style_json_text, r#"{"mood":"calm"}"#);
}

#[test]
fn generation_history_defaults_to_fifty() {
    assert_eq!(generations_query(None), (None, 50));
    assert_eq!(
        generations_query(Some(ListGenerationsInput { style_id: Some("s".to_string()), limit: None })),
        (Some("s".to_string()), 50)
    );
    assert_eq!(
        generations_query(Some(ListGenerationsInput { style_id: None, limit: Some(5) })),
        (None, 5)
    );
}
