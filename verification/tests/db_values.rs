use image_style_studio::db::{datetime_iso, parse_datetime_str, read_datetime, to_iso_string, StoredValue};
use image_style_studio::json::Json;
use image_style_studio::repo::{map_style_row, map_version_row, StyleColumns};

#[test]
fn parses_rfc3339_and_prisma_variants() {
    assert!(parse_datetime_str("2026-06-11T12:00:00.000Z").is_some());
    assert!(parse_datetime_str("2026-06-11 12:00:00.000 +00:00").is_some());
    assert!(parse_datetime_str("2026-06-11 12:00:00").is_some());
}

#[test]
fn parsed_variants_agree_on_the_instant() {
    let a = parse_datetime_str("2026-06-11T12:00:00.000Z").unwrap();
    let b = parse_datetime_str("2026-06-11 12:00:00.000 +00:00").unwrap();
    let c = parse_datetime_str("2026-06-11 12:00:00").unwrap();
    let d = parse_datetime_str("2026-06-11T14:00:00+02:00").unwrap();
    assert_eq!(a, b);
    assert_eq!(a, c);
    assert_eq!(a, d);
    assert_eq!(a, (1_781_179_200, 0));
}

#[test]
fn unreadable_date_text_is_none() {
    assert!(parse_datetime_str("yesterday").is_none());
    assert!(parse_datetime_str("").is_none());
}

#[test]
fn iso_text_has_milliseconds_and_z() {
    assert_eq!(to_iso_string((0, 0)).unwrap(), "1970-01-01T00:00:00.000Z");
    assert_eq!(to_iso_string((1_781_179_200, 123_456_789)).unwrap(), "2026-06-11T12:00:00.123Z");
    assert!(to_iso_string((i64::MAX, 0)).is_none());
}

#[test]
fn stored_datetimes_are_read_leniently() {
    assert_eq!(read_datetime(&StoredValue::Integer(5)), Some((0, 5_000_000)));
    assert_eq!(read_datetime(&StoredValue::Integer(-1)), Some((-1, 999_000_000)));
    assert_eq!(
        read_datetime(&StoredValue::Text("1970-01-01T00:00:01Z".to_string())),
        Some((1, 0))
    );
    assert_eq!(read_datetime(&StoredValue::Null), None);
    assert_eq!(read_datetime(&StoredValue::Blob(vec![1, 2])), None);
    assert_eq!(read_datetime(&StoredValue::Integer(i64::MAX)), None);
}

#[test]
fn unreadable_datetime_falls_back_to_now() {
    let now = "2030-01-01T00:00:00.000Z";
    assert_eq!(datetime_iso(&StoredValue::Null, now), now);
    assert_eq!(datetime_iso(&StoredValue::Text("x".to_string()), now), now);
    assert_eq!(
        datetime_iso(&StoredValue::Integer(86_400_000), now),
        "1970-01-02T00:00:00.000Z"
    );
}

fn columns() -> StyleColumns {
    StyleColumns {
        id: "s1".to_string(),
        name: "Noir".to_string(),
        description: None,
        kind: "unknown".to_string(),
        tags: Json::Array(vec![Json::String("a".to_string()), Json::Null, Json::String("b".to_string())]),
        style_json: Json::Null,
        style_brief: Some("brief".to_string()),
        brief_source_hash: Some("h".to_string()),
        schema_version: 1,
        version: 3,
        provider: "openrouter".to_string(),
        model_id: "m".to_string(),
        default_params: Json::Object(vec![("count".to_string(), Json::Number("2".to_string()))]),
        anchor_image_ids: Json::String("oops".to_string()),
        created_at: StoredValue::Integer(0),
        updated_at: StoredValue::Text("2026-06-11 12:00:00".to_string()),
    }
}

#[test]
fn style_rows_map_to_dtos() {
    let row = map_style_row(columns(), "NOW");
    assert_eq!(row.brief_source_hash.as_deref(), Some("h"));
    let dto = row.dto;
    assert_eq!(dto.id, "s1");
    assert_eq!(dto.kind, "foto");
    assert_eq!(dto.tags, vec!["a", "b"]);
    assert_eq!(dto.style_json.to_compact_string(), "{}");
    assert_eq!(dto.default_params.to_compact_string(), r#"{"count":2}"#);
    assert!(dto.anchor_image_ids.is_empty());
    assert_eq!(dto.version, 3);
    assert_eq!(dto.created_at, "1970-01-01T00:00:00.000Z");
    assert_eq!(dto.updated_at, "2026-06-11T12:00:00.000Z");
}

#[test]
fn version_rows_map_to_dtos() {
    let v = map_version_row(2, Json::Null, &StoredValue::Null, "NOW");
    assert_eq!(v.version, 2);
    assert_eq!(v.style_json.to_compact_string(), "{}");
    assert_eq!(v.created_at, "NOW");
}

#[test]
fn leap_second_text_reads_back_unchanged() {
    let now = "NOW";
    let text = StoredValue::Text("2016-12-31T23:59:60.500Z".to_string());
    assert_eq!(datetime_iso(&text, now), "2016-12-31T23:59:60.500Z");
}
