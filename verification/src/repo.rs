use vstd::prelude::*;

use crate::db::{datetime_iso, datetime_text, StoredValue};
use crate::dto::{as_image_kind, image_kind, StyleDTO, StyleVersionDTO};
use crate::json::{json_string_array, string_values, strs, Json, JsonV};

verus! {

/// The columns of a row of the style table, as read: the JSON columns
/// already decoded (`Null` where a column held no readable JSON), the
/// date-time columns as stored.
pub struct StyleColumns {
    pub id: String,
    pub name: String,
    pub description: Option<String>,
    pub kind: String,
    pub tags: Json,
    pub style_json: Json,
    pub style_brief: Option<String>,
    pub brief_source_hash: Option<String>,
    pub schema_version: i64,
    pub version: i64,
    pub provider: String,
    pub model_id: String,
    pub default_params: Json,
    pub anchor_image_ids: Json,
    pub created_at: StoredValue,
    pub updated_at: StoredValue,
}

/// A full style row: the DTO and the hash of the style JSON that the stored
/// brief was made from (which the DTO does not carry).
pub struct StyleRow {
    pub dto: StyleDTO,
    pub brief_source_hash: Option<String>,
}

/// The metadata of a stored image.
pub struct ImageRow {
    pub id: String,
    pub path: String,
}

/// A JSON column as the DTO shows it: an empty object in place of null.
pub open spec fn object_or_empty(j: JsonV) -> JsonV {
    match j {
        JsonV::Null => JsonV::Object(Seq::empty()),
        _ => j,
    }
}

/// A JSON column as the DTOs show it: an empty object in place of null.
pub fn json_or_empty_object(j: Json) -> (res: Json)
    ensures
        res@ == object_or_empty(j@),
{
    match j {
        Json::Null => {
            let res = Json::Object(Vec::new());
            proof {
                assert(res@ == JsonV::Object(crate::json::view_entries(Seq::empty())));
            }
            res
        },
        other => other,
    }
}

/// Turns the columns of a style row into a [`StyleRow`]. Unknown kinds read
/// as "foto", non-string entries of the id lists are skipped, and a
/// date-time column that holds no instant reads as `now`.
pub fn map_style_row(cols: StyleColumns, now: &str) -> (res: StyleRow)
    ensures
        res.brief_source_hash == cols.brief_source_hash,
        res.dto.id == cols.id,
        res.dto.name == cols.name,
        res.dto.description == cols.description,
        res.dto.kind@ == image_kind(Some(cols.kind@)),
        strs(res.dto.tags@) == string_values(cols.tags@),
        res.dto.style_json@ == object_or_empty(cols.style_json@),
        res.dto.style_brief == cols.style_brief,
        res.dto.schema_version == cols.schema_version,
        res.dto.version == cols.version,
        res.dto.provider == cols.provider,
        res.dto.model_id == cols.model_id,
        res.dto.default_params@ == object_or_empty(cols.default_params@),
        strs(res.dto.anchor_image_ids@) == string_values(cols.anchor_image_ids@),
        res.dto.created_at@ == datetime_text(cols.created_at, now@),
        res.dto.updated_at@ == datetime_text(cols.updated_at, now@),
{
    let kind = as_image_kind(Some(cols.kind.as_str()));
    let tags = json_string_array(&cols.tags);
    let anchor_image_ids = json_string_array(&cols.anchor_image_ids);
    let created_at = datetime_iso(&cols.created_at, now);
    let updated_at = datetime_iso(&cols.updated_at, now);
    StyleRow {
        brief_source_hash: cols.brief_source_hash,
        dto: StyleDTO {
            id: cols.id,
            name: cols.name,
            description: cols.description,
            kind,
            tags,
            style_json: json_or_empty_object(cols.style_json),
            style_brief: cols.style_brief,
            schema_version: cols.schema_version,
            version: cols.version,
            provider: cols.provider,
            model_id: cols.model_id,
            default_params: json_or_empty_object(cols.default_params),
            anchor_image_ids,
            created_at,
            updated_at,
        },
    }
}

/// Turns the columns of a row of the version table into a DTO: a null style
/// JSON reads as an empty object, a date-time that holds no instant as `now`.
pub fn map_version_row(version: i64, style_json: Json, created_at: &StoredValue, now: &str) -> (res:
    StyleVersionDTO)
    ensures
        res.version == version,
        res.style_json@ == object_or_empty(style_json@),
        res.created_at@ == datetime_text(*created_at, now@),
{
    StyleVersionDTO {
        version,
        style_json: json_or_empty_object(style_json),
        created_at: datetime_iso(created_at, now),
    }
}

} // verus!
