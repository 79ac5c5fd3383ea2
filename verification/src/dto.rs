use vstd::prelude::*;

use crate::json::Json;
use crate::text::{owned, text_eq};

verus! {

// ---------- Provider parameters ----------

/// Optional generation parameters chosen by the user.
pub struct GenerateParams {
    pub aspect_ratio: Option<String>,
    pub image_size: Option<String>,
    pub thinking_level: Option<String>,
    pub count: Option<u32>,
}

/// A reference image: its MIME type and its base64 data (without `data:` prefix).
pub struct ReferenceImage {
    pub mime_type: String,
    pub data: String,
}

// ---------- Style ----------

/// A style as the front end sees it.
pub struct StyleDTO {
    pub id: String,
    pub name: String,
    pub description: Option<String>,
    pub kind: String,
    pub tags: Vec<String>,
    pub style_json: Json,
    pub style_brief: Option<String>,
    pub schema_version: i64,
    pub version: i64,
    pub provider: String,
    pub model_id: String,
    pub default_params: Json,
    pub anchor_image_ids: Vec<String>,
    pub created_at: String,
    pub updated_at: String,
}

/// One stored version of a style's JSON.
pub struct StyleVersionDTO {
    pub version: i64,
    pub style_json: Json,
    pub created_at: String,
}

/// Input for creating a style.
pub struct CreateStyleInput {
    pub name: String,
    pub description: Option<String>,
    pub kind: Option<String>,
    pub tags: Option<Vec<String>>,
    pub style_json: Json,
    pub default_params: Option<Json>,
    pub anchor_image_ids: Option<Vec<String>>,
    pub provider: Option<String>,
    pub model_id: Option<String>,
}

/// Input for updating a style; absent fields stay as they are. The
/// description may be given as an explicit null to clear it.
pub struct UpdateStyleInput {
    pub id: String,
    pub name: Option<String>,
    pub description: Option<Option<String>>,
    pub kind: Option<String>,
    pub tags: Option<Vec<String>>,
    pub style_json: Option<Json>,
    pub default_params: Option<Json>,
    pub anchor_image_ids: Option<Vec<String>>,
    pub provider: Option<String>,
    pub model_id: Option<String>,
}

// ---------- Generate ----------

/// Input for generating images.
pub struct GenerateInput {
    pub style_json: Json,
    pub subject: String,
    pub provider: Option<String>,
    pub model_id: Option<String>,
    pub params: Option<GenerateParams>,
    pub references: Option<Vec<ReferenceImage>>,
    pub kind: Option<String>,
    pub style_id: Option<String>,
}

/// A generated image as a data URL.
pub struct GeneratedImageOut {
    pub data_url: String,
    pub mime_type: String,
}

// ---------- Images / anchors ----------

pub struct AnchorImageDTO {
    pub id: String,
    pub data_url: String,
}

pub struct DataUrlOut {
    pub data_url: String,
}

pub struct AddAnchorOut {
    pub image_id: String,
    pub anchor_image_ids: Vec<String>,
}

pub struct RemoveAnchorOut {
    pub anchor_image_ids: Vec<String>,
}

// ---------- Analyze / brief ----------

pub struct AnalyzeStyleInput {
    pub image_base64: String,
    pub mime_type: String,
}

pub struct AnalyzeStyleOutput {
    pub style_json: Json,
}

pub struct CompileStyleBriefInput {
    pub style_json: Json,
    pub kind: Option<String>,
}

pub struct CompileStyleBriefResult {
    pub brief: String,
}

// ---------- Models / settings ----------

pub struct AvailableModel {
    pub provider_id: String,
    pub model_id: String,
    pub label: String,
    pub supports_references: bool,
}

/// What the settings page shows.
pub struct SettingsInfo {
    pub has_open_router_key: bool,
    pub open_router_key_masked: Option<String>,
    /// Where the effective key comes from: "env" (takes precedence) or
    /// "config" (saved through the settings page); `None` when there is none.
    pub open_router_key_source: Option<String>,
    pub config_path: String,
    pub image_dir: String,
    pub database_url: String,
}

/// The image kinds a style can have.
pub open spec fn is_image_kind(s: Seq<char>) -> bool {
    s == "foto"@ || s == "illustration"@ || s == "infografik"@
}

/// A valid image kind for any input: the input if it is one, else "foto".
pub open spec fn image_kind(value: Option<Seq<char>>) -> Seq<char> {
    match value {
        Some(v) => if is_image_kind(v) {
            v
        } else {
            "foto"@
        },
        None => "foto"@,
    }
}

/// The views of an optional string slice.
pub open spec fn opt_view(v: Option<&str>) -> Option<Seq<char>> {
    match v {
        Some(s) => Some(s@),
        None => None,
    }
}

/// The views of an optional string.
pub open spec fn opt_string_view(v: Option<String>) -> Option<Seq<char>> {
    match v {
        Some(s) => Some(s@),
        None => None,
    }
}

/// Coerces any string to a valid image kind (fallback: "foto").
pub fn as_image_kind(value: Option<&str>) -> (res: String)
    ensures
        res@ == image_kind(opt_view(value)),
        is_image_kind(res@),
{
    match value {
        Some(v) => {
            if text_eq(v, "foto") || text_eq(v, "illustration") || text_eq(v, "infografik") {
                owned(v)
            } else {
                owned("foto")
            }
        },
        None => owned("foto"),
    }
}

/// A copy of optional text.
pub fn clone_opt(v: &Option<String>) -> (res: Option<String>)
    ensures
        opt_string_view(res) == opt_string_view(*v),
{
    match v {
        Some(s) => Some(s.clone()),
        None => None,
    }
}

/// A copy of a list of strings.
pub fn clone_strings(v: &Vec<String>) -> (res: Vec<String>)
    ensures
        res@.map_values(|s: String| s@) == v@.map_values(|s: String| s@),
{
    let mut out: Vec<String> = Vec::new();
    let mut i: usize = 0;
    while i < v.len()
        invariant
            i <= v@.len(),
            out@.len() == i,
            forall|k: int| 0 <= k < i ==> (#[trigger] out@[k])@ == v@[k]@,
        decreases v@.len() - i,
    {
        out.push(v[i].clone());
        i = i + 1;
    }
    assert(out@.map_values(|s: String| s@) =~= v@.map_values(|s: String| s@));
    out
}

/// Law: a valid kind is kept as it is; any other text, and no kind at all,
/// gives "foto". So coercing twice is coercing once.
pub proof fn law_image_kind(k: Seq<char>)
    ensures
        is_image_kind(k) ==> image_kind(Some(k)) == k,
        !is_image_kind(k) ==> image_kind(Some(k)) == "foto"@,
        image_kind(None) == "foto"@,
        is_image_kind(image_kind(Some(k))),
        image_kind(Some(image_kind(Some(k)))) == image_kind(Some(k)),
{
}

} // verus!
