use vstd::prelude::*;

use crate::config::Config;
use crate::dto::{AvailableModel, GenerateParams, ReferenceImage, opt_view, opt_string_view};
use crate::error::{AppError, msg_of};
use crate::json::{
    Json, JsonV, EntryV, json_string, json_string_array, lemma_view_entries, lemma_view_items,
    member, member_str, str_of, string_values, strs, view_entries, view_items,
};
use crate::text::{
    all_digits, decimal, decimal_string, digits_value, owned, parse_decimal, push_str, text_eq,
    trim, trimmed,
};

verus! {

pub const BASE_URL: &'static str = "https://openrouter.ai/api/v1";

/// How long a fetched list of image models stays fresh, in seconds (six hours).
pub const IMAGE_MODEL_TTL_SECS: u64 = 21600;

/// An image model and the request parameters it supports.
#[derive(Debug)]
pub struct ImageModel {
    pub id: String,
    pub label: String,
    pub image_sizes: Vec<String>,
    pub aspect_ratios: Vec<String>,
    pub max_count: u32,
    pub max_references: u32,
}

/// The model of an [`ImageModel`].
pub struct ImageModelV {
    pub id: Seq<char>,
    pub label: Seq<char>,
    pub image_sizes: Seq<Seq<char>>,
    pub aspect_ratios: Seq<Seq<char>>,
    pub max_count: u32,
    pub max_references: u32,
}

impl View for ImageModel {
    type V = ImageModelV;

    open spec fn view(&self) -> ImageModelV {
        ImageModelV {
            id: self.id@,
            label: self.label@,
            image_sizes: strs(self.image_sizes@),
            aspect_ratios: strs(self.aspect_ratios@),
            max_count: self.max_count,
            max_references: self.max_references,
        }
    }
}

pub open spec fn models_view(v: Seq<ImageModel>) -> Seq<ImageModelV> {
    v.map_values(|m: ImageModel| m@)
}

/// A copy of a list of strings with the same models.
fn copy_strings(v: &Vec<String>) -> (res: Vec<String>)
    ensures
        strs(res@) == strs(v@),
{
    crate::dto::clone_strings(v)
}

impl ImageModel {
    /// A copy with the same model.
    pub fn duplicate(&self) -> (res: ImageModel)
        ensures
            res@ == self@,
    {
        ImageModel {
            id: self.id.clone(),
            label: self.label.clone(),
            image_sizes: copy_strings(&self.image_sizes),
            aspect_ratios: copy_strings(&self.aspect_ratios),
            max_count: self.max_count,
            max_references: self.max_references,
        }
    }
}

/// A copy of a list of models.
pub fn duplicate_models(v: &Vec<ImageModel>) -> (res: Vec<ImageModel>)
    ensures
        models_view(res@) == models_view(v@),
{
    let mut out: Vec<ImageModel> = Vec::new();
    let mut i: usize = 0;
    while i < v.len()
        invariant
            i <= v@.len(),
            out@.len() == i,
            forall|k: int| 0 <= k < i ==> (#[trigger] out@[k])@ == v@[k]@,
        decreases v@.len() - i,
    {
        out.push(v[i].duplicate());
        i = i + 1;
    }
    assert(models_view(out@) =~= models_view(v@));
    out
}

/// A generated image: base64 data and MIME type.
#[derive(Debug)]
pub struct GeneratedImage {
    pub data: String,
    pub mime_type: String,
}

/// What the image endpoint answered: the images, and the text of the
/// reported cost when the answer gives one as a number.
#[derive(Debug)]
pub struct ImageResponse {
    pub images: Vec<GeneratedImage>,
    pub cost: Option<String>,
}

/// The time-stamped list of image models last fetched. `fetched_at` is in
/// seconds on the caller's monotonic clock.
pub struct ImageModelCache {
    pub fetched_at: u64,
    pub models: Vec<ImageModel>,
}

// ---------------------------------------------------------------------------
// Credentials and request headers
// ---------------------------------------------------------------------------

pub open spec fn missing_key_message() -> Seq<char> {
    "OPENROUTER_API_KEY ist nicht gesetzt. Trage ihn in den Einstellungen bzw. der .env-Datei ein (siehe .env.example)."@
}

/// The effective API key: the `OPENROUTER_API_KEY` setting when it is not blank.
pub open spec fn effective_key(config: Map<Seq<char>, Seq<char>>) -> Option<Seq<char>> {
    if config.contains_key("OPENROUTER_API_KEY"@) && !crate::text::is_blank(
        config["OPENROUTER_API_KEY"@],
    ) {
        Some(config["OPENROUTER_API_KEY"@])
    } else {
        None
    }
}

/// The OpenRouter API key, or the error that asks for one.
pub fn api_key(config: &Config) -> (res: Result<String, AppError>)
    ensures
        match effective_key(config@) {
            Some(k) => res matches Ok(r) && r@ == k,
            None => res matches Err(e) && msg_of(e) == Some(missing_key_message()),
        },
{
    match config.openrouter_api_key() {
        Some(k) => Ok(owned(k)),
        None => Err(
            AppError::msg_str(
                "OPENROUTER_API_KEY ist nicht gesetzt. Trage ihn in den Einstellungen bzw. der .env-Datei ein (siehe .env.example).",
            ),
        ),
    }
}

/// The headers of every OpenRouter request: authorization and content type,
/// then the optional attribution headers when they are configured.
pub open spec fn request_headers(config: Map<Seq<char>, Seq<char>>, key: Seq<char>) -> Seq<
    (Seq<char>, Seq<char>),
> {
    let h0 = seq![
        ("Authorization"@, "Bearer "@ + key),
        ("Content-Type"@, "application/json"@),
    ];
    let h1 = if config.contains_key("OPENROUTER_HTTP_REFERER"@) {
        h0.push(("HTTP-Referer"@, config["OPENROUTER_HTTP_REFERER"@]))
    } else {
        h0
    };
    if config.contains_key("OPENROUTER_APP_TITLE"@) {
        h1.push(("X-Title"@, config["OPENROUTER_APP_TITLE"@]))
    } else {
        h1
    }
}

pub open spec fn header_views(v: Seq<(String, String)>) -> Seq<(Seq<char>, Seq<char>)> {
    v.map_values(|h: (String, String)| (h.0@, h.1@))
}

/// The headers for an OpenRouter request; fails when there is no API key.
pub fn or_request_headers(config: &Config) -> (res: Result<Vec<(String, String)>, AppError>)
    ensures
        match effective_key(config@) {
            Some(k) => res matches Ok(h) && header_views(h@) == request_headers(config@, k),
            None => res matches Err(e) && msg_of(e) == Some(missing_key_message()),
        },
{
    let key = api_key(config)?;
    let mut auth = owned("Bearer ");
    push_str(&mut auth, key.as_str());
    let mut headers: Vec<(String, String)> = Vec::new();
    headers.push((owned("Authorization"), auth));
    headers.push((owned("Content-Type"), owned("application/json")));
    let ghost h0 = header_views(headers@);
    assert(h0 =~= seq![
        ("Authorization"@, "Bearer "@ + key@),
        ("Content-Type"@, "application/json"@),
    ]);
    match config.get("OPENROUTER_HTTP_REFERER") {
        Some(r) => {
            headers.push((owned("HTTP-Referer"), owned(r)));
        },
        None => {},
    }
    let ghost h1 = header_views(headers@);
    assert(h1 =~= (if config@.contains_key("OPENROUTER_HTTP_REFERER"@) {
        h0.push(("HTTP-Referer"@, config@["OPENROUTER_HTTP_REFERER"@]))
    } else {
        h0
    }));
    match config.get("OPENROUTER_APP_TITLE") {
        Some(t) => {
            headers.push((owned("X-Title"), owned(t)));
        },
        None => {},
    }
    assert(header_views(headers@) =~= request_headers(config@, key@));
    Ok(headers)
}

// ---------------------------------------------------------------------------
// The list of image models
// ---------------------------------------------------------------------------

/// `value.as_u64()` on a number's text: its value when it is a non-negative integer.
pub open spec fn number_u64(t: Seq<char>) -> Option<nat> {
    if t.len() > 0 && all_digits(t) && digits_value(t) <= u64::MAX {
        Some(digits_value(t))
    } else {
        None
    }
}

/// The `max` of a range parameter, when it is an integer that fits a `u32`.
pub open spec fn range_max_of(parameter: JsonV) -> Option<u32> {
    match member(parameter, "max"@) {
        JsonV::Number(t) => match number_u64(t) {
            Some(v) => if v <= u32::MAX {
                Some(v as u32)
            } else {
                None
            },
            None => None,
        },
        _ => None,
    }
}

/// The strings listed under `values` of an enum parameter.
pub open spec fn enum_values_of(parameter: JsonV) -> Seq<Seq<char>> {
    string_values(member(parameter, "values"@))
}

/// The model that one element of the `data` list describes, if it has a
/// non-blank `id`.
pub open spec fn model_entry(m: JsonV) -> Option<ImageModelV> {
    match str_of(member(m, "id"@)) {
        None => None,
        Some(raw) => {
            let id = trimmed(raw);
            if id.len() == 0 {
                None
            } else {
                let params = member(m, "supported_parameters"@);
                let n = match range_max_of(member(params, "n"@)) {
                    Some(v) => v,
                    None => 1u32,
                };
                Some(
                    ImageModelV {
                        id,
                        label: match str_of(member(m, "name"@)) {
                            Some(name) => name,
                            None => id,
                        },
                        image_sizes: enum_values_of(member(params, "resolution"@)),
                        aspect_ratios: enum_values_of(member(params, "aspect_ratio"@)),
                        max_count: if n >= 1 {
                            n
                        } else {
                            1u32
                        },
                        max_references: match range_max_of(member(params, "input_references"@)) {
                            Some(v) => v,
                            None => 0u32,
                        },
                    },
                )
            }
        },
    }
}

/// The models described by a `data` list, in order.
pub open spec fn parsed_models(items: Seq<JsonV>) -> Seq<ImageModelV>
    decreases items.len(),
{
    if items.len() == 0 {
        Seq::empty()
    } else {
        match model_entry(items.last()) {
            Some(m) => parsed_models(items.drop_last()).push(m),
            None => parsed_models(items.drop_last()),
        }
    }
}

pub open spec fn invalid_model_list_message() -> Seq<char> {
    "OpenRouter hat keine gültige Bildmodellliste geliefert."@
}

/// The `max` of a range parameter, when it is an integer that fits a `u32`.
pub fn range_max(parameter: &Json) -> (res: Option<u32>)
    ensures
        res == range_max_of(parameter@),
{
    match parameter.get("max") {
        Some(Json::Number(t)) => {
            match parse_decimal(t.as_str()) {
                Some(v) => {
                    if v <= 4294967295u64 {
                        Some(v as u32)
                    } else {
                        None
                    }
                },
                None => None,
            }
        },
        _ => None,
    }
}

/// The strings listed under `values` of an enum parameter.
pub fn enum_values(parameter: &Json) -> (res: Vec<String>)
    ensures
        strs(res@) == enum_values_of(parameter@),
{
    match parameter.get("values") {
        Some(v) => json_string_array(v),
        None => {
            let res: Vec<String> = Vec::new();
            assert(strs(res@) =~= Seq::<Seq<char>>::empty());
            res
        },
    }
}

/// The member `key` of an object, or `null` (serde_json's `value[key]`).
fn member_or_null(j: &Json, key: &str) -> (res: Json)
    ensures
        res@ == member(j@, key@),
{
    match j.get(key) {
        Some(v) => v.deep_clone(),
        None => Json::Null,
    }
}

fn model_from_entry(m: &Json) -> (res: Option<ImageModel>)
    ensures
        match model_entry(m@) {
            Some(mv) => res matches Some(r) && r@ == mv,
            None => res is None,
        },
{
    let raw = match member_str(m, "id") {
        Some(s) => s,
        None => {
            return None;
        },
    };
    let id = trim(raw.as_str());
    if id.as_str().is_empty() {
        return None;
    }
    proof {
        assert(id@.len() != 0);
    }
    let params = member_or_null(m, "supported_parameters");
    let label = match member_str(m, "name") {
        Some(n) => n.clone(),
        None => id.clone(),
    };
    let max_references = match range_max(&member_or_null(&params, "input_references")) {
        Some(v) => v,
        None => 0,
    };
    let image_sizes = enum_values(&member_or_null(&params, "resolution"));
    let aspect_ratios = enum_values(&member_or_null(&params, "aspect_ratio"));
    let n = match range_max(&member_or_null(&params, "n")) {
        Some(v) => v,
        None => 1,
    };
    let max_count = if n >= 1 {
        n
    } else {
        1
    };
    Some(ImageModel { id, label, image_sizes, aspect_ratios, max_count, max_references })
}

/// The image models of a `/images/models` answer: every element of `data`
/// with a non-blank `id`, in order. Fails when `data` is not a list.
pub fn parse_image_models(json: &Json) -> (res: Result<Vec<ImageModel>, AppError>)
    ensures
        match member(json@, "data"@) {
            JsonV::Array(items) => res matches Ok(ms) && models_view(ms@) == parsed_models(items),
            _ => res matches Err(e) && msg_of(e) == Some(invalid_model_list_message()),
        },
{
    let items = match json.get("data") {
        Some(Json::Array(items)) => items,
        _ => {
            return Err(AppError::msg_str("OpenRouter hat keine gültige Bildmodellliste geliefert."));
        },
    };
    proof {
        lemma_view_items(items@);
    }
    let ghost vs = view_items(items@);
    let mut out: Vec<ImageModel> = Vec::new();
    let mut i: usize = 0;
    while i < items.len()
        invariant
            i <= items@.len(),
            vs == view_items(items@),
            vs.len() == items@.len(),
            forall|k: int| 0 <= k < items@.len() ==> #[trigger] vs[k] == items@[k]@,
            models_view(out@) == parsed_models(vs.take(i as int)),
        decreases items@.len() - i,
    {
        proof {
            let t = vs.take(i + 1);
            assert(t.drop_last() =~= vs.take(i as int));
            assert(t.last() == vs[i as int]);
        }
        match model_from_entry(&items[i]) {
            Some(m) => {
                let ghost before = out@;
                out.push(m);
                proof {
                    assert(models_view(out@) =~= models_view(before).push(out@.last()@));
                }
            },
            None => {},
        }
        i = i + 1;
    }
    proof {
        assert(vs.take(items@.len() as int) =~= vs);
    }
    Ok(out)
}

/// The message text of an error answer (`error.message`), if it gives one.
pub open spec fn error_message_of(body: JsonV) -> Option<Seq<char>> {
    str_of(member(member(body, "error"@), "message"@))
}

fn error_message(body: &Json) -> (res: Option<String>)
    ensures
        opt_string_view(res) == error_message_of(body@),
{
    let err = member_or_null(body, "error");
    match member_str(&err, "message") {
        Some(s) => Some(s.clone()),
        None => None,
    }
}

pub open spec fn unreadable_models_message(status: Seq<char>) -> Seq<char> {
    "OpenRouter-Modellliste konnte nicht gelesen werden (HTTP "@ + status + ")."@
}

pub open spec fn failed_models_message(msg: Seq<char>) -> Seq<char> {
    "OpenRouter-Modellliste konnte nicht geladen werden: "@ + msg
}

pub open spec fn no_models_message() -> Seq<char> {
    "OpenRouter hat keine Bildmodelle zurückgegeben. Bitte später erneut versuchen."@
}

/// The outcome of `GET /images/models`, given whether the HTTP status was a
/// success, its text, and the parsed body (`None` when the body was not JSON).
pub open spec fn model_list_outcome(status_ok: bool, status: Seq<char>, body: Option<JsonV>) -> Result<
    Seq<ImageModelV>,
    Seq<char>,
> {
    match body {
        None => Err(unreadable_models_message(status)),
        Some(b) => if !status_ok {
            Err(
                failed_models_message(
                    match error_message_of(b) {
                        Some(m) => m,
                        None => "Unbekannter Fehler"@,
                    },
                ),
            )
        } else {
            match member(b, "data"@) {
                JsonV::Array(items) => if parsed_models(items).len() == 0 {
                    Err(no_models_message())
                } else {
                    Ok(parsed_models(items))
                },
                _ => Err(invalid_model_list_message()),
            }
        },
    }
}

/// Interprets the answer of `GET /images/models`.
pub fn model_list_result(status_ok: bool, status: &str, body: Option<&Json>) -> (res: Result<
    Vec<ImageModel>,
    AppError,
>)
    ensures
        match model_list_outcome(
            status_ok,
            status@,
            match body {
                Some(b) => Some(b@),
                None => None,
            },
        ) {
            Ok(ms) => res matches Ok(r) && models_view(r@) == ms,
            Err(m) => res matches Err(e) && msg_of(e) == Some(m),
        },
{
    let json = match body {
        Some(b) => b,
        None => {
            let mut m = owned("OpenRouter-Modellliste konnte nicht gelesen werden (HTTP ");
            push_str(&mut m, status);
            push_str(&mut m, ").");
            return Err(AppError::msg(m));
        },
    };
    if !status_ok {
        let mut m = owned("OpenRouter-Modellliste konnte nicht geladen werden: ");
        match error_message(json) {
            Some(e) => push_str(&mut m, e.as_str()),
            None => push_str(&mut m, "Unbekannter Fehler"),
        }
        return Err(AppError::msg(m));
    }
    let models = parse_image_models(json)?;
    if models.len() == 0 {
        return Err(
            AppError::msg_str(
                "OpenRouter hat keine Bildmodelle zurückgegeben. Bitte später erneut versuchen.",
            ),
        );
    }
    Ok(models)
}

/// The cached models, when the cache was filled at most [`IMAGE_MODEL_TTL_SECS`] ago.
pub fn fresh_cached_models(cache: &Option<ImageModelCache>, now: u64) -> (res: Option<
    Vec<ImageModel>,
>)
    ensures
        match cache {
            Some(c) => if now >= c.fetched_at && now - c.fetched_at <= IMAGE_MODEL_TTL_SECS {
                res matches Some(ms) && models_view(ms@) == models_view(c.models@)
            } else {
                res is None
            },
            None => res is None,
        },
{
    match cache {
        Some(c) => {
            if now >= c.fetched_at && now - c.fetched_at <= IMAGE_MODEL_TTL_SECS {
                Some(duplicate_models(&c.models))
            } else {
                None
            }
        },
        None => None,
    }
}

/// After fetching the model list: a successful fetch replaces the cache and
/// is returned; a failed one falls back to the models still cached, and
/// only when there are none is the error returned.
pub fn settle_model_fetch(
    cache: Option<ImageModelCache>,
    now: u64,
    fetched: Result<Vec<ImageModel>, AppError>,
) -> (res: (Option<ImageModelCache>, Result<Vec<ImageModel>, AppError>))
    ensures
        match fetched {
            Ok(ms) => (res.0 matches Some(c) && c.fetched_at == now && models_view(c.models@)
                == models_view(ms@)) && (res.1 matches Ok(r) && models_view(r@) == models_view(ms@)),
            Err(e) => match cache {
                Some(c) => res.0 == Some(c) && (res.1 matches Ok(r) && models_view(r@)
                    == models_view(c.models@)),
                None => res.0 is None && res.1 == Err::<Vec<ImageModel>, AppError>(e),
            },
        },
{
    match fetched {
        Ok(models) => {
            let kept = duplicate_models(&models);
            (Some(ImageModelCache { fetched_at: now, models: kept }), Ok(models))
        },
        Err(e) => {
            match cache {
                Some(c) => {
                    let models = duplicate_models(&c.models);
                    (Some(c), Ok(models))
                },
                None => (None, Err(e)),
            }
        },
    }
}

/// The entry for a model in the model picker.
pub fn available_models(models: &Vec<ImageModel>) -> (res: Vec<AvailableModel>)
    ensures
        res@.len() == models@.len(),
        forall|i: int|
            0 <= i < models@.len() ==> #[trigger] res@[i].provider_id@ == "openrouter"@
                && res@[i].model_id@ == models@[i].id@ && res@[i].label@ == models@[i].label@
                && res@[i].supports_references == (models@[i].max_references > 0),
{
    let mut out: Vec<AvailableModel> = Vec::new();
    let mut i: usize = 0;
    while i < models.len()
        invariant
            i <= models@.len(),
            out@.len() == i,
            forall|k: int|
                0 <= k < i ==> #[trigger] out@[k].provider_id@ == "openrouter"@
                    && out@[k].model_id@ == models@[k].id@ && out@[k].label@ == models@[k].label@
                    && out@[k].supports_references == (models@[k].max_references > 0),
        decreases models@.len() - i,
    {
        out.push(
            AvailableModel {
                provider_id: owned("openrouter"),
                model_id: models[i].id.clone(),
                label: models[i].label.clone(),
                supports_references: models[i].max_references > 0,
            },
        );
        i = i + 1;
    }
    out
}

// ---------------------------------------------------------------------------
// Image requests and answers
// ---------------------------------------------------------------------------

/// A reference image as an input reference of the image API.
pub open spec fn reference_json(mime_type: Seq<char>, data: Seq<char>) -> JsonV {
    JsonV::Object(
        seq![
            ("type"@, JsonV::String("image_url"@)),
            (
                "image_url"@,
                JsonV::Object(
                    seq![("url"@, JsonV::String("data:"@ + mime_type + ";base64,"@ + data))],
                ),
            ),
        ],
    )
}

pub open spec fn references_view(refs: Seq<ReferenceImage>) -> Seq<(Seq<char>, Seq<char>)> {
    refs.map_values(|r: ReferenceImage| (r.mime_type@, r.data@))
}

/// The number of images requested: the asked count (1 when unset) clamped to
/// `1..=max_count`.
pub open spec fn requested_count(count: Option<u32>, max_count: u32) -> u32 {
    let c = match count {
        Some(c) => c,
        None => 1u32,
    };
    if c < 1 {
        1u32
    } else if c > max_count {
        max_count
    } else {
        c
    }
}

/// The body of `POST /images`: the model, the prompt and the image count,
/// then the resolution and the aspect ratio when the model supports the
/// chosen ones, then up to `max_references` reference images when the model
/// takes any.
pub open spec fn image_request(
    model: ImageModelV,
    prompt: Seq<char>,
    refs: Seq<(Seq<char>, Seq<char>)>,
    image_size: Option<Seq<char>>,
    aspect_ratio: Option<Seq<char>>,
    count: Option<u32>,
) -> Seq<EntryV> {
    let e0 = seq![
        ("model"@, JsonV::String(model.id)),
        ("prompt"@, JsonV::String(prompt)),
        ("n"@, JsonV::Number(decimal(requested_count(count, model.max_count) as nat))),
    ];
    let e1 = match image_size {
        Some(s) => if model.image_sizes.contains(s) {
            e0.push(("resolution"@, JsonV::String(s)))
        } else {
            e0
        },
        None => e0,
    };
    let e2 = match aspect_ratio {
        Some(r) => if model.aspect_ratios.contains(r) {
            e1.push(("aspect_ratio"@, JsonV::String(r)))
        } else {
            e1
        },
        None => e1,
    };
    if model.max_references > 0 && refs.len() > 0 {
        let n = if refs.len() < model.max_references as nat {
            refs.len() as int
        } else {
            model.max_references as int
        };
        e2.push(
            (
                "input_references"@,
                JsonV::Array(refs.take(n).map_values(|r: (Seq<char>, Seq<char>)| reference_json(r.0, r.1))),
            ),
        )
    } else {
        e2
    }
}

/// A data URL: `data:<mime>;base64,<data>`.
pub fn data_url(mime_type: &str, data: &str) -> (res: String)
    ensures
        res@ == "data:"@ + mime_type@ + ";base64,"@ + data@,
{
    let mut u = owned("data:");
    push_str(&mut u, mime_type);
    push_str(&mut u, ";base64,");
    push_str(&mut u, data);
    u
}

fn reference_object(r: &ReferenceImage) -> (res: Json)
    ensures
        res@ == reference_json(r.mime_type@, r.data@),
{
    let url = data_url(r.mime_type.as_str(), r.data.as_str());
    let mut inner: Vec<(String, Json)> = Vec::new();
    inner.push((owned("url"), Json::String(url)));
    let mut outer: Vec<(String, Json)> = Vec::new();
    outer.push((owned("type"), json_string("image_url")));
    outer.push((owned("image_url"), Json::Object(inner)));
    proof {
        lemma_view_entries(inner@);
        lemma_view_entries(outer@);
        assert(view_entries(inner@) =~= seq![
            ("url"@, JsonV::String("data:"@ + r.mime_type@ + ";base64,"@ + r.data@)),
        ]);
        assert(view_entries(outer@) =~= seq![
            ("type"@, JsonV::String("image_url"@)),
            (
                "image_url"@,
                JsonV::Object(
                    seq![("url"@, JsonV::String("data:"@ + r.mime_type@ + ";base64,"@ + r.data@))],
                ),
            ),
        ]);
    }
    Json::Object(outer)
}

/// Whether `s` is one of `options`.
fn is_listed(options: &Vec<String>, s: &str) -> (res: bool)
    ensures
        res == strs(options@).contains(s@),
{
    let mut i: usize = 0;
    while i < options.len()
        invariant
            i <= options@.len(),
            forall|k: int| 0 <= k < i ==> strs(options@)[k] != s@,
        decreases options@.len() - i,
    {
        if text_eq(options[i].as_str(), s) {
            assert(strs(options@)[i as int] == s@);
            return true;
        }
        i = i + 1;
    }
    proof {
        if strs(options@).contains(s@) {
            let k = choose|k: int| 0 <= k < strs(options@).len() && strs(options@)[k] == s@;
            assert(strs(options@)[k] != s@);
        }
    }
    false
}

/// Builds the body of `POST /images` from the model's capabilities. The
/// model must allow at least one image per request.
pub fn build_image_request(
    model: &ImageModel,
    prompt_text: &str,
    references: &Vec<ReferenceImage>,
    params: &GenerateParams,
) -> (res: Json)
    requires
        model.max_count >= 1,
    ensures
        res@ == JsonV::Object(
            image_request(
                model@,
                prompt_text@,
                references_view(references@),
                opt_string_view(params.image_size),
                opt_string_view(params.aspect_ratio),
                params.count,
            ),
        ),
{
    let mut body: Vec<(String, Json)> = Vec::new();
    body.push((owned("model"), Json::String(model.id.clone())));
    body.push((owned("prompt"), json_string(prompt_text)));
    let asked: u32 = match params.count {
        Some(c) => c,
        None => 1,
    };
    let count: u32 = if asked < 1 {
        1
    } else if asked > model.max_count {
        model.max_count
    } else {
        asked
    };
    body.push((owned("n"), Json::Number(decimal_string(count as u64))));
    let ghost e0 = view_entries(body@);
    proof {
        lemma_view_entries(body@);
        assert(e0 =~= seq![
            ("model"@, JsonV::String(model.id@)),
            ("prompt"@, JsonV::String(prompt_text@)),
            ("n"@, JsonV::Number(decimal(requested_count(params.count, model.max_count) as nat))),
        ]);
    }
    match &params.image_size {
        Some(size) => {
            if is_listed(&model.image_sizes, size.as_str()) {
                body.push((owned("resolution"), Json::String(size.clone())));
            }
        },
        None => {},
    }
    let ghost e1 = view_entries(body@);
    proof {
        lemma_view_entries(body@);
        let s = opt_string_view(params.image_size);
        if s is Some && strs(model.image_sizes@).contains(s->0) {
            assert(e1 =~= e0.push(("resolution"@, JsonV::String(s->0))));
        } else {
            assert(e1 =~= e0);
        }
    }
    match &params.aspect_ratio {
        Some(ratio) => {
            if is_listed(&model.aspect_ratios, ratio.as_str()) {
                body.push((owned("aspect_ratio"), Json::String(ratio.clone())));
            }
        },
        None => {},
    }
    let ghost e2 = view_entries(body@);
    proof {
        lemma_view_entries(body@);
        let r = opt_string_view(params.aspect_ratio);
        if r is Some && strs(model.aspect_ratios@).contains(r->0) {
            assert(e2 =~= e1.push(("aspect_ratio"@, JsonV::String(r->0))));
        } else {
            assert(e2 =~= e1);
        }
    }
    if model.max_references > 0 && references.len() > 0 {
        let n: usize = if references.len() < model.max_references as usize {
            references.len()
        } else {
            model.max_references as usize
        };
        let ghost rv = references_view(references@);
        let mut refs: Vec<Json> = Vec::new();
        let mut i: usize = 0;
        while i < n
            invariant
                n <= references@.len(),
                i <= n,
                refs@.len() == i,
                rv == references_view(references@),
                forall|k: int|
                    0 <= k < i ==> (#[trigger] refs@[k])@ == reference_json(rv[k].0, rv[k].1),
            decreases n - i,
        {
            refs.push(reference_object(&references[i]));
            i = i + 1;
        }
        proof {
            lemma_view_items(refs@);
            assert(view_items(refs@) =~= rv.take(n as int).map_values(
                |r: (Seq<char>, Seq<char>)| reference_json(r.0, r.1),
            ));
        }
        body.push((owned("input_references"), Json::Array(refs)));
        proof {
            lemma_view_entries(body@);
            assert(view_entries(body@).drop_last() =~= e2);
        }
    }
    proof {
        lemma_view_entries(body@);
        assert(view_entries(body@) =~= image_request(
            model@,
            prompt_text@,
            references_view(references@),
            opt_string_view(params.image_size),
            opt_string_view(params.aspect_ratio),
            params.count,
        ));
    }
    Json::Object(body)
}

/// One element of the answer's `data` list as an image, when it carries
/// non-empty `b64_json`; the MIME type is `media_type`, else `image/png`.
pub open spec fn image_entry(j: JsonV) -> Option<(Seq<char>, Seq<char>)> {
    match str_of(member(j, "b64_json"@)) {
        Some(data) => if data.len() == 0 {
            None
        } else {
            Some(
                (
                    data,
                    match str_of(member(j, "media_type"@)) {
                        Some(m) => m,
                        None => "image/png"@,
                    },
                ),
            )
        },
        None => None,
    }
}

pub open spec fn images_in(items: Seq<JsonV>) -> Seq<(Seq<char>, Seq<char>)>
    decreases items.len(),
{
    if items.len() == 0 {
        Seq::empty()
    } else {
        match image_entry(items.last()) {
            Some(img) => images_in(items.drop_last()).push(img),
            None => images_in(items.drop_last()),
        }
    }
}

pub open spec fn images_view(v: Seq<GeneratedImage>) -> Seq<(Seq<char>, Seq<char>)> {
    v.map_values(|g: GeneratedImage| (g.data@, g.mime_type@))
}

/// The images of an answer of `POST /images` (none when `data` is not a list).
pub open spec fn response_images(json: JsonV) -> Seq<(Seq<char>, Seq<char>)> {
    match member(json, "data"@) {
        JsonV::Array(items) => images_in(items),
        _ => Seq::empty(),
    }
}

/// The text of `usage.cost`, when it is a number.
pub open spec fn response_cost(json: JsonV) -> Option<Seq<char>> {
    match member(member(json, "usage"@), "cost"@) {
        JsonV::Number(t) => Some(t),
        _ => None,
    }
}

/// Reads the images and the reported cost out of an answer of `POST /images`.
pub fn parse_image_response(json: &Json) -> (res: ImageResponse)
    ensures
        images_view(res.images@) == response_images(json@),
        opt_string_view(res.cost) == response_cost(json@),
{
    let mut images: Vec<GeneratedImage> = Vec::new();
    match json.get("data") {
        Some(Json::Array(items)) => {
            proof {
                lemma_view_items(items@);
            }
            let ghost vs = view_items(items@);
            let mut i: usize = 0;
            while i < items.len()
                invariant
                    i <= items@.len(),
                    vs == view_items(items@),
                    vs.len() == items@.len(),
                    forall|k: int| 0 <= k < items@.len() ==> #[trigger] vs[k] == items@[k]@,
                    images_view(images@) == images_in(vs.take(i as int)),
                decreases items@.len() - i,
            {
                proof {
                    let t = vs.take(i + 1);
                    assert(t.drop_last() =~= vs.take(i as int));
                    assert(t.last() == vs[i as int]);
                }
                match member_str(&items[i], "b64_json") {
                    Some(data) => {
                        if !data.as_str().is_empty() {
                            let mime_type = match member_str(&items[i], "media_type") {
                                Some(m) => m.clone(),
                                None => owned("image/png"),
                            };
                            let ghost before = images@;
                            images.push(GeneratedImage { data: data.clone(), mime_type });
                            proof {
                                assert(images_view(images@) =~= images_view(before).push(
                                    (images@.last().data@, images@.last().mime_type@),
                                ));
                            }
                        } else {
                            assert(data@.len() == 0);
                        }
                    },
                    None => {},
                }
                i = i + 1;
            }
            proof {
                assert(vs.take(items@.len() as int) =~= vs);
            }
        },
        _ => {
            assert(images_view(images@) =~= Seq::<(Seq<char>, Seq<char>)>::empty());
        },
    }
    let usage = member_or_null(json, "usage");
    let cost = match usage.get("cost") {
        Some(Json::Number(t)) => Some(t.clone()),
        _ => None,
    };
    ImageResponse { images, cost }
}

pub open spec fn unreadable_answer_message(status: Seq<char>) -> Seq<char> {
    "OpenRouter-Antwort konnte nicht gelesen werden (HTTP "@ + status + ")."@
}

pub open spec fn failed_generation_message(msg: Seq<char>) -> Seq<char> {
    "OpenRouter-Bildgenerierung fehlgeschlagen: "@ + msg
}

/// Interprets the answer of `POST /images`, given whether the HTTP status
/// was a success, its text, and the parsed body (`None` when it was not JSON).
pub fn image_response_result(status_ok: bool, status: &str, body: Option<&Json>) -> (res: Result<
    ImageResponse,
    AppError,
>)
    ensures
        match body {
            None => res matches Err(e) && msg_of(e) == Some(unreadable_answer_message(status@)),
            Some(b) => if !status_ok {
                res matches Err(e) && msg_of(e) == Some(
                    failed_generation_message(
                        match error_message_of(b@) {
                            Some(m) => m,
                            None => "Unbekannter Fehler"@,
                        },
                    ),
                )
            } else {
                res matches Ok(r) && images_view(r.images@) == response_images(b@)
                    && opt_string_view(r.cost) == response_cost(b@)
            },
        },
{
    let json = match body {
        Some(b) => b,
        None => {
            let mut m = owned("OpenRouter-Antwort konnte nicht gelesen werden (HTTP ");
            push_str(&mut m, status);
            push_str(&mut m, ").");
            return Err(AppError::msg(m));
        },
    };
    if !status_ok {
        let mut m = owned("OpenRouter-Bildgenerierung fehlgeschlagen: ");
        match error_message(json) {
            Some(e) => push_str(&mut m, e.as_str()),
            None => push_str(&mut m, "Unbekannter Fehler"),
        }
        return Err(AppError::msg(m));
    }
    Ok(parse_image_response(json))
}

pub open spec fn unavailable_model_message(model_id: Seq<char>) -> Seq<char> {
    "Das Modell '"@ + model_id
        + "' ist bei OpenRouter nicht mehr verfügbar. Wähle ein anderes Bildmodell."@
}

/// The model with the given id among the available ones.
pub fn find_model(models: &Vec<ImageModel>, model_id: &str) -> (res: Result<ImageModel, AppError>)
    ensures
        match res {
            Ok(m) => exists|i: int|
                0 <= i < models@.len() && models@[i].id@ == model_id@ && m@ == models@[i]@ && forall|
                    j: int,
                | 0 <= j < i ==> models@[j].id@ != model_id@,
            Err(e) => msg_of(e) == Some(unavailable_model_message(model_id@)) && forall|i: int|
                0 <= i < models@.len() ==> models@[i].id@ != model_id@,
        },
{
    let mut i: usize = 0;
    while i < models.len()
        invariant
            i <= models@.len(),
            forall|j: int| 0 <= j < i ==> models@[j].id@ != model_id@,
        decreases models@.len() - i,
    {
        if text_eq(models[i].id.as_str(), model_id) {
            return Ok(models[i].duplicate());
        }
        i = i + 1;
    }
    let mut m = owned("Das Modell '");
    push_str(&mut m, model_id);
    push_str(
        &mut m,
        "' ist bei OpenRouter nicht mehr verfügbar. Wähle ein anderes Bildmodell.",
    );
    Err(AppError::msg(m))
}

pub open spec fn no_image_message() -> Seq<char> {
    "OpenRouter hat kein Bild zurückgegeben (evtl. Safety-Filter, ungültiger Prompt oder das Modell liefert keinen Bild-Output)."@
}

/// An answer without images is an error.
pub fn require_images(response: ImageResponse) -> (res: Result<ImageResponse, AppError>)
    ensures
        response.images@.len() == 0 ==> (res matches Err(e) && msg_of(e) == Some(no_image_message())),
        response.images@.len() > 0 ==> res == Ok::<ImageResponse, AppError>(response),
{
    if response.images.len() == 0 {
        Err(
            AppError::msg_str(
                "OpenRouter hat kein Bild zurückgegeben (evtl. Safety-Filter, ungültiger Prompt oder das Modell liefert keinen Bild-Output).",
            ),
        )
    } else {
        Ok(response)
    }
}

// ---------------------------------------------------------------------------
// Legacy provider ids
// ---------------------------------------------------------------------------

pub open spec fn default_image_model() -> Seq<char> {
    "google/gemini-3-pro-image-preview"@
}

pub open spec fn unsupported_provider_message(provider: Seq<char>) -> Seq<char> {
    "Provider '"@ + provider
        + "' ist in der Desktop-App nicht verfügbar — nur OpenRouter wird unterstützt. Wähle ein OpenRouter-Modell."@
}

/// The OpenRouter model for a stored provider and model id: OpenRouter ids
/// stand as they are; ids of the former direct Gemini provider map to their
/// OpenRouter counterpart; any other provider is refused.
pub open spec fn resolved_model(provider: Option<Seq<char>>, model_id: Option<Seq<char>>) -> Result<
    Seq<char>,
    Seq<char>,
> {
    let p = match provider {
        Some(p) => p,
        None => "openrouter"@,
    };
    if p == "openrouter"@ {
        Ok(
            match model_id {
                Some(m) => m,
                None => default_image_model(),
            },
        )
    } else if p == "gemini"@ {
        Ok(
            match model_id {
                None => default_image_model(),
                Some(m) => if m == "gemini-3-pro-image"@ {
                    default_image_model()
                } else {
                    "google/"@ + m
                },
            },
        )
    } else {
        Err(unsupported_provider_message(p))
    }
}

/// Maps a stored provider and model id to an OpenRouter model id.
pub fn resolve_model(provider: Option<&str>, model_id: Option<&str>) -> (res: Result<
    String,
    AppError,
>)
    ensures
        match resolved_model(opt_view(provider), opt_view(model_id)) {
            Ok(m) => res matches Ok(r) && r@ == m,
            Err(m) => res matches Err(e) && msg_of(e) == Some(m),
        },
{
    let p = match provider {
        Some(p) => p,
        None => "openrouter",
    };
    if text_eq(p, "openrouter") {
        match model_id {
            Some(m) => Ok(owned(m)),
            None => Ok(owned("google/gemini-3-pro-image-preview")),
        }
    } else if text_eq(p, "gemini") {
        match model_id {
            None => Ok(owned("google/gemini-3-pro-image-preview")),
            Some(m) => {
                if text_eq(m, "gemini-3-pro-image") {
                    Ok(owned("google/gemini-3-pro-image-preview"))
                } else {
                    let mut r = owned("google/");
                    push_str(&mut r, m);
                    Ok(r)
                }
            },
        }
    } else {
        let mut msg = owned("Provider '");
        push_str(&mut msg, p);
        push_str(
            &mut msg,
            "' ist in der Desktop-App nicht verfügbar — nur OpenRouter wird unterstützt. Wähle ein OpenRouter-Modell.",
        );
        Err(AppError::msg(msg))
    }
}

// ---------------------------------------------------------------------------
// Laws of the request and of reading the answers
// ---------------------------------------------------------------------------

/// Law: the image count asked for is kept when the model allows it; an
/// unset count means one image; a count of zero is raised to one and a
/// count above the model's maximum is lowered to that maximum. The result
/// always lies in `1..=max_count`.
pub proof fn law_requested_count(count: Option<u32>, max_count: u32)
    requires
        max_count >= 1,
    ensures
        1 <= requested_count(count, max_count) <= max_count,
        count is None ==> requested_count(count, max_count) == 1,
        count is Some && 1 <= count.unwrap() && count.unwrap() <= max_count ==> requested_count(
            count,
            max_count,
        ) == count.unwrap(),
        count is Some && count.unwrap() > max_count ==> requested_count(count, max_count)
            == max_count,
        count == Some(0u32) ==> requested_count(count, max_count) == 1,
{
}

/// Law: the request body starts with the model's id, the prompt and the
/// image count (the asked count when the model allows it), and then holds
/// one more member for each of: a resolution the model supports, an aspect
/// ratio the model supports, and reference images when the model takes any
/// and there are some.
pub proof fn law_image_request_members(
    model: ImageModelV,
    prompt: Seq<char>,
    refs: Seq<(Seq<char>, Seq<char>)>,
    image_size: Option<Seq<char>>,
    aspect_ratio: Option<Seq<char>>,
    count: Option<u32>,
)
    requires
        model.max_count >= 1,
    ensures
        ({
            let e = image_request(model, prompt, refs, image_size, aspect_ratio, count);
            let size_ok = image_size matches Some(sz) && model.image_sizes.contains(sz);
            let ratio_ok = aspect_ratio matches Some(r) && model.aspect_ratios.contains(r);
            let refs_ok = model.max_references > 0 && refs.len() > 0;
            &&& e.len() == 3 + (if size_ok { 1int } else { 0 }) + (if ratio_ok { 1int } else { 0 })
                + (if refs_ok { 1int } else { 0 })
            &&& e[0] == ("model"@, JsonV::String(model.id))
            &&& e[1] == ("prompt"@, JsonV::String(prompt))
            &&& e[2].0 == "n"@
            &&& (count is Some && 1 <= count.unwrap() && count.unwrap() <= model.max_count ==> e[2].1
                == JsonV::Number(decimal(count.unwrap() as nat)))
            &&& (count is None ==> e[2].1 == JsonV::Number(decimal(1)))
            &&& (size_ok ==> e[3] == ("resolution"@, JsonV::String(image_size.unwrap())))
            &&& (ratio_ok ==> e[3 + (if size_ok { 1int } else { 0 })] == (
                "aspect_ratio"@,
                JsonV::String(aspect_ratio.unwrap()),
            ))
            &&& (refs_ok ==> e.last().0 == "input_references"@ && e.last().1 is Array)
            &&& (refs_ok ==> e.last().1->Array_0.len() == if refs.len() < model.max_references {
                refs.len() as int
            } else {
                model.max_references as int
            })
            &&& (refs_ok ==> forall|k: int|
                0 <= k < e.last().1->Array_0.len() ==> member(
                    member(#[trigger] e.last().1->Array_0[k], "image_url"@),
                    "url"@,
                ) == JsonV::String("data:"@ + refs[k].0 + ";base64,"@ + refs[k].1))
        }),
{
    law_requested_count(count, model.max_count);
    let e = image_request(model, prompt, refs, image_size, aspect_ratio, count);
    if model.max_references > 0 && refs.len() > 0 {
        let a = e.last().1->Array_0;
        assert forall|k: int| 0 <= k < a.len() implies member(
            member(#[trigger] a[k], "image_url"@),
            "url"@,
        ) == JsonV::String("data:"@ + refs[k].0 + ";base64,"@ + refs[k].1) by {
            law_reference_json(refs[k].0, refs[k].1);
        }
    }
}

/// Law: a reference image is sent as an `image_url` part whose URL is the
/// data URL of its MIME type and base64 data.
pub proof fn law_reference_json(mime_type: Seq<char>, data: Seq<char>)
    ensures
        member(reference_json(mime_type, data), "type"@) == JsonV::String("image_url"@),
        member(member(reference_json(mime_type, data), "image_url"@), "url"@) == JsonV::String(
            "data:"@ + mime_type + ";base64,"@ + data,
        ),
{
    reveal_strlit("type");
    reveal_strlit("image_url");
    reveal_strlit("url");
    assert("type"@.len() == 4 && "image_url"@.len() == 9);
    let outer = seq![
        ("type"@, JsonV::String("image_url"@)),
        (
            "image_url"@,
            JsonV::Object(seq![("url"@, JsonV::String("data:"@ + mime_type + ";base64,"@ + data))]),
        ),
    ];
    crate::json::lemma_key_index_is_first(outer, "type"@, 0);
    crate::json::lemma_key_index_is_first(outer, "image_url"@, 1);
    let inner = seq![("url"@, JsonV::String("data:"@ + mime_type + ";base64,"@ + data))];
    crate::json::lemma_key_index_is_first(inner, "url"@, 0);
}

/// Law: reading the images of a list goes element by element: the images of
/// two lists one after the other are the images of the first followed by
/// those of the second.
pub proof fn law_images_in_concat(a: Seq<JsonV>, b: Seq<JsonV>)
    ensures
        images_in(a + b) == images_in(a) + images_in(b),
    decreases b.len(),
{
    if b.len() == 0 {
        assert(a + b =~= a);
        assert(images_in(a) + images_in(b) =~= images_in(a));
    } else {
        assert((a + b).drop_last() =~= a + b.drop_last());
        assert((a + b).last() == b.last());
        law_images_in_concat(a, b.drop_last());
        match image_entry(b.last()) {
            Some(img) => {
                assert(images_in(a) + images_in(b.drop_last()).push(img) =~= (images_in(a)
                    + images_in(b.drop_last())).push(img));
            },
            None => {},
        }
    }
}

/// Law: one element of the answer's list yields exactly one image when its
/// `b64_json` is a non-empty string (with its `media_type`, else PNG), and
/// none otherwise.
pub proof fn law_image_of_one_element(x: JsonV)
    ensures
        (str_of(member(x, "b64_json"@)) matches Some(d) && d.len() > 0) ==> images_in(seq![x]) == seq![
            (
                str_of(member(x, "b64_json"@)).unwrap(),
                match str_of(member(x, "media_type"@)) {
                    Some(m) => m,
                    None => "image/png"@,
                },
            ),
        ],
        !(str_of(member(x, "b64_json"@)) matches Some(d) && d.len() > 0) ==> images_in(seq![x])
            == Seq::<(Seq<char>, Seq<char>)>::empty(),
{
    let e = Seq::<JsonV>::empty();
    assert(seq![x].drop_last() =~= e);
    assert(seq![x].last() == x);
    assert(images_in(e) == Seq::<(Seq<char>, Seq<char>)>::empty());
    match image_entry(x) {
        Some(img) => {
            assert(images_in(seq![x]) == images_in(e).push(img));
            assert(Seq::<(Seq<char>, Seq<char>)>::empty().push(img) =~= seq![img]);
        },
        None => {
            assert(images_in(seq![x]) == images_in(e));
        },
    }
}

/// Law: every element of the list that carries non-empty image data gives
/// an image, so the number of images is the number of such elements.
pub proof fn law_images_counted(items: Seq<JsonV>)
    ensures
        images_in(items).len() == items.filter(|x: JsonV| image_entry(x) is Some).len(),
    decreases items.len(),
{
    reveal(Seq::filter);
    if items.len() > 0 {
        law_images_counted(items.drop_last());
    }
}

/// Law: the models of a list are read element by element: the models of two
/// lists one after the other are those of the first followed by those of
/// the second.
pub proof fn law_parsed_models_concat(a: Seq<JsonV>, b: Seq<JsonV>)
    ensures
        parsed_models(a + b) == parsed_models(a) + parsed_models(b),
    decreases b.len(),
{
    if b.len() == 0 {
        assert(a + b =~= a);
        assert(parsed_models(a) + parsed_models(b) =~= parsed_models(a));
    } else {
        assert((a + b).drop_last() =~= a + b.drop_last());
        assert((a + b).last() == b.last());
        law_parsed_models_concat(a, b.drop_last());
        match model_entry(b.last()) {
            Some(m) => {
                assert(parsed_models(a) + parsed_models(b.drop_last()).push(m) =~= (parsed_models(a)
                    + parsed_models(b.drop_last())).push(m));
            },
            None => {},
        }
    }
}

/// Law: an element of the model list describes a model exactly when its
/// `id` is a string that is not blank; the model's id is that string
/// trimmed; its label is the element's `name` when that is a string, and
/// only otherwise the id; it allows at least one image per request.
pub proof fn law_model_of_one_element(m: JsonV)
    ensures
        model_entry(m) is Some <==> (str_of(member(m, "id"@)) matches Some(raw) && trimmed(raw).len()
            > 0),
        model_entry(m) matches Some(v) ==> v.id == trimmed(str_of(member(m, "id"@)).unwrap()),
        model_entry(m) matches Some(v) ==> (str_of(member(m, "name"@)) matches Some(n) ==> v.label
            == n),
        model_entry(m) matches Some(v) ==> (str_of(member(m, "name"@)) is None ==> v.label == v.id),
        model_entry(m) matches Some(v) ==> v.max_count >= 1,
        model_entry(m) matches Some(v) ==> v.image_sizes == string_values(
            member(member(member(m, "supported_parameters"@), "resolution"@), "values"@),
        ),
        model_entry(m) matches Some(v) ==> v.aspect_ratios == string_values(
            member(member(member(m, "supported_parameters"@), "aspect_ratio"@), "values"@),
        ),
        model_entry(m) matches Some(v) ==> v.max_references == match range_max_of(
            member(member(m, "supported_parameters"@), "input_references"@),
        ) {
            Some(r) => r,
            None => 0u32,
        },
        model_entry(m) matches Some(v) ==> (range_max_of(
            member(member(m, "supported_parameters"@), "n"@),
        ) is Some && range_max_of(member(member(m, "supported_parameters"@), "n"@)).unwrap() >= 1
            ==> v.max_count == range_max_of(
            member(member(m, "supported_parameters"@), "n"@),
        ).unwrap()),
        parsed_models(seq![m]) == match model_entry(m) {
            Some(v) => seq![v],
            None => Seq::<ImageModelV>::empty(),
        },
{
    let e = Seq::<JsonV>::empty();
    assert(seq![m].drop_last() =~= e);
    assert(seq![m].last() == m);
    assert(parsed_models(e) == Seq::<ImageModelV>::empty());
    match model_entry(m) {
        Some(v) => {
            assert(parsed_models(seq![m]) == parsed_models(e).push(v));
            assert(Seq::<ImageModelV>::empty().push(v) =~= seq![v]);
        },
        None => {
            assert(parsed_models(seq![m]) == parsed_models(e));
        },
    }
}

/// Law: OpenRouter model ids (and a missing provider, which means
/// OpenRouter) are used as they are, with the Gemini image preview when no
/// model is named; ids of the former Gemini provider get the `google/`
/// prefix, the legacy default mapping to the preview model; every other
/// provider is refused with a message that names it.
pub proof fn law_resolve_model(provider: Option<Seq<char>>, model_id: Option<Seq<char>>)
    ensures
        (provider is None || provider == Some("openrouter"@)) && model_id is Some ==> resolved_model(
            provider,
            model_id,
        ) == Ok::<Seq<char>, Seq<char>>(model_id.unwrap()),
        (provider is None || provider == Some("openrouter"@)) && model_id is None ==> resolved_model(
            provider,
            model_id,
        ) == Ok::<Seq<char>, Seq<char>>("google/gemini-3-pro-image-preview"@),
        provider == Some("gemini"@) && model_id is Some && model_id != Some("gemini-3-pro-image"@)
            ==> resolved_model(provider, model_id) == Ok::<Seq<char>, Seq<char>>(
            "google/"@ + model_id.unwrap(),
        ),
        provider == Some("gemini"@) && (model_id is None || model_id == Some("gemini-3-pro-image"@))
            ==> resolved_model(provider, model_id) == Ok::<Seq<char>, Seq<char>>(
            "google/gemini-3-pro-image-preview"@,
        ),
        provider is Some && provider != Some("openrouter"@) && provider != Some("gemini"@)
            ==> resolved_model(provider, model_id) == Err::<Seq<char>, Seq<char>>(
            "Provider '"@ + provider.unwrap()
                + "' ist in der Desktop-App nicht verfügbar — nur OpenRouter wird unterstützt. Wähle ein OpenRouter-Modell."@,
        ),
{
    reveal_strlit("gemini");
    reveal_strlit("openrouter");
    assert("gemini"@.len() == 6 && "openrouter"@.len() == 10);
}

/// Law: the `max` of a range parameter is read as the number written
/// there, when it is a whole number that fits a `u32`.
pub proof fn law_range_max(parameter: JsonV, v: nat)
    requires
        member(parameter, "max"@) == JsonV::Number(decimal(v)),
        v <= u32::MAX,
    ensures
        range_max_of(parameter) == Some(v as u32),
{
    crate::text::law_decimal_round_trip(v);
}

} // verus!
