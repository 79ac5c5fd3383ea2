use vstd::prelude::*;

use crate::dto::{opt_string_view, GenerateInput, GenerateParams, GeneratedImageOut, ReferenceImage};
use crate::error::{msg_of, AppError};
use crate::json::{json_string, json_string_array_of, lemma_view_entries, string_array, strs, view_entries, EntryV, Json, JsonV};
use crate::json_text::compact;
use crate::prompt::CompileOutput;
use crate::provider::{data_url, images_view, resolve_model, resolved_model, GeneratedImage};
use crate::styles::{is_object, style_not_object_message};
use crate::text::{blank, decimal, decimal_string, is_blank, owned};

verus! {

pub open spec fn subject_required_message() -> Seq<char> {
    "Bitte ein Motiv (subject) angeben."@
}

/// Checks a generation request and resolves its model: the subject must not
/// be blank, the style JSON must be an object, and the provider must be one
/// the app serves.
pub fn generate_plan(input: &GenerateInput) -> (res: Result<String, AppError>)
    ensures
        is_blank(input.subject@) ==> (res matches Err(e) && msg_of(e) == Some(
            subject_required_message(),
        )),
        !is_blank(input.subject@) && !is_object(input.style_json@) ==> (res matches Err(e) && msg_of(e)
            == Some(style_not_object_message())),
        !is_blank(input.subject@) && is_object(input.style_json@) ==> match resolved_model(
            opt_string_view(input.provider),
            opt_string_view(input.model_id),
        ) {
            Ok(m) => res matches Ok(r) && r@ == m,
            Err(m) => res matches Err(e) && msg_of(e) == Some(m),
        },
{
    if blank(input.subject.as_str()) {
        return Err(AppError::msg_str("Bitte ein Motiv (subject) angeben."));
    }
    if !input.style_json.is_object() {
        return Err(AppError::msg_str("styleJson muss ein Objekt sein."));
    }
    let provider = match &input.provider {
        Some(p) => Some(p.as_str()),
        None => None,
    };
    let model_id = match &input.model_id {
        Some(m) => Some(m.as_str()),
        None => None,
    };
    resolve_model(provider, model_id)
}

/// The reference images of a generation: the style's anchor images first,
/// then those sent with the request.
pub fn merged_references(anchors: Vec<ReferenceImage>, extra: Option<Vec<ReferenceImage>>) -> (res: Vec<
    ReferenceImage,
>)
    ensures
        res@ == anchors@ + match extra {
            Some(e) => e@,
            None => Seq::empty(),
        },
{
    let mut out = anchors;
    match extra {
        Some(e) => {
            let mut e = e;
            out.append(&mut e);
        },
        None => {
            assert(out@ + Seq::<ReferenceImage>::empty() =~= out@);
        },
    }
    out
}

/// The text of an optional string, or a default.
pub open spec fn or_default(v: Option<Seq<char>>, default: Seq<char>) -> Seq<char> {
    match v {
        Some(s) => s,
        None => default,
    }
}

/// The parameters a generation runs with: aspect ratio "1:1", size "2K" and
/// one image unless the request says otherwise; the thinking level only
/// where it is given.
pub fn effective_params(params: &Option<GenerateParams>) -> (res: GenerateParams)
    ensures
        res.aspect_ratio matches Some(a) && a@ == or_default(
            match params {
                Some(p) => opt_string_view(p.aspect_ratio),
                None => None,
            },
            "1:1"@,
        ),
        res.image_size matches Some(s) && s@ == or_default(
            match params {
                Some(p) => opt_string_view(p.image_size),
                None => None,
            },
            "2K"@,
        ),
        opt_string_view(res.thinking_level) == match params {
            Some(p) => opt_string_view(p.thinking_level),
            None => None,
        },
        res.count == Some(
            match params {
                Some(p) => match p.count {
                    Some(c) => c,
                    None => 1u32,
                },
                None => 1u32,
            },
        ),
{
    match params {
        Some(p) => GenerateParams {
            aspect_ratio: Some(
                match &p.aspect_ratio {
                    Some(a) => a.clone(),
                    None => owned("1:1"),
                },
            ),
            image_size: Some(
                match &p.image_size {
                    Some(s) => s.clone(),
                    None => owned("2K"),
                },
            ),
            thinking_level: match &p.thinking_level {
                Some(t) => Some(t.clone()),
                None => None,
            },
            count: Some(
                match p.count {
                    Some(c) => c,
                    None => 1u32,
                },
            ),
        },
        None => GenerateParams {
            aspect_ratio: Some(owned("1:1")),
            image_size: Some(owned("2K")),
            thinking_level: None,
            count: Some(1u32),
        },
    }
}

/// An optional string member of an object, present only when the value is.
pub open spec fn opt_member(key: Seq<char>, v: Option<Seq<char>>) -> Seq<EntryV> {
    match v {
        Some(s) => seq![(key, JsonV::String(s))],
        None => Seq::empty(),
    }
}

/// The stored form of generation parameters: an object with the members
/// `aspectRatio`, `imageSize`, `thinkingLevel` and `count`, in that order,
/// each only where it is set.
pub open spec fn params_entries(p: GenerateParams) -> Seq<EntryV> {
    opt_member("aspectRatio"@, opt_string_view(p.aspect_ratio)) + opt_member(
        "imageSize"@,
        opt_string_view(p.image_size),
    ) + opt_member("thinkingLevel"@, opt_string_view(p.thinking_level)) + match p.count {
        Some(c) => seq![("count"@, JsonV::Number(decimal(c as nat)))],
        None => Seq::empty(),
    }
}

fn push_opt_member(entries: &mut Vec<(String, Json)>, key: &str, v: &Option<String>)
    ensures
        view_entries(final(entries)@) == view_entries(old(entries)@) + opt_member(
            key@,
            opt_string_view(*v),
        ),
{
    proof {
        lemma_view_entries(old(entries)@);
    }
    match v {
        Some(s) => entries.push((owned(key), json_string(s.as_str()))),
        None => {},
    }
    proof {
        lemma_view_entries(final(entries)@);
        assert(view_entries(final(entries)@) =~= view_entries(old(entries)@) + opt_member(
            key@,
            opt_string_view(*v),
        ));
    }
}

/// The generation parameters as the JSON object that is stored with a
/// generation.
pub fn params_json(p: &GenerateParams) -> (res: Json)
    ensures
        res@ == JsonV::Object(params_entries(*p)),
{
    let mut entries: Vec<(String, Json)> = Vec::new();
    proof {
        assert(view_entries(entries@) =~= Seq::<EntryV>::empty());
    }
    push_opt_member(&mut entries, "aspectRatio", &p.aspect_ratio);
    push_opt_member(&mut entries, "imageSize", &p.image_size);
    push_opt_member(&mut entries, "thinkingLevel", &p.thinking_level);
    let ghost before = view_entries(entries@);
    proof {
        lemma_view_entries(entries@);
    }
    match p.count {
        Some(c) => entries.push((owned("count"), Json::Number(decimal_string(c as u64)))),
        None => {},
    }
    proof {
        lemma_view_entries(entries@);
        assert(view_entries(entries@) =~= before + match p.count {
            Some(c) => seq![("count"@, JsonV::Number(decimal(c as nat)))],
            None => Seq::<EntryV>::empty(),
        });
    }
    Json::Object(entries)
}

/// The row of the generation table for a finished generation (apart from
/// its id, cost and time): the JSON columns as compact text, the provider
/// "openrouter" unless the request names one.
pub struct GenerationRecord {
    pub style_id: String,
    pub subject: String,
    pub compiled_prompt: String,
    pub provider: String,
    pub model_id: String,
    pub params: String,
    pub reference_image_ids: String,
}

/// The record of a generation made for a style.
pub fn generation_record(
    style_id: &str,
    input: &GenerateInput,
    model_id: &str,
    compiled: &CompileOutput,
    params: &GenerateParams,
    anchor_ids: &Vec<String>,
) -> (res: GenerationRecord)
    ensures
        res.style_id@ == style_id@,
        res.subject@ == input.subject@,
        res.compiled_prompt@ == compact(compiled.prompt_object@),
        res.provider@ == or_default(opt_string_view(input.provider), "openrouter"@),
        res.model_id@ == model_id@,
        res.params@ == compact(JsonV::Object(params_entries(*params))),
        res.reference_image_ids@ == compact(string_array(strs(anchor_ids@))),
{
    GenerationRecord {
        style_id: owned(style_id),
        subject: input.subject.clone(),
        compiled_prompt: compiled.prompt_object.to_compact_string(),
        provider: match &input.provider {
            Some(p) => p.clone(),
            None => owned("openrouter"),
        },
        model_id: owned(model_id),
        params: params_json(params).to_compact_string(),
        reference_image_ids: json_string_array_of(anchor_ids).to_compact_string(),
    }
}

/// The models of generated images as the front end receives them.
pub open spec fn outputs_view(v: Seq<GeneratedImageOut>) -> Seq<(Seq<char>, Seq<char>)> {
    v.map_values(|o: GeneratedImageOut| (o.data_url@, o.mime_type@))
}

/// The generated images as data URLs, in order, each with its MIME type.
pub fn output_images(images: &Vec<GeneratedImage>) -> (res: Vec<GeneratedImageOut>)
    ensures
        outputs_view(res@) == images_view(images@).map_values(
            |p: (Seq<char>, Seq<char>)| ("data:"@ + p.1 + ";base64,"@ + p.0, p.1),
        ),
{
    let mut out: Vec<GeneratedImageOut> = Vec::new();
    let mut i: usize = 0;
    while i < images.len()
        invariant
            i <= images@.len(),
            out@.len() == i,
            forall|k: int|
                0 <= k < i ==> (#[trigger] out@[k]).data_url@ == "data:"@ + images@[k].mime_type@
                    + ";base64,"@ + images@[k].data@ && out@[k].mime_type@ == images@[k].mime_type@,
        decreases images@.len() - i,
    {
        let img = &images[i];
        out.push(
            GeneratedImageOut {
                data_url: data_url(img.mime_type.as_str(), img.data.as_str()),
                mime_type: img.mime_type.clone(),
            },
        );
        i = i + 1;
    }
    proof {
        assert(outputs_view(out@) =~= images_view(images@).map_values(
            |p: (Seq<char>, Seq<char>)| ("data:"@ + p.1 + ";base64,"@ + p.0, p.1),
        ));
    }
    out
}

/// Law: the stored parameters hold exactly the parameters that are set, each
/// under its own name and with its own value, in the order aspect ratio,
/// image size, thinking level, count.
pub proof fn law_params_entries(p: GenerateParams)
    ensures
        params_entries(p).len() == (if p.aspect_ratio is Some { 1int } else { 0 }) + (
        if p.image_size is Some { 1int } else { 0 }) + (if p.thinking_level is Some { 1int } else { 0 })
            + (if p.count is Some { 1int } else { 0 }),
        p.aspect_ratio matches Some(a) ==> params_entries(p)[0] == ("aspectRatio"@, JsonV::String(a@)),
        p.image_size matches Some(sz) ==> params_entries(p)[if p.aspect_ratio is Some { 1int } else {
            0
        }] == ("imageSize"@, JsonV::String(sz@)),
        p.thinking_level matches Some(t) ==> params_entries(p)[(if p.aspect_ratio is Some { 1int } else {
            0
        }) + (if p.image_size is Some { 1int } else { 0 })] == ("thinkingLevel"@, JsonV::String(t@)),
        p.count matches Some(c) ==> params_entries(p).last() == ("count"@, JsonV::Number(
            decimal(c as nat),
        )),
{
}

} // verus!
