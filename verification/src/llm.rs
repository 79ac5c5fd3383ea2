use vstd::prelude::*;

use crate::error::{AppError, error_text, msg_of};
use crate::json::{
    Json, JsonV, EntryV, json_string, lemma_view_entries, lemma_view_items, map_remove, member,
    object_remove, str_of, view_entries, view_items,
};
use crate::json_text::pretty;
use crate::prompt::{empty_style, is_empty_style};
use crate::provider::{data_url, error_message_of};
use crate::text::{is_ws, owned, push_str, strip_prefix, strip_suffix, trim, trim_end, trim_start, trimmed};

verus! {

/// The instruction for the style analysis of an image.
pub const ANALYZE_INSTRUCTION: &'static str = r#"Analysiere AUSSCHLIESSLICH den fotografischen STIL dieses Bildes — nicht das Motiv, nicht den Bildinhalt.

Beurteile die Anmutung von Kamera/Optik, Licht, Farbe/Color-Grade/Film-Emulation, Post-Processing, Komposition und Stimmung.

Gib NUR ein JSON-Objekt nach folgendem Schema zurück (keine Erklärung, kein Markdown). Setze NUR Felder, die im Bild klar erkennbar sind; lass unklare Felder weg.

{
  "type": string,
  "camera": { "body": string, "lens_mm": number, "aperture": string, "iso": number, "shutter_speed": string, "format": string },
  "optics": { "depth_of_field": string, "bokeh": string, "vignette": string, "lens_flare": boolean, "chromatic_aberration": boolean },
  "lighting": { "setup": string, "primary_source": string, "direction": string, "quality": string, "color_temperature_k": number, "fill_ratio": string },
  "color": { "palette": string[], "temperature": string, "saturation": string, "grade": string, "film_emulation": string, "contrast": string },
  "post_processing": { "grain": string, "halation": boolean, "clarity": string, "sharpening": string, "finish": string },
  "composition": { "framing": string, "angle": string, "rule_of_thirds": boolean, "negative_space": string },
  "mood": string,
  "negative": string
}

WICHTIG:
- Fülle KEIN "subject"-Feld und beschreibe NICHT das abgebildete Motiv. Nur Stil.
- Befülle "negative" mit sinnvollen Guards (z.B. unerwünschte Artefakte/Looks, die diesem Stil widersprechen)."#;

/// The instruction for the Markdown style brief.
pub const BRIEF_INSTRUCTION: &'static str = r#"You are a photography/art director writing a concise STYLE BRIEF.

Rewrite the following structured style JSON into a human-readable Markdown brief in flowing English prose — a briefing document a client or editor could read.

Rules:
- Write in English, in connected sentences (no bullet lists, no JSON, no key:value dumps).
- Use level-2 Markdown headings (## ) for the sections that have content, in this order when present:
  ## Visual Style (overall look / mood / negative guards), ## Camera, ## Optics, ## Lighting, ## Colors, ## Post-Processing, ## Composition.
- OMIT any section whose underlying fields are empty or not set — no empty sections, no "N/A".
- Bold the key style terms taken from the JSON values (camera bodies, lenses, light qualities, color grades, framing, etc.) using **double asterisks**.
- Describe ONLY the style/aesthetic. Never invent or describe a subject/motif.
- Output ONLY the Markdown brief — no preamble, no explanation, no code fences."#;

// ---------------------------------------------------------------------------
// Code fences around a JSON answer
// ---------------------------------------------------------------------------

/// `s` without `prefix`, when it starts with it.
pub open spec fn without_prefix(s: Seq<char>, prefix: Seq<char>) -> Seq<char> {
    if prefix.is_prefix_of(s) {
        s.subrange(prefix.len() as int, s.len() as int)
    } else {
        s
    }
}

/// `s` without `suffix`, when it ends with it.
pub open spec fn without_suffix(s: Seq<char>, suffix: Seq<char>) -> Seq<char> {
    if suffix.is_suffix_of(s) {
        s.subrange(0, s.len() - suffix.len())
    } else {
        s
    }
}

/// The text with an optional Markdown code fence around it removed: the
/// trimmed text, without a leading "```json" (or else "```") and a trailing
/// "```", trimmed again.
pub open spec fn fences_stripped(text: Seq<char>) -> Seq<char> {
    let t = trimmed(text);
    let t1 = if "```json"@.is_prefix_of(t) {
        without_prefix(t, "```json"@)
    } else {
        without_prefix(t, "```"@)
    };
    trimmed(without_suffix(t1, "```"@))
}

/// Removes optional Markdown code fences around a JSON answer.
pub fn strip_code_fences(text: &str) -> (res: String)
    ensures
        res@ == fences_stripped(text@),
{
    let t = trim(text);
    let t1 = match strip_prefix(t.as_str(), "```json") {
        Some(r) => r,
        None => match strip_prefix(t.as_str(), "```") {
            Some(r) => r,
            None => t.clone(),
        },
    };
    let t2 = match strip_suffix(t1.as_str(), "```") {
        Some(r) => r,
        None => t1.clone(),
    };
    trim(t2.as_str())
}

// ---------------------------------------------------------------------------
// Chat completions
// ---------------------------------------------------------------------------

/// The body of a chat-completion request with one user message; JSON output
/// is asked for with `response_format` when `json_output` is set.
pub open spec fn chat_body(model: Seq<char>, content: JsonV, json_output: bool) -> Seq<EntryV> {
    let base = seq![
        ("model"@, JsonV::String(model)),
        (
            "messages"@,
            JsonV::Array(
                seq![
                    JsonV::Object(
                        seq![("role"@, JsonV::String("user"@)), ("content"@, content)],
                    ),
                ],
            ),
        ),
    ];
    if json_output {
        base.push(
            (
                "response_format"@,
                JsonV::Object(seq![("type"@, JsonV::String("json_object"@))]),
            ),
        )
    } else {
        base
    }
}

/// Builds the body of a chat-completion request.
pub fn chat_request_body(model: &str, content: Json, json_output: bool) -> (res: Json)
    ensures
        res@ == JsonV::Object(chat_body(model@, content@, json_output)),
{
    let ghost cv = content@;
    let mut message: Vec<(String, Json)> = Vec::new();
    message.push((owned("role"), json_string("user")));
    message.push((owned("content"), content));
    let mut messages: Vec<Json> = Vec::new();
    messages.push(Json::Object(message));
    let mut body: Vec<(String, Json)> = Vec::new();
    body.push((owned("model"), json_string(model)));
    body.push((owned("messages"), Json::Array(messages)));
    proof {
        lemma_view_entries(message@);
        assert(view_entries(message@) =~= seq![
            ("role"@, JsonV::String("user"@)),
            ("content"@, cv),
        ]);
        lemma_view_items(messages@);
        assert(view_items(messages@) =~= seq![JsonV::Object(view_entries(message@))]);
    }
    if json_output {
        let mut format: Vec<(String, Json)> = Vec::new();
        format.push((owned("type"), json_string("json_object")));
        proof {
            lemma_view_entries(format@);
            assert(view_entries(format@) =~= seq![("type"@, JsonV::String("json_object"@))]);
        }
        body.push((owned("response_format"), Json::Object(format)));
    }
    proof {
        lemma_view_entries(body@);
        assert(view_entries(body@) =~= chat_body(model@, cv, json_output));
    }
    Json::Object(body)
}

/// `value[0]` in serde_json: the first element of an array, or `null`.
pub open spec fn first_element(j: JsonV) -> JsonV {
    match j {
        JsonV::Array(items) => if items.len() > 0 {
            items[0]
        } else {
            JsonV::Null
        },
        _ => JsonV::Null,
    }
}

/// The answer text of a chat completion: `choices[0].message.content`, or
/// empty text when it is not a string.
pub open spec fn completion_text(body: JsonV) -> Seq<char> {
    match str_of(member(member(first_element(member(body, "choices"@)), "message"@), "content"@)) {
        Some(s) => s,
        None => Seq::empty(),
    }
}

pub open spec fn unreadable_chat_message(status: Seq<char>) -> Seq<char> {
    "OpenRouter-Antwort konnte nicht gelesen werden (HTTP "@ + status + ")."@
}

/// Interprets the answer of a chat completion, given whether the HTTP status
/// was a success, its text, and the parsed body (`None` when it was not JSON).
pub fn chat_completion_result(status_ok: bool, status: &str, body: Option<&Json>) -> (res: Result<
    String,
    AppError,
>)
    ensures
        match body {
            None => res matches Err(e) && msg_of(e) == Some(unreadable_chat_message(status@)),
            Some(b) => if !status_ok {
                res matches Err(e) && msg_of(e) == Some(
                    match error_message_of(b@) {
                        Some(m) => m,
                        None => "HTTP "@ + status@,
                    },
                )
            } else {
                res matches Ok(t) && t@ == completion_text(b@)
            },
        },
{
    let json = match body {
        Some(b) => b,
        None => {
            let mut m = owned("OpenRouter-Antwort konnte nicht gelesen werden (HTTP ");
            push_str(&mut m, status);
            push_str(&mut m, ").");
            return Err(AppError::msg(m));
        },
    };
    if !status_ok {
        let err = match json.get("error") {
            Some(e) => e.deep_clone(),
            None => Json::Null,
        };
        let m = match crate::json::member_str(&err, "message") {
            Some(s) => s.clone(),
            None => {
                let mut m = owned("HTTP ");
                push_str(&mut m, status);
                m
            },
        };
        return Err(AppError::msg(m));
    }
    let first = match json.get("choices") {
        Some(Json::Array(items)) => {
            proof {
                lemma_view_items(items@);
            }
            if items.len() > 0 {
                items[0].deep_clone()
            } else {
                Json::Null
            }
        },
        _ => Json::Null,
    };
    let message = match first.get("message") {
        Some(m) => m.deep_clone(),
        None => Json::Null,
    };
    match crate::json::member_str(&message, "content") {
        Some(s) => Ok(s.clone()),
        None => Ok(String::new()),
    }
}

// ---------------------------------------------------------------------------
// Style analysis
// ---------------------------------------------------------------------------

/// The message content for the style analysis: the image as a data URL, then
/// the instruction.
pub open spec fn analysis_content_of(image_base64: Seq<char>, mime_type: Seq<char>) -> JsonV {
    JsonV::Array(
        seq![
            JsonV::Object(
                seq![
                    ("type"@, JsonV::String("image_url"@)),
                    (
                        "image_url"@,
                        JsonV::Object(
                            seq![
                                (
                                    "url"@,
                                    JsonV::String(
                                        "data:"@ + mime_type + ";base64,"@ + image_base64,
                                    ),
                                ),
                            ],
                        ),
                    ),
                ],
            ),
            JsonV::Object(
                seq![
                    ("type"@, JsonV::String("text"@)),
                    ("text"@, JsonV::String(ANALYZE_INSTRUCTION@)),
                ],
            ),
        ],
    )
}

/// Builds the message content for the style analysis of an image.
pub fn analysis_content(image_base64: &str, mime_type: &str) -> (res: Json)
    ensures
        res@ == analysis_content_of(image_base64@, mime_type@),
{
    let url = data_url(mime_type, image_base64);
    let mut url_obj: Vec<(String, Json)> = Vec::new();
    url_obj.push((owned("url"), Json::String(url)));
    let mut image: Vec<(String, Json)> = Vec::new();
    image.push((owned("type"), json_string("image_url")));
    image.push((owned("image_url"), Json::Object(url_obj)));
    let mut text: Vec<(String, Json)> = Vec::new();
    text.push((owned("type"), json_string("text")));
    text.push((owned("text"), json_string(ANALYZE_INSTRUCTION)));
    let mut items: Vec<Json> = Vec::new();
    items.push(Json::Object(image));
    items.push(Json::Object(text));
    proof {
        lemma_view_entries(url_obj@);
        lemma_view_entries(image@);
        lemma_view_entries(text@);
        lemma_view_items(items@);
        assert(view_entries(url_obj@) =~= seq![
            ("url"@, JsonV::String("data:"@ + mime_type@ + ";base64,"@ + image_base64@)),
        ]);
        assert(view_entries(image@) =~= seq![
            ("type"@, JsonV::String("image_url"@)),
            ("image_url"@, JsonV::Object(view_entries(url_obj@))),
        ]);
        assert(view_entries(text@) =~= seq![
            ("type"@, JsonV::String("text"@)),
            ("text"@, JsonV::String(ANALYZE_INSTRUCTION@)),
        ]);
        assert(view_items(items@) =~= seq![
            JsonV::Object(view_entries(image@)),
            JsonV::Object(view_entries(text@)),
        ]);
    }
    Json::Array(items)
}

pub open spec fn analysis_failure_message(err: Seq<char>, model: Seq<char>) -> Seq<char> {
    "Stil-Analyse fehlgeschlagen: "@ + err
        + ". Bei Modell-Problemen prüfe die Variable OPENROUTER_ANALYSIS_MODEL (aktuell: "@ + model
        + ")."@
}

/// The error reported when the analysis call failed.
pub fn analysis_failure(err: &AppError, model: &str) -> (res: AppError)
    ensures
        msg_of(res) == Some(analysis_failure_message(error_text(*err), model@)),
{
    let mut m = owned("Stil-Analyse fehlgeschlagen: ");
    let e = err.message();
    push_str(&mut m, e.as_str());
    push_str(&mut m, ". Bei Modell-Problemen prüfe die Variable OPENROUTER_ANALYSIS_MODEL (aktuell: ");
    push_str(&mut m, model);
    push_str(&mut m, ").");
    AppError::msg(m)
}

pub open spec fn not_json_message() -> Seq<char> {
    "Antwort des Modells war kein gültiges JSON."@
}

pub open spec fn not_object_message() -> Seq<char> {
    "Antwort des Modells war kein JSON-Objekt."@
}

/// The style that an analysis answer gives, from the answer parsed as JSON
/// after its code fences were removed (`None` when it was not JSON): an
/// object, without any `subject` entry (only the style is returned).
pub fn analysis_result(parsed: Option<Json>) -> (res: Result<Json, AppError>)
    ensures
        match parsed {
            None => res matches Err(e) && msg_of(e) == Some(not_json_message()),
            Some(j) => match j@ {
                JsonV::Object(entries) => res matches Ok(r) && r@ == JsonV::Object(
                    map_remove(entries, "subject"@),
                ),
                _ => res matches Err(e) && msg_of(e) == Some(not_object_message()),
            },
        },
{
    match parsed {
        None => Err(AppError::msg_str("Antwort des Modells war kein gültiges JSON.")),
        Some(Json::Object(mut entries)) => {
            object_remove(&mut entries, "subject");
            Ok(Json::Object(entries))
        },
        Some(_) => Err(AppError::msg_str("Antwort des Modells war kein JSON-Objekt.")),
    }
}

// ---------------------------------------------------------------------------
// Style brief
// ---------------------------------------------------------------------------

/// The prompt for the style brief: the instruction, the image kind when it is
/// given, and the style as pretty JSON.
pub open spec fn brief_prompt_text(style: JsonV, kind: Option<Seq<char>>) -> Seq<char> {
    let hint = match kind {
        Some(k) => "Image kind: "@ + k + ".\n\n"@,
        None => Seq::empty(),
    };
    BRIEF_INSTRUCTION@ + "\n\n"@ + hint + "STYLE JSON:\n"@ + pretty(style, Seq::empty())
}

/// The prompt to send for a style brief, or `None` when the style has no
/// content at all: then the brief is empty and no model is asked.
pub fn brief_request(style_json: &Json, kind: Option<&str>) -> (res: Option<String>)
    ensures
        empty_style(style_json@) ==> res is None,
        !empty_style(style_json@) ==> (res matches Some(p) && p@ == brief_prompt_text(
            style_json@,
            crate::dto::opt_view(kind),
        )),
{
    if is_empty_style(style_json) {
        return None;
    }
    let mut p = owned(BRIEF_INSTRUCTION);
    push_str(&mut p, "\n\n");
    match kind {
        Some(k) => {
            push_str(&mut p, "Image kind: ");
            push_str(&mut p, k);
            push_str(&mut p, ".\n\n");
        },
        None => {},
    }
    push_str(&mut p, "STYLE JSON:\n");
    let pretty_text = style_json.to_pretty_string();
    push_str(&mut p, pretty_text.as_str());
    proof {
        assert(p@ =~= brief_prompt_text(style_json@, crate::dto::opt_view(kind)));
    }
    Some(p)
}

pub open spec fn brief_failure_message(err: Seq<char>, model: Seq<char>) -> Seq<char> {
    "Style-Brief-Generierung fehlgeschlagen: "@ + err
        + ". Bei Modell-Problemen prüfe die Variable OPENROUTER_BRIEF_MODEL (aktuell: "@ + model
        + ")."@
}

/// The error reported when the brief call failed.
pub fn brief_failure(err: &AppError, model: &str) -> (res: AppError)
    ensures
        msg_of(res) == Some(brief_failure_message(error_text(*err), model@)),
{
    let mut m = owned("Style-Brief-Generierung fehlgeschlagen: ");
    let e = err.message();
    push_str(&mut m, e.as_str());
    push_str(&mut m, ". Bei Modell-Problemen prüfe die Variable OPENROUTER_BRIEF_MODEL (aktuell: ");
    push_str(&mut m, model);
    push_str(&mut m, ").");
    AppError::msg(m)
}

// ---------------------------------------------------------------------------
// Laws of removing code fences
// ---------------------------------------------------------------------------

/// A text that neither starts nor ends with whitespace is its own trimmed form.
proof fn lemma_trimmed_id(t: Seq<char>)
    requires
        t.len() > 0,
        !is_ws(t[0]),
        !is_ws(t.last()),
    ensures
        trimmed(t) == t,
{
    assert(trim_start(t) == t);
    assert(trim_end(t) == t);
}

/// Law: an answer wrapped in a code fence (opened by "```json" or by "```",
/// closed by "```") gives back what stands inside, trimmed.
pub proof fn law_fenced_answer(inner: Seq<char>, tagged: bool)
    requires
        !tagged ==> !"json"@.is_prefix_of(inner),
    ensures
        fences_stripped((if tagged { "```json"@ } else { "```"@ }) + inner + "```"@) == trimmed(inner),
{
    reveal_strlit("```json");
    reveal_strlit("```");
    reveal_strlit("json");
    let open = if tagged { "```json"@ } else { "```"@ };
    let t = open + inner + "```"@;
    assert("```"@ =~= seq!['`', '`', '`']);
    assert("```json"@ =~= seq!['`', '`', '`', 'j', 's', 'o', 'n']);
    assert("json"@ =~= seq!['j', 's', 'o', 'n']);
    assert(t[0] == '`');
    assert(t.last() == '`');
    lemma_trimmed_id(t);
    let t1 = inner + "```"@;
    if tagged {
        assert("```json"@.is_prefix_of(t)) by {
            assert(t.subrange(0, 7) =~= "```json"@);
        }
        assert(without_prefix(t, "```json"@) =~= t1);
    } else {
        assert(!"```json"@.is_prefix_of(t)) by {
            if "```json"@.is_prefix_of(t) {
                assert(inner.len() >= 4) by {
                    if inner.len() < 4 {
                        assert(t[inner.len() as int + 3] == '`');
                        assert("```json"@[inner.len() as int + 3] != '`');
                    }
                }
                assert forall|i: int| 0 <= i < 4 implies inner[i] == "json"@[i] by {
                    assert(t[i + 3] == "```json"@[i + 3]);
                    assert(t[i + 3] == inner[i]);
                }
                assert("json"@.is_prefix_of(inner)) by {
                    assert(inner.subrange(0, 4) =~= "json"@);
                }
            }
        }
        assert("```"@.is_prefix_of(t)) by {
            assert(t.subrange(0, 3) =~= "```"@);
        }
        assert(without_prefix(t, "```"@) =~= t1);
    }
    assert("```"@.is_suffix_of(t1)) by {
        assert(t1.subrange(t1.len() - 3, t1.len() as int) =~= "```"@);
    }
    assert(without_suffix(t1, "```"@) =~= inner);
}

/// Law: an answer without fences, once trimmed, is given back as it is.
pub proof fn law_unfenced_answer(text: Seq<char>)
    requires
        !"```"@.is_prefix_of(trimmed(text)),
        !"```"@.is_suffix_of(trimmed(text)),
    ensures
        fences_stripped(text) == trimmed(text),
{
    reveal_strlit("```json");
    reveal_strlit("```");
    let t = trimmed(text);
    assert(!"```json"@.is_prefix_of(t)) by {
        if "```json"@.is_prefix_of(t) {
            assert(t.subrange(0, 3) =~= "```"@) by {
                assert forall|i: int| 0 <= i < 3 implies t[i] == "```"@[i] by {
                    assert(t[i] == "```json"@[i]);
                }
            }
        }
    }
    assert(without_prefix(t, "```"@) == t);
    assert(without_suffix(t, "```"@) == t);
    // trimming a trimmed text changes nothing
    if t.len() > 0 {
        lemma_trimmed_is_trimmed(text);
    }
}

proof fn lemma_trimmed_is_trimmed(text: Seq<char>)
    requires
        trimmed(text).len() > 0,
    ensures
        trimmed(trimmed(text)) == trimmed(text),
{
    let t = trimmed(text);
    lemma_trim_start_first(text);
    lemma_trim_end_last(trim_start(text));
    lemma_trim_end_prefix(trim_start(text));
    assert(t[0] == trim_start(text)[0]);
    lemma_trimmed_id(t);
}

proof fn lemma_trim_start_first(s: Seq<char>)
    ensures
        trim_start(s).len() == 0 || !is_ws(trim_start(s)[0]),
    decreases s.len(),
{
    if s.len() > 0 && is_ws(s[0]) {
        lemma_trim_start_first(s.drop_first());
    }
}

proof fn lemma_trim_end_last(s: Seq<char>)
    ensures
        trim_end(s).len() == 0 || !is_ws(trim_end(s).last()),
    decreases s.len(),
{
    if s.len() > 0 && is_ws(s.last()) {
        lemma_trim_end_last(s.drop_last());
    }
}

/// Trimming the end keeps a prefix of the text.
proof fn lemma_trim_end_prefix(s: Seq<char>)
    ensures
        trim_end(s).len() <= s.len(),
        trim_end(s) == s.subrange(0, trim_end(s).len() as int),
    decreases s.len(),
{
    if s.len() > 0 && is_ws(s.last()) {
        lemma_trim_end_prefix(s.drop_last());
    } else {
        assert(s.subrange(0, s.len() as int) =~= s);
    }
}

/// Law: the answer text is the `content` of the first choice's `message`
/// when that is a string; without choices, or without such a string, it is
/// empty.
pub proof fn law_completion_text(body: JsonV)
    ensures
        (member(body, "choices"@) matches JsonV::Array(items) && items.len() > 0) ==> completion_text(
            body,
        ) == match str_of(member(member(member(body, "choices"@)->Array_0[0], "message"@), "content"@)) {
            Some(c) => c,
            None => Seq::<char>::empty(),
        },
        !(member(body, "choices"@) matches JsonV::Array(items) && items.len() > 0) ==> completion_text(
            body,
        ) == Seq::<char>::empty(),
{
}

} // verus!
