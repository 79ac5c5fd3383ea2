use vstd::prelude::*;

use crate::canonical::{hash_style_json, style_hash};
use crate::dto::{
    as_image_kind, clone_opt, image_kind, opt_string_view, CreateStyleInput, StyleDTO,
    UpdateStyleInput,
};
use crate::error::{msg_of, AppError};
use crate::json::{json_string_array_of, string_array, strs, Json, JsonV};
use crate::json_text::compact;
use crate::repo::StyleRow;
use crate::text::{
    blank, contains, contains_text, is_blank, lowercase, owned, push_str, to_lowercase, trim, trimmed,
};

verus! {

// ---------------------------------------------------------------------------
// Inputs
// ---------------------------------------------------------------------------

/// Filters for the style list: a tag the style must carry, and a text that
/// its name or description must contain (case-insensitively).
pub struct ListStylesInput {
    pub tag: Option<String>,
    pub search: Option<String>,
}

/// A style's id.
pub struct IdInput {
    pub id: String,
}

/// A style's id, under the name the front end uses for it.
pub struct StyleIdInput {
    pub style_id: String,
}

/// Which generations to list: those of one style or all, and how many.
pub struct ListGenerationsInput {
    pub style_id: Option<String>,
    pub limit: Option<i64>,
}

// ---------------------------------------------------------------------------
// Listing
// ---------------------------------------------------------------------------

/// The style carries the tag (when one is asked for).
pub open spec fn tag_ok(style: StyleDTO, tag: Option<Seq<char>>) -> bool {
    match tag {
        None => true,
        Some(t) => exists|i: int| 0 <= i < style.tags@.len() && #[trigger] style.tags@[i]@ == t,
    }
}

/// The text of an optional description; empty when there is none.
pub open spec fn text_or_empty(s: Option<String>) -> Seq<char> {
    match s {
        Some(t) => t@,
        None => Seq::empty(),
    }
}

/// The lower-cased name or description contains the lower-cased search
/// text (when one is asked for).
pub open spec fn search_ok(style: StyleDTO, search: Option<Seq<char>>) -> bool {
    match search {
        None => true,
        Some(q) => contains_text(lowercase(style.name@), lowercase(q)) || contains_text(
            lowercase(text_or_empty(style.description)),
            lowercase(q),
        ),
    }
}

/// The styles that pass both filters, in their order.
pub open spec fn listed(styles: Seq<StyleDTO>, tag: Option<Seq<char>>, search: Option<Seq<char>>) -> Seq<
    StyleDTO,
>
    decreases styles.len(),
{
    if styles.len() == 0 {
        Seq::empty()
    } else {
        let rest = listed(styles.subrange(1, styles.len() as int), tag, search);
        if tag_ok(styles[0], tag) && search_ok(styles[0], search) {
            seq![styles[0]] + rest
        } else {
            rest
        }
    }
}

fn has_tag(style: &StyleDTO, tag: &str) -> (res: bool)
    ensures
        res == tag_ok(*style, Some(tag@)),
{
    let mut i: usize = 0;
    while i < style.tags.len()
        invariant
            i <= style.tags@.len(),
            forall|k: int| 0 <= k < i ==> (#[trigger] style.tags@[k])@ != tag@,
        decreases style.tags@.len() - i,
    {
        if crate::text::text_eq(style.tags[i].as_str(), tag) {
            return true;
        }
        i = i + 1;
    }
    false
}

fn matches_search(style: &StyleDTO, query: &str, lowered_query: &str) -> (res: bool)
    requires
        lowered_query@ == lowercase(query@),
    ensures
        res == search_ok(*style, Some(query@)),
{
    let name = to_lowercase(style.name.as_str());
    if contains(name.as_str(), lowered_query) {
        return true;
    }
    let description = match &style.description {
        Some(d) => to_lowercase(d.as_str()),
        None => {
            proof {
                reveal_strlit("");
                assert(""@ =~= Seq::<char>::empty());
            }
            to_lowercase("")
        },
    };
    contains(description.as_str(), lowered_query)
}

/// The optional text as a slice.
pub open spec fn opt_str(v: Option<String>) -> Option<Seq<char>> {
    crate::dto::opt_string_view(v)
}

/// The styles of the list view: the rows' DTOs, in the rows' order, that
/// carry the asked tag and whose name or description contains the search
/// text, ignoring case. No input lists every style.
pub fn list_styles(rows: Vec<StyleRow>, input: Option<ListStylesInput>) -> (res: Vec<StyleDTO>)
    ensures
        res@ == listed(
            rows@.map_values(|r: StyleRow| r.dto),
            match input {
                Some(i) => opt_str(i.tag),
                None => None,
            },
            match input {
                Some(i) => opt_str(i.search),
                None => None,
            },
        ),
{
    let (tag, search) = match input {
        Some(i) => (i.tag, i.search),
        None => (None, None),
    };
    let lowered = match &search {
        Some(q) => Some(to_lowercase(q.as_str())),
        None => None,
    };
    let ghost t = opt_str(tag);
    let ghost q = opt_str(search);
    let ghost all = rows@.map_values(|r: StyleRow| r.dto);
    let mut rows = rows;
    let mut out: Vec<StyleDTO> = Vec::new();
    proof {
        assert(rows@.map_values(|r: StyleRow| r.dto) =~= all);
    }
    while rows.len() > 0
        invariant
            t == opt_str(tag),
            q == opt_str(search),
            match search {
                Some(s) => lowered matches Some(l) && l@ == lowercase(s@),
                None => lowered is None,
            },
            listed(all, t, q) == out@ + listed(rows@.map_values(|r: StyleRow| r.dto), t, q),
        decreases rows@.len(),
    {
        let ghost before = rows@.map_values(|r: StyleRow| r.dto);
        let row = rows.remove(0);
        proof {
            assert(rows@.map_values(|r: StyleRow| r.dto) =~= before.subrange(1, before.len() as int));
            assert(before[0] == row.dto);
        }
        let style = row.dto;
        let keep_tag = match &tag {
            Some(tg) => has_tag(&style, tg.as_str()),
            None => true,
        };
        let keep = keep_tag && match &search {
            Some(s) => match &lowered {
                Some(l) => matches_search(&style, s.as_str(), l.as_str()),
                None => true,
            },
            None => true,
        };
        let ghost out_before = out@;
        if keep {
            out.push(style);
            proof {
                assert(out@ + listed(rows@.map_values(|r: StyleRow| r.dto), t, q) =~= out_before + (
                seq![style] + listed(rows@.map_values(|r: StyleRow| r.dto), t, q)));
            }
        }
    }
    proof {
        assert(out@ + Seq::<StyleDTO>::empty() =~= out@);
    }
    out
}

// ---------------------------------------------------------------------------
// Creating, duplicating and deleting
// ---------------------------------------------------------------------------

/// The values of a new row of the style table, apart from its id and
/// timestamps. The JSON columns hold compact JSON text.
#[derive(Debug)]
pub struct NewStyle {
    pub name: String,
    pub description: Option<String>,
    pub kind: String,
    pub tags: String,
    pub style_json: Json,
    pub style_json_text: String,
    pub style_brief: Option<String>,
    pub brief_source_hash: Option<String>,
    pub provider: String,
    pub model_id: String,
    pub default_params: String,
    pub anchor_image_ids: String,
}

pub open spec fn name_required_message() -> Seq<char> {
    "Name ist erforderlich."@
}

pub open spec fn style_not_object_message() -> Seq<char> {
    "styleJson muss ein Objekt sein."@
}

pub open spec fn style_not_found_message() -> Seq<char> {
    "Stil nicht gefunden."@
}

/// The provider of a new style when none is given.
pub open spec fn default_provider() -> Seq<char> {
    "openrouter"@
}

/// The image model of a new style when none is given.
pub open spec fn default_model() -> Seq<char> {
    "google/gemini-3-pro-image-preview"@
}

/// The compact JSON text of a list of strings.
pub open spec fn strings_text(v: Seq<String>) -> Seq<char> {
    compact(string_array(strs(v)))
}

/// The text of an optional string, or a default.
pub open spec fn text_or(v: Option<String>, default: Seq<char>) -> Seq<char> {
    match v {
        Some(s) => s@,
        None => default,
    }
}

fn string_or(v: Option<String>, default: &str) -> (res: String)
    ensures
        res@ == text_or(v, default@),
{
    match v {
        Some(s) => s,
        None => owned(default),
    }
}

fn strings_json_text(v: &Vec<String>) -> (res: String)
    ensures
        res@ == strings_text(v@),
{
    json_string_array_of(v).to_compact_string()
}

/// `value` is a JSON object.
pub open spec fn is_object(value: JsonV) -> bool {
    value is Object
}

/// Checks the input for a new style and fills in the defaults: the name is
/// trimmed and must not be empty, the style JSON must be an object; the kind
/// falls back to "foto", the provider and model to the OpenRouter defaults,
/// the lists to empty ones and the default parameters to an empty object.
/// The brief fields are left empty (see [`brief_fields`]).
pub fn create_style_plan(input: CreateStyleInput) -> (res: Result<NewStyle, AppError>)
    ensures
        is_blank(input.name@) ==> (res matches Err(e) && msg_of(e) == Some(name_required_message())),
        !is_blank(input.name@) && !is_object(input.style_json@) ==> (res matches Err(e) && msg_of(e)
            == Some(style_not_object_message())),
        !is_blank(input.name@) && is_object(input.style_json@) ==> (res matches Ok(n) && {
            &&& n.name@ == trimmed(input.name@)
            &&& n.description == input.description
            &&& n.kind@ == image_kind(opt_string_view(input.kind))
            &&& n.tags@ == match input.tags {
                Some(t) => strings_text(t@),
                None => strings_text(Seq::empty()),
            }
            &&& n.style_json == input.style_json
            &&& n.style_json_text@ == compact(input.style_json@)
            &&& n.style_brief is None
            &&& n.brief_source_hash is None
            &&& n.provider@ == text_or(input.provider, default_provider())
            &&& n.model_id@ == text_or(input.model_id, default_model())
            &&& n.default_params@ == match input.default_params {
                Some(d) => compact(d@),
                None => compact(JsonV::Object(Seq::empty())),
            }
            &&& n.anchor_image_ids@ == match input.anchor_image_ids {
                Some(a) => strings_text(a@),
                None => strings_text(Seq::empty()),
            }
        }),
{
    if blank(input.name.as_str()) {
        return Err(AppError::msg_str("Name ist erforderlich."));
    }
    if !input.style_json.is_object() {
        return Err(AppError::msg_str("styleJson muss ein Objekt sein."));
    }
    let name = trim(input.name.as_str());
    let kind = match &input.kind {
        Some(k) => as_image_kind(Some(k.as_str())),
        None => as_image_kind(None),
    };
    let tags = match &input.tags {
        Some(t) => strings_json_text(t),
        None => strings_json_text(&Vec::new()),
    };
    let style_json_text = input.style_json.to_compact_string();
    let default_params = match &input.default_params {
        Some(d) => d.to_compact_string(),
        None => {
            let empty = Json::Object(Vec::new());
            proof {
                assert(empty@ == JsonV::Object(crate::json::view_entries(Seq::empty())));
            }
            empty.to_compact_string()
        },
    };
    let anchor_image_ids = match &input.anchor_image_ids {
        Some(a) => strings_json_text(a),
        None => strings_json_text(&Vec::new()),
    };
    let provider = string_or(input.provider, "openrouter");
    let model_id = string_or(input.model_id, "google/gemini-3-pro-image-preview");
    Ok(NewStyle {
        name,
        description: input.description,
        kind,
        tags,
        style_json: input.style_json,
        style_json_text,
        style_brief: None,
        brief_source_hash: None,
        provider,
        model_id,
        default_params,
        anchor_image_ids,
    })
}

/// The brief columns after a brief was asked for: on success the brief
/// (none when it is empty) and the hash of the style it was made from; on
/// failure neither, so that saving the style never fails for it.
pub open spec fn brief_columns(outcome: Result<Seq<char>, ()>, style: JsonV) -> (
    Option<Seq<char>>,
    Option<Seq<char>>,
) {
    match outcome {
        Ok(b) => (
            if b.len() == 0 {
                None
            } else {
                Some(b)
            },
            Some(style_hash(style)),
        ),
        Err(_) => (None, None),
    }
}

/// The outcome of a brief call, with the error left out.
pub open spec fn brief_outcome(outcome: Result<String, AppError>) -> Result<Seq<char>, ()> {
    match outcome {
        Ok(b) => Ok(b@),
        Err(_) => Err(()),
    }
}

/// The brief columns of a style from the outcome of the brief call (see
/// [`brief_columns`]).
pub fn brief_fields(outcome: Result<String, AppError>, style_json: &Json) -> (res: (
    Option<String>,
    Option<String>,
))
    ensures
        (opt_string_view(res.0), opt_string_view(res.1)) == brief_columns(
            brief_outcome(outcome),
            style_json@,
        ),
{
    match outcome {
        Ok(brief) => {
            let hash = hash_style_json(style_json);
            if brief.as_str().is_empty() {
                (None, Some(hash))
            } else {
                (Some(brief), Some(hash))
            }
        },
        Err(_) => (None, None),
    }
}

/// The copy of a style: the name marked as a copy, no anchor images, and
/// everything else (the brief too, which still fits the same style JSON)
/// taken over.
pub fn duplicate_style_plan(source: &StyleRow) -> (res: NewStyle)
    ensures
        res.name@ == source.dto.name@ + " (Kopie)"@,
        opt_string_view(res.description) == opt_string_view(source.dto.description),
        res.kind@ == source.dto.kind@,
        res.tags@ == strings_text(source.dto.tags@),
        res.style_json@ == source.dto.style_json@,
        res.style_json_text@ == compact(source.dto.style_json@),
        opt_string_view(res.style_brief) == opt_string_view(source.dto.style_brief),
        opt_string_view(res.brief_source_hash) == opt_string_view(source.brief_source_hash),
        res.provider@ == source.dto.provider@,
        res.model_id@ == source.dto.model_id@,
        res.default_params@ == compact(source.dto.default_params@),
        res.anchor_image_ids@ == "[]"@,
{
    let mut name = source.dto.name.clone();
    push_str(&mut name, " (Kopie)");
    NewStyle {
        name,
        description: clone_opt(&source.dto.description),
        kind: source.dto.kind.clone(),
        tags: strings_json_text(&source.dto.tags),
        style_json: source.dto.style_json.deep_clone(),
        style_json_text: source.dto.style_json.to_compact_string(),
        style_brief: clone_opt(&source.dto.style_brief),
        brief_source_hash: clone_opt(&source.brief_source_hash),
        provider: source.dto.provider.clone(),
        model_id: source.dto.model_id.clone(),
        default_params: source.dto.default_params.to_compact_string(),
        anchor_image_ids: owned("[]"),
    }
}

/// The answer to a delete: the id when a row was deleted, an error when
/// none was.
pub fn deleted_style(rows_deleted: usize, id: String) -> (res: Result<Json, AppError>)
    ensures
        rows_deleted == 0 ==> (res matches Err(e) && msg_of(e) == Some(style_not_found_message())),
        rows_deleted > 0 ==> (res matches Ok(j) && j@ == JsonV::Object(
            seq![("id"@, JsonV::String(id@))],
        )),
{
    if rows_deleted == 0 {
        return Err(AppError::msg_str("Stil nicht gefunden."));
    }
    let ghost idv = id@;
    let mut entries: Vec<(String, Json)> = Vec::new();
    entries.push((owned("id"), Json::String(id)));
    let res = Json::Object(entries);
    proof {
        crate::json::lemma_view_entries(entries@);
        assert(crate::json::view_entries(entries@) =~= seq![("id"@, JsonV::String(idv))]);
    }
    Ok(res)
}

// ---------------------------------------------------------------------------
// Updating
// ---------------------------------------------------------------------------

/// A value bound to a column of the database.
#[derive(Debug)]
pub enum ColumnValue {
    Null,
    Integer(i64),
    Text(String),
}

/// The model of a [`ColumnValue`].
pub enum ColumnV {
    Null,
    Integer(int),
    Text(Seq<char>),
}

pub open spec fn column_view(v: ColumnValue) -> ColumnV {
    match v {
        ColumnValue::Null => ColumnV::Null,
        ColumnValue::Integer(i) => ColumnV::Integer(i as int),
        ColumnValue::Text(s) => ColumnV::Text(s@),
    }
}

/// The models of a list of column assignments.
pub open spec fn assignments_view(v: Seq<(String, ColumnValue)>) -> Seq<(Seq<char>, ColumnV)> {
    v.map_values(|p: (String, ColumnValue)| (p.0@, column_view(p.1)))
}

/// An optional text as a column value: null when absent.
pub open spec fn nullable(v: Option<Seq<char>>) -> ColumnV {
    match v {
        Some(s) => ColumnV::Text(s),
        None => ColumnV::Null,
    }
}

/// The style JSON of the update differs from the current one (compared as
/// compact JSON text).
pub open spec fn style_changes(next: Option<Json>, current: JsonV) -> bool {
    match next {
        Some(n) => compact(n@) != compact(current),
        None => false,
    }
}

/// The brief must be made anew: the style JSON is replaced and either its
/// hash differs from the one the stored brief was made from or there is no
/// stored brief.
pub open spec fn brief_needed(input: UpdateStyleInput, current: StyleRow) -> bool {
    match input.style_json {
        Some(n) => opt_string_view(current.brief_source_hash) != Some(style_hash(n@))
            || current.dto.style_brief is None,
        None => false,
    }
}

/// The kind the brief is made for: the new kind if one is given, else the
/// current one.
pub open spec fn brief_kind_of(input: UpdateStyleInput, current: StyleRow) -> Seq<char> {
    match input.kind {
        Some(k) => image_kind(Some(k@)),
        None => current.dto.kind@,
    }
}

/// The version a style has after an update: one more exactly when the style
/// JSON changes.
pub open spec fn next_version_of(input: UpdateStyleInput, current: StyleRow) -> int {
    if style_changes(input.style_json, current.dto.style_json@) {
        current.dto.version + 1
    } else {
        current.dto.version as int
    }
}

/// The row of the version table an update adds: the new version with the
/// compact text of the new style JSON, only when that JSON changes.
pub open spec fn added_version_row(input: UpdateStyleInput, current: StyleRow) -> Option<(int, Seq<char>)> {
    match input.style_json {
        Some(n) => if style_changes(input.style_json, current.dto.style_json@) {
            Some((next_version_of(input, current), compact(n@)))
        } else {
            None
        },
        None => None,
    }
}

/// The style JSON text a style holds after an update.
pub open spec fn stored_style_text(input: UpdateStyleInput, current: StyleRow) -> Seq<char> {
    match input.style_json {
        Some(n) => compact(n@),
        None => compact(current.dto.style_json@),
    }
}

/// What an update decides before anything is written: whether the style
/// JSON changes, the version the style gets, and, where a new brief is
/// needed, the kind to make it for.
#[derive(Debug)]
pub struct UpdatePlan {
    pub style_changed: bool,
    pub next_version: i64,
    pub brief_kind: Option<String>,
}

pub open spec fn id_required_message() -> Seq<char> {
    "id ist erforderlich."@
}

/// Whether the style JSON of an update differs from the current one.
pub fn style_changed(next: &Option<Json>, current: &Json) -> (res: bool)
    ensures
        res == style_changes(*next, current@),
{
    match next {
        Some(n) => {
            let a = n.to_compact_string();
            let b = current.to_compact_string();
            !crate::text::text_eq(a.as_str(), b.as_str())
        },
        None => false,
    }
}

/// Plans an update: the id must not be blank and the style must exist. The
/// version goes up by one exactly when the style JSON changes; a new brief
/// is asked for exactly when [`brief_needed`] holds.
pub fn update_style_plan(input: &UpdateStyleInput, current: Option<&StyleRow>) -> (res: Result<
    UpdatePlan,
    AppError,
>)
    requires
        current matches Some(c) ==> (style_changes(input.style_json, c.dto.style_json@)
            ==> c.dto.version < i64::MAX),
    ensures
        is_blank(input.id@) ==> (res matches Err(e) && msg_of(e) == Some(id_required_message())),
        !is_blank(input.id@) && current is None ==> (res matches Err(e) && msg_of(e) == Some(
            style_not_found_message(),
        )),
        !is_blank(input.id@) && current is Some ==> (res matches Ok(p) && {
            let c = current.unwrap();
            &&& p.style_changed == style_changes(input.style_json, c.dto.style_json@)
            &&& p.next_version == next_version_of(*input, *c)
            &&& p.brief_kind is Some == brief_needed(*input, *c)
            &&& p.brief_kind matches Some(k) ==> k@ == brief_kind_of(*input, *c)
        }),
{
    if blank(input.id.as_str()) {
        return Err(AppError::msg_str("id ist erforderlich."));
    }
    let c = match current {
        Some(c) => c,
        None => {
            return Err(AppError::msg_str("Stil nicht gefunden."));
        },
    };
    let changed = style_changed(&input.style_json, &c.dto.style_json);
    let next_version = if changed {
        c.dto.version + 1
    } else {
        c.dto.version
    };
    let brief_kind = match &input.style_json {
        Some(n) => {
            let hash = hash_style_json(n);
            let same_hash = match &c.brief_source_hash {
                Some(h) => crate::text::text_eq(h.as_str(), hash.as_str()),
                None => false,
            };
            if !same_hash || c.dto.style_brief.is_none() {
                match &input.kind {
                    Some(k) => Some(as_image_kind(Some(k.as_str()))),
                    None => Some(c.dto.kind.clone()),
                }
            } else {
                None
            }
        },
        None => None,
    };
    Ok(UpdatePlan { style_changed: changed, next_version, brief_kind })
}

/// The assignment of an optional text column, mapped by `f` where present.
pub open spec fn mapped_assignment(
    column: Seq<char>,
    v: Option<Seq<char>>,
    f: spec_fn(Seq<char>) -> Seq<char>,
) -> Seq<(Seq<char>, ColumnV)> {
    match v {
        Some(t) => seq![(column, ColumnV::Text(f(t)))],
        None => Seq::empty(),
    }
}

/// The assignment of an optional JSON column, as compact text.
pub open spec fn json_assignment(column: Seq<char>, v: Option<Json>) -> Seq<(Seq<char>, ColumnV)> {
    match v {
        Some(j) => seq![(column, ColumnV::Text(compact(j@)))],
        None => Seq::empty(),
    }
}

/// The assignment of an optional list of strings, as compact JSON text.
pub open spec fn list_assignment(column: Seq<char>, v: Option<Vec<String>>) -> Seq<(Seq<char>, ColumnV)> {
    match v {
        Some(t) => seq![(column, ColumnV::Text(strings_text(t@)))],
        None => Seq::empty(),
    }
}

/// The assignment of the description, which may be set to null.
pub open spec fn description_assignment(v: Option<Option<String>>) -> Seq<(Seq<char>, ColumnV)> {
    match v {
        Some(d) => seq![("description"@, nullable(opt_string_view(d)))],
        None => Seq::empty(),
    }
}

/// The assignments of the brief columns, where a brief was asked for.
pub open spec fn brief_assignments(brief: Option<(Option<Seq<char>>, Option<Seq<char>>)>) -> Seq<
    (Seq<char>, ColumnV),
> {
    match brief {
        Some((b, h)) => seq![("styleBrief"@, nullable(b)), ("briefSourceHash"@, nullable(h))],
        None => Seq::empty(),
    }
}

/// The columns an update assigns, in order: version and update time always;
/// then each field the input gives (the name trimmed, the kind coerced, the
/// lists and objects as compact JSON), and the brief columns where a brief
/// was asked for.
pub open spec fn update_columns(
    input: UpdateStyleInput,
    next_version: i64,
    brief: Option<(Option<Seq<char>>, Option<Seq<char>>)>,
    now: Seq<char>,
) -> Seq<(Seq<char>, ColumnV)> {
    seq![("version"@, ColumnV::Integer(next_version as int)), ("updatedAt"@, ColumnV::Text(now))]
        + mapped_assignment("name"@, opt_string_view(input.name), |t: Seq<char>| trimmed(t))
        + description_assignment(input.description)
        + mapped_assignment("kind"@, opt_string_view(input.kind), |t: Seq<char>| image_kind(Some(t)))
        + list_assignment("tags"@, input.tags)
        + json_assignment("styleJson"@, input.style_json)
        + brief_assignments(brief)
        + json_assignment("defaultParams"@, input.default_params)
        + list_assignment("anchorImageIds"@, input.anchor_image_ids)
        + mapped_assignment("provider"@, opt_string_view(input.provider), |t: Seq<char>| t)
        + mapped_assignment("modelId"@, opt_string_view(input.model_id), |t: Seq<char>| t)
}

/// The model of optional brief columns.
pub open spec fn brief_view(brief: Option<(Option<String>, Option<String>)>) -> Option<
    (Option<Seq<char>>, Option<Seq<char>>),
> {
    match brief {
        Some((b, h)) => Some((opt_string_view(b), opt_string_view(h))),
        None => None,
    }
}

fn nullable_value(v: &Option<String>) -> (res: ColumnValue)
    ensures
        column_view(res) == nullable(opt_string_view(*v)),
{
    match v {
        Some(s) => ColumnValue::Text(s.clone()),
        None => ColumnValue::Null,
    }
}

fn push_assignment(out: &mut Vec<(String, ColumnValue)>, column: &str, value: ColumnValue)
    ensures
        assignments_view(final(out)@) == assignments_view(old(out)@) + seq![
            (column@, column_view(value)),
        ],
{
    out.push((owned(column), value));
    proof {
        assert(assignments_view(final(out)@) =~= assignments_view(old(out)@) + seq![
            (column@, column_view(value)),
        ]);
    }
}

fn push_name(out: &mut Vec<(String, ColumnValue)>, name: &Option<String>)
    ensures
        assignments_view(final(out)@) == assignments_view(old(out)@) + mapped_assignment(
            "name"@,
            opt_string_view(*name),
            |t: Seq<char>| trimmed(t),
        ),
{
    let ghost s0 = assignments_view(out@);
    match name {
        Some(n) => push_assignment(out, "name", ColumnValue::Text(trim(n.as_str()))),
        None => {},
    }
    proof {
        assert(assignments_view(out@) =~= s0 + mapped_assignment(
            "name"@,
            opt_string_view(*name),
            |t: Seq<char>| trimmed(t),
        ));
    }
}

fn push_kind(out: &mut Vec<(String, ColumnValue)>, kind: &Option<String>)
    ensures
        assignments_view(final(out)@) == assignments_view(old(out)@) + mapped_assignment(
            "kind"@,
            opt_string_view(*kind),
            |t: Seq<char>| image_kind(Some(t)),
        ),
{
    let ghost s0 = assignments_view(out@);
    match kind {
        Some(k) => push_assignment(out, "kind", ColumnValue::Text(as_image_kind(Some(k.as_str())))),
        None => {},
    }
    proof {
        assert(assignments_view(out@) =~= s0 + mapped_assignment(
            "kind"@,
            opt_string_view(*kind),
            |t: Seq<char>| image_kind(Some(t)),
        ));
    }
}

fn push_text(out: &mut Vec<(String, ColumnValue)>, column: &str, v: &Option<String>)
    ensures
        assignments_view(final(out)@) == assignments_view(old(out)@) + mapped_assignment(
            column@,
            opt_string_view(*v),
            |t: Seq<char>| t,
        ),
{
    let ghost s0 = assignments_view(out@);
    match v {
        Some(p) => push_assignment(out, column, ColumnValue::Text(p.clone())),
        None => {},
    }
    proof {
        assert(assignments_view(out@) =~= s0 + mapped_assignment(
            column@,
            opt_string_view(*v),
            |t: Seq<char>| t,
        ));
    }
}

fn push_description(out: &mut Vec<(String, ColumnValue)>, v: &Option<Option<String>>)
    ensures
        assignments_view(final(out)@) == assignments_view(old(out)@) + description_assignment(*v),
{
    let ghost s0 = assignments_view(out@);
    match v {
        Some(d) => push_assignment(out, "description", nullable_value(d)),
        None => {},
    }
    proof {
        assert(assignments_view(out@) =~= s0 + description_assignment(*v));
    }
}

fn push_list(out: &mut Vec<(String, ColumnValue)>, column: &str, v: &Option<Vec<String>>)
    ensures
        assignments_view(final(out)@) == assignments_view(old(out)@) + list_assignment(column@, *v),
{
    let ghost s0 = assignments_view(out@);
    match v {
        Some(t) => push_assignment(out, column, ColumnValue::Text(strings_json_text(t))),
        None => {},
    }
    proof {
        assert(assignments_view(out@) =~= s0 + list_assignment(column@, *v));
    }
}

fn push_json(out: &mut Vec<(String, ColumnValue)>, column: &str, v: &Option<Json>)
    ensures
        assignments_view(final(out)@) == assignments_view(old(out)@) + json_assignment(column@, *v),
{
    let ghost s0 = assignments_view(out@);
    match v {
        Some(j) => push_assignment(out, column, ColumnValue::Text(j.to_compact_string())),
        None => {},
    }
    proof {
        assert(assignments_view(out@) =~= s0 + json_assignment(column@, *v));
    }
}

fn push_brief(out: &mut Vec<(String, ColumnValue)>, brief: &Option<(Option<String>, Option<String>)>)
    ensures
        assignments_view(final(out)@) == assignments_view(old(out)@) + brief_assignments(
            brief_view(*brief),
        ),
{
    let ghost s0 = assignments_view(out@);
    match brief {
        Some((b, h)) => {
            push_assignment(out, "styleBrief", nullable_value(b));
            push_assignment(out, "briefSourceHash", nullable_value(h));
        },
        None => {},
    }
    proof {
        assert(assignments_view(out@) =~= s0 + brief_assignments(brief_view(*brief)));
    }
}

/// The column assignments of an update (see [`update_columns`]); `brief`
/// holds the brief columns where a brief was asked for.
pub fn update_assignments(
    input: &UpdateStyleInput,
    next_version: i64,
    brief: &Option<(Option<String>, Option<String>)>,
    now: &str,
) -> (res: Vec<(String, ColumnValue)>)
    ensures
        assignments_view(res@) == update_columns(*input, next_version, brief_view(*brief), now@),
{
    let mut out: Vec<(String, ColumnValue)> = Vec::new();
    let ghost empty: Seq<(Seq<char>, ColumnV)> = Seq::empty();
    proof {
        assert(assignments_view(out@) =~= empty);
    }
    push_assignment(&mut out, "version", ColumnValue::Integer(next_version));
    push_assignment(&mut out, "updatedAt", ColumnValue::Text(owned(now)));
    proof {
        assert(assignments_view(out@) =~= seq![
            ("version"@, ColumnV::Integer(next_version as int)),
            ("updatedAt"@, ColumnV::Text(now@)),
        ]);
    }
    push_name(&mut out, &input.name);
    push_description(&mut out, &input.description);
    push_kind(&mut out, &input.kind);
    push_list(&mut out, "tags", &input.tags);
    push_json(&mut out, "styleJson", &input.style_json);
    push_brief(&mut out, brief);
    push_json(&mut out, "defaultParams", &input.default_params);
    push_list(&mut out, "anchorImageIds", &input.anchor_image_ids);
    push_text(&mut out, "provider", &input.provider);
    push_text(&mut out, "modelId", &input.model_id);
    out
}

/// The row of the version table that an update adds: the new version with
/// the new style JSON, only when the style JSON changed.
pub fn version_row(input: &UpdateStyleInput, plan: &UpdatePlan) -> (res: Option<(i64, String)>)
    ensures
        res is Some <==> plan.style_changed && input.style_json is Some,
        res matches Some((v, t)) ==> v == plan.next_version,
        res matches Some((v, t)) ==> (input.style_json matches Some(j) && t@ == compact(j@)),
{
    if plan.style_changed {
        match &input.style_json {
            Some(j) => Some((plan.next_version, j.to_compact_string())),
            None => None,
        }
    } else {
        None
    }
}

/// The generation history asked for: one style's (or all) and at most
/// `limit` entries, 50 unless the input says otherwise.
pub fn generations_query(input: Option<ListGenerationsInput>) -> (res: (Option<String>, i64))
    ensures
        res.0 == match input {
            Some(i) => i.style_id,
            None => None,
        },
        res.1 == match input {
            Some(i) => match i.limit {
                Some(l) => l,
                None => 50,
            },
            None => 50,
        },
{
    match input {
        Some(i) => (
            i.style_id,
            match i.limit {
                Some(l) => l,
                None => 50,
            },
        ),
        None => (None, 50),
    }
}

/// Law: sending the current style JSON again is no change: the version
/// stays and no version row is written.
pub proof fn law_resubmitted_style_is_no_change(next: Json, current: JsonV)
    requires
        next@ == current,
    ensures
        !style_changes(Some(next), current),
{
}

/// Law: a style whose stored brief was made from exactly the style JSON of
/// the update keeps its brief; no new brief is asked for.
pub proof fn law_matching_brief_is_kept(input: UpdateStyleInput, current: StyleRow)
    requires
        input.style_json matches Some(n) && opt_string_view(current.brief_source_hash) == Some(
            style_hash(n@),
        ),
        current.dto.style_brief is Some,
    ensures
        !brief_needed(input, current),
{
}

/// Law: every style has a row of the version table for its current version
/// and style JSON, and an update keeps it so. Given that the rows (style id,
/// version, style JSON text) hold one for the style as it is, the rows after
/// the update (with the row [`added_version_row`], if any) hold one for the
/// version and style JSON text the update leaves; a row is added exactly when
/// the version goes up, by one, and the version assignment of the update is
/// that version.
pub proof fn law_update_keeps_version_rows(
    input: UpdateStyleInput,
    current: StyleRow,
    rows: Set<(Seq<char>, int, Seq<char>)>,
    brief: Option<(Option<Seq<char>>, Option<Seq<char>>)>,
    now: Seq<char>,
)
    requires
        rows.contains((input.id@, current.dto.version as int, compact(current.dto.style_json@))),
        style_changes(input.style_json, current.dto.style_json@) ==> current.dto.version < i64::MAX,
    ensures
        ({
            let after = match added_version_row(input, current) {
                Some((v, t)) => rows.insert((input.id@, v, t)),
                None => rows,
            };
            &&& after.contains(
                (input.id@, next_version_of(input, current), stored_style_text(input, current)),
            )
            &&& (added_version_row(input, current) is Some <==> next_version_of(input, current)
                == current.dto.version + 1)
            &&& (added_version_row(input, current) is None ==> next_version_of(input, current)
                == current.dto.version)
            &&& update_columns(input, next_version_of(input, current) as i64, brief, now)[0] == (
                "version"@,
                ColumnV::Integer(next_version_of(input, current)),
            )
        }),
{
}

/// Law: the listed styles are those of the input that carry the asked tag
/// and match the search: every listed style passes both filters, every
/// input style that passes them is listed, nothing is added, and without
/// filters the list is the input itself.
pub proof fn law_listed_styles(styles: Seq<StyleDTO>, tag: Option<Seq<char>>, search: Option<Seq<char>>)
    ensures
        forall|k: int|
            0 <= k < listed(styles, tag, search).len() ==> tag_ok(
                #[trigger] listed(styles, tag, search)[k],
                tag,
            ) && search_ok(listed(styles, tag, search)[k], search),
        forall|i: int|
            0 <= i < styles.len() && tag_ok(#[trigger] styles[i], tag) && search_ok(styles[i], search)
                ==> listed(styles, tag, search).contains(styles[i]),
        listed(styles, tag, search).len() <= styles.len(),
        tag is None && search is None ==> listed(styles, tag, search) == styles,
    decreases styles.len(),
{
    if styles.len() > 0 {
        let sub = styles.subrange(1, styles.len() as int);
        law_listed_styles(sub, tag, search);
        let rest = listed(sub, tag, search);
        let l = listed(styles, tag, search);
        if tag_ok(styles[0], tag) && search_ok(styles[0], search) {
            assert(l == seq![styles[0]] + rest);
            assert forall|k: int| 0 <= k < l.len() implies tag_ok(#[trigger] l[k], tag) && search_ok(
                l[k],
                search,
            ) by {
                if k > 0 {
                    assert(l[k] == rest[k - 1]);
                }
            }
            assert forall|i: int|
                0 <= i < styles.len() && tag_ok(#[trigger] styles[i], tag) && search_ok(
                    styles[i],
                    search,
                ) implies l.contains(styles[i]) by {
                if i == 0 {
                    assert(l[0] == styles[0]);
                } else {
                    assert(styles[i] == sub[i - 1]);
                    assert(rest.contains(sub[i - 1]));
                    let k = choose|k: int| 0 <= k < rest.len() && rest[k] == sub[i - 1];
                    assert(l[k + 1] == rest[k]);
                }
            }
            if tag is None && search is None {
                assert(styles =~= seq![styles[0]] + sub);
            }
        } else {
            assert(l == rest);
            assert forall|i: int|
                0 <= i < styles.len() && tag_ok(#[trigger] styles[i], tag) && search_ok(
                    styles[i],
                    search,
                ) implies l.contains(styles[i]) by {
                if i > 0 {
                    assert(styles[i] == sub[i - 1]);
                }
            }
        }
    }
}

/// One when the field is given, else zero.
pub open spec fn given<T>(v: Option<T>) -> int {
    if v is Some {
        1
    } else {
        0
    }
}

/// Law: an update assigns the version and the update time first, and then
/// one column for each field the input gives (two for the brief): nothing
/// else. The name is assigned trimmed, the kind coerced to a valid kind,
/// and a given model id last, as it is.
pub proof fn law_update_columns(
    input: UpdateStyleInput,
    next_version: i64,
    brief: Option<(Option<Seq<char>>, Option<Seq<char>>)>,
    now: Seq<char>,
)
    ensures
        ({
            let c = update_columns(input, next_version, brief, now);
            &&& c.len() == 2 + given(input.name) + given(input.description) + given(input.kind)
                + given(input.tags) + given(input.style_json) + 2 * given(brief) + given(
                input.default_params,
            ) + given(input.anchor_image_ids) + given(input.provider) + given(input.model_id)
            &&& c[0] == ("version"@, ColumnV::Integer(next_version as int))
            &&& c[1] == ("updatedAt"@, ColumnV::Text(now))
            &&& (input.name is Some ==> c[2] == ("name"@, ColumnV::Text(trimmed(input.name.unwrap()@))))
            &&& (input.name is None && input.description is Some ==> c[2] == (
                "description"@,
                nullable(opt_string_view(input.description.unwrap())),
            ))
            &&& (input.model_id is Some ==> c.last() == ("modelId"@, ColumnV::Text(input.model_id.unwrap()@)))
            &&& (input.kind is Some ==> c[2 + given(input.name) + given(input.description)] == (
                "kind"@,
                ColumnV::Text(image_kind(Some(input.kind.unwrap()@))),
            ))
        }),
{
}

} // verus!
