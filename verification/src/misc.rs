use vstd::prelude::*;

use crate::config::{joined_path, path_join, Config, Paths};
use crate::dto::{AnalyzeStyleInput, CompileStyleBriefInput, SettingsInfo};
use crate::error::{msg_of, AppError};
use crate::styles::{is_object, style_not_object_message};
use crate::text::{
    blank, chars_of, decimal, is_blank, owned, push_chars, push_decimal, push_str, starts_with, trim,
    trimmed,
};

verus! {

// ---------------------------------------------------------------------------
// Analysis and brief requests
// ---------------------------------------------------------------------------

pub open spec fn image_required_message() -> Seq<char> {
    "Bitte ein Bild (imageBase64) übergeben."@
}

pub open spec fn not_image_mime_message() -> Seq<char> {
    "mimeType muss ein Bild-MIME-Typ sein (image/...)."@
}

/// Checks a request to analyse an image: the image data must not be blank
/// and the MIME type must start with `image/`.
pub fn check_analyze_input(input: &AnalyzeStyleInput) -> (res: Result<(), AppError>)
    ensures
        is_blank(input.image_base64@) ==> (res matches Err(e) && msg_of(e) == Some(
            image_required_message(),
        )),
        !is_blank(input.image_base64@) && !"image/"@.is_prefix_of(input.mime_type@) ==> (res matches Err(
            e,
        ) && msg_of(e) == Some(not_image_mime_message())),
        !is_blank(input.image_base64@) && "image/"@.is_prefix_of(input.mime_type@) ==> res is Ok,
{
    if blank(input.image_base64.as_str()) {
        return Err(AppError::msg_str("Bitte ein Bild (imageBase64) übergeben."));
    }
    if !starts_with(input.mime_type.as_str(), "image/") {
        return Err(AppError::msg_str("mimeType muss ein Bild-MIME-Typ sein (image/...)."));
    }
    Ok(())
}

/// Checks a request for a style brief: the style JSON must be an object.
pub fn check_brief_input(input: &CompileStyleBriefInput) -> (res: Result<(), AppError>)
    ensures
        !is_object(input.style_json@) ==> (res matches Err(e) && msg_of(e) == Some(
            style_not_object_message(),
        )),
        is_object(input.style_json@) ==> res is Ok,
{
    if !input.style_json.is_object() {
        return Err(AppError::msg_str("styleJson muss ein Objekt sein."));
    }
    Ok(())
}

// ---------------------------------------------------------------------------
// Camera bodies
// ---------------------------------------------------------------------------

/// A camera body's name.
pub struct CameraNameInput {
    pub name: String,
}

pub open spec fn camera_name_required_message() -> Seq<char> {
    "Name erforderlich."@
}

/// The name under which a camera body is stored: the input trimmed, which
/// must not be empty.
pub fn camera_name(input: &CameraNameInput) -> (res: Result<String, AppError>)
    ensures
        is_blank(input.name@) ==> (res matches Err(e) && msg_of(e) == Some(
            camera_name_required_message(),
        )),
        !is_blank(input.name@) ==> (res matches Ok(n) && n@ == trimmed(input.name@)),
{
    if blank(input.name.as_str()) {
        return Err(AppError::msg_str("Name erforderlich."));
    }
    Ok(trim(input.name.as_str()))
}

// ---------------------------------------------------------------------------
// Settings
// ---------------------------------------------------------------------------

/// The masked form of an API key: its first four and last four characters
/// around an ellipsis, and its length; nothing for an empty key.
pub open spec fn masked(key: Seq<char>) -> Option<Seq<char>> {
    if key.len() == 0 {
        None
    } else {
        let n = key.len();
        let head = key.take(if n < 4 {
            n as int
        } else {
            4
        });
        let tail = key.skip(if n < 4 {
            0
        } else {
            n - 4
        });
        Some(head + "…"@ + tail + " ("@ + decimal(n) + " Zeichen)"@)
    }
}

/// Masks an API key for display (see [`masked`]).
pub fn mask_key(key: &str) -> (res: Option<String>)
    ensures
        crate::dto::opt_string_view(res) == masked(key@),
{
    let chars = chars_of(key);
    let n = chars.len();
    if n == 0 {
        return None;
    }
    let head_end: usize = if n < 4 {
        n
    } else {
        4
    };
    let tail_start: usize = if n < 4 {
        0
    } else {
        n - 4
    };
    let mut out = String::new();
    push_chars(&mut out, &chars, 0, head_end);
    push_str(&mut out, "…");
    push_chars(&mut out, &chars, tail_start, n);
    push_str(&mut out, " (");
    push_decimal(&mut out, n as u64);
    push_str(&mut out, " Zeichen)");
    proof {
        assert(chars@.subrange(0, head_end as int) =~= key@.take(head_end as int));
        assert(chars@.subrange(tail_start as int, n as int) =~= key@.skip(tail_start as int));
        assert(out@ =~= masked(key@).unwrap());
    }
    Some(out)
}

/// Law: an empty key has no masked form; any other key shows its first
/// four and its last four characters (all of a shorter key, twice) around
/// an ellipsis, followed by its length in characters.
pub proof fn law_masked(key: Seq<char>)
    ensures
        key.len() == 0 ==> masked(key) is None,
        key.len() >= 4 ==> masked(key) == Some(
            key.subrange(0, 4) + "…"@ + key.subrange(key.len() - 4, key.len() as int) + " ("@
                + decimal(key.len()) + " Zeichen)"@,
        ),
        0 < key.len() < 4 ==> masked(key) == Some(
            key + "…"@ + key + " ("@ + decimal(key.len()) + " Zeichen)"@,
        ),
{
    if key.len() >= 4 {
        assert(key.take(4) =~= key.subrange(0, 4));
        assert(key.skip(key.len() - 4) =~= key.subrange(key.len() - 4, key.len() as int));
    } else if key.len() > 0 {
        assert(key.take(key.len() as int) =~= key);
        assert(key.skip(0) =~= key);
    }
}

/// Where the effective OpenRouter key comes from: the environment (which
/// takes precedence), the saved configuration, or nowhere.
pub open spec fn key_source(key: Seq<char>, env_key: Option<Seq<char>>) -> Option<Seq<char>> {
    if is_blank(key) {
        None
    } else if env_key matches Some(e) && !is_blank(e) {
        Some("env"@)
    } else {
        Some("config"@)
    }
}

/// The OpenRouter key of a configuration; empty where it has none.
pub open spec fn config_key(config: Map<Seq<char>, Seq<char>>) -> Seq<char> {
    if config.contains_key("OPENROUTER_API_KEY"@) {
        config["OPENROUTER_API_KEY"@]
    } else {
        Seq::empty()
    }
}

/// What the settings page shows: whether an OpenRouter key is set, the key
/// masked, where it comes from (`env_key` is the key the environment holds,
/// if any), the configuration file and the data locations.
pub fn settings_info(config: &Config, env_key: Option<&str>, paths: &Paths) -> (res: SettingsInfo)
    ensures
        res.has_open_router_key == !is_blank(config_key(config@)),
        crate::dto::opt_string_view(res.open_router_key_masked) == masked(config_key(config@)),
        crate::dto::opt_string_view(res.open_router_key_source) == key_source(
            config_key(config@),
            crate::dto::opt_view(env_key),
        ),
        joined_path(paths.app_data_dir@, "config.json"@, res.config_path@),
        res.image_dir@ == paths.image_dir@,
        res.database_url@ == paths.db_path@,
{
    proof {
        reveal_strlit("");
        reveal_strlit("config.json");
    }
    let key = match config.get("OPENROUTER_API_KEY") {
        Some(k) => k,
        None => "",
    };
    let has_key = !blank(key);
    let source = if !has_key {
        None
    } else {
        match env_key {
            Some(e) => {
                if !blank(e) {
                    Some(owned("env"))
                } else {
                    Some(owned("config"))
                }
            },
            None => Some(owned("config")),
        }
    };
    SettingsInfo {
        has_open_router_key: has_key,
        open_router_key_masked: mask_key(key),
        open_router_key_source: source,
        config_path: path_join(paths.app_data_dir.as_str(), "config.json"),
        image_dir: paths.image_dir.clone(),
        database_url: paths.db_path.clone(),
    }
}

// ---------------------------------------------------------------------------
// Legacy data taken over on first start
// ---------------------------------------------------------------------------

/// The directories where legacy data may lie, in the order they are
/// tried: the configured `LEGACY_DATA_DIR`, then the working directory and
/// its parent.
pub open spec fn legacy_dirs(config: Map<Seq<char>, Seq<char>>) -> Seq<Seq<char>> {
    if config.contains_key("LEGACY_DATA_DIR"@) {
        seq![config["LEGACY_DATA_DIR"@], "."@, ".."@]
    } else {
        seq!["."@, ".."@]
    }
}

/// The candidate directories of legacy data (see [`legacy_dirs`]).
pub fn legacy_candidates(config: &Config) -> (res: Vec<String>)
    ensures
        crate::json::strs(res@) == legacy_dirs(config@),
{
    let mut out: Vec<String> = Vec::new();
    match config.get("LEGACY_DATA_DIR") {
        Some(dir) => out.push(owned(dir)),
        None => {},
    }
    out.push(owned("."));
    out.push(owned(".."));
    proof {
        assert(crate::json::strs(out@) =~= legacy_dirs(config@));
    }
    out
}

/// The legacy files under one candidate directory: the database
/// (`prisma/data/dev.db`) and its image directory (`data/images`).
pub fn legacy_sources(base: &str) -> (res: (String, String))
    ensures
        exists|a: Seq<char>, b: Seq<char>|
            joined_path(base@, "prisma"@, a) && joined_path(a, "data"@, b) && joined_path(
                b,
                "dev.db"@,
                res.0@,
            ),
        exists|a: Seq<char>| joined_path(base@, "data"@, a) && joined_path(a, "images"@, res.1@),
{
    proof {
        reveal_strlit("prisma");
        reveal_strlit("data");
        reveal_strlit("dev.db");
        reveal_strlit("images");
    }
    let prisma = path_join(base, "prisma");
    let prisma_data = path_join(prisma.as_str(), "data");
    let db = path_join(prisma_data.as_str(), "dev.db");
    let data = path_join(base, "data");
    let images = path_join(data.as_str(), "images");
    (db, images)
}

} // verus!
