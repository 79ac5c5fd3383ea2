use vstd::prelude::*;

use crate::error::{AppError, msg_of};
use crate::text::{
    chars_of, contains_text, ends_with, is_ascii, is_ascii_upper, find_first, lowercase, occurs_at, owned, push_str,
    string_of, strip_prefix, to_lowercase, trim, trimmed,
};

verus! {

/// Images stored as files in one directory; the database keeps their file names.
pub struct LocalStorage {
    base_dir: String,
}

/// A file just stored: its path relative to the image directory, and its MIME type.
#[derive(Debug)]
pub struct SavedFile {
    pub path: String,
    pub mime: String,
}

impl LocalStorage {
    pub fn new(base_dir: &str) -> (res: LocalStorage)
        ensures
            res.dir() == base_dir@,
    {
        LocalStorage { base_dir: owned(base_dir) }
    }

    pub closed spec fn dir(&self) -> Seq<char> {
        self.base_dir@
    }

    /// The image directory.
    pub fn base_dir(&self) -> (res: &str)
        ensures
            res@ == self.dir(),
    {
        self.base_dir.as_str()
    }
}

// ---------------------------------------------------------------------------
// MIME types and file extensions
// ---------------------------------------------------------------------------

/// The file extension for an image MIME type (PNG for anything unknown).
pub open spec fn ext_for(mime: Seq<char>) -> Seq<char> {
    if mime == "image/jpeg"@ {
        "jpg"@
    } else if mime == "image/webp"@ {
        "webp"@
    } else {
        "png"@
    }
}

/// The MIME type for a file name whose lower-cased form is `lower`.
pub open spec fn mime_for(lower: Seq<char>) -> Seq<char> {
    if ".jpg"@.is_suffix_of(lower) || ".jpeg"@.is_suffix_of(lower) {
        "image/jpeg"@
    } else if ".webp"@.is_suffix_of(lower) {
        "image/webp"@
    } else {
        "image/png"@
    }
}

/// `c` is the small letter (or other character) `small`, or the ASCII
/// capital of it.
pub open spec fn same_letter(c: char, small: char) -> bool {
    c == small || (is_ascii_upper(c) && (c as int) + 32 == small as int)
}

/// `s` ends in `suffix`, ignoring the case of ASCII letters.
pub open spec fn ends_with_ci(s: Seq<char>, suffix: Seq<char>) -> bool {
    suffix.len() <= s.len() && forall|j: int|
        0 <= j < suffix.len() ==> same_letter(#[trigger] s[s.len() - suffix.len() + j], suffix[j])
}

/// The MIME type for an ASCII file name, by its extension in any case.
pub open spec fn mime_for_name(path: Seq<char>) -> Seq<char> {
    if ends_with_ci(path, ".jpg"@) || ends_with_ci(path, ".jpeg"@) {
        "image/jpeg"@
    } else if ends_with_ci(path, ".webp"@) {
        "image/webp"@
    } else {
        "image/png"@
    }
}

/// A suffix without capitals ends the lower-cased form of an ASCII name
/// exactly when it ends the name, ignoring case.
proof fn lemma_ci_suffix(path: Seq<char>, lower: Seq<char>, suffix: Seq<char>)
    requires
        lower.len() == path.len(),
        forall|i: int| 0 <= i < path.len() && !is_ascii_upper(path[i]) ==> #[trigger] lower[i] == path[i],
        forall|i: int|
            0 <= i < path.len() && is_ascii_upper(path[i]) ==> (#[trigger] lower[i] as int) == (
            path[i] as int) + 32,
        forall|j: int| 0 <= j < suffix.len() ==> !is_ascii_upper(#[trigger] suffix[j]),
    ensures
        suffix.is_suffix_of(lower) <==> ends_with_ci(path, suffix),
{
    let n = path.len() as int;
    let k = suffix.len() as int;
    if k <= n {
        assert forall|j: int| 0 <= j < k implies (#[trigger] lower[n - k + j] == suffix[j]
            <==> same_letter(path[n - k + j], suffix[j])) by {
            let c = path[n - k + j];
            if is_ascii_upper(c) {
                assert((lower[n - k + j] as int) == (c as int) + 32);
                if lower[n - k + j] == suffix[j] {
                    assert((suffix[j] as int) == (c as int) + 32);
                }
                if (c as int) + 32 == suffix[j] as int {
                    assert((lower[n - k + j] as u32) == (suffix[j] as u32));
                }
            }
        }
        if suffix.is_suffix_of(lower) {
            assert forall|j: int| 0 <= j < k implies same_letter(
                #[trigger] path[n - k + j],
                suffix[j],
            ) by {
                assert(lower.subrange(n - k, n)[j] == lower[n - k + j]);
            }
        }
        if ends_with_ci(path, suffix) {
            assert(lower.subrange(n - k, n) =~= suffix) by {
                assert forall|j: int| 0 <= j < k implies lower.subrange(n - k, n)[j] == suffix[j] by {
                    assert(same_letter(path[n - k + j], suffix[j]));
                    assert(lower[n - k + j] == suffix[j]);
                }
            }
        }
    }
}

/// The MIME types that have an extension of their own.
pub open spec fn known_mime(mime: Seq<char>) -> bool {
    mime == "image/png"@ || mime == "image/jpeg"@ || mime == "image/webp"@
}

/// `path` is the name of a file stored for `mime`: an ASCII name that ends
/// in `.` and the extension for the type.
pub open spec fn stored_for(path: Seq<char>, mime: Seq<char>) -> bool {
    is_ascii(path) && (seq!['.'] + ext_for(mime)).is_suffix_of(path)
}

/// The file extension for an image MIME type.
pub fn ext_for_mime(mime: &str) -> (res: &'static str)
    ensures
        res@ == ext_for(mime@),
{
    if crate::text::text_eq(mime, "image/jpeg") {
        "jpg"
    } else if crate::text::text_eq(mime, "image/webp") {
        "webp"
    } else {
        "png"
    }
}

/// The MIME type of an image file, by its extension (case-insensitive).
pub fn mime_for_ext(path: &str) -> (res: String)
    ensures
        res@ == mime_for(lowercase(path@)),
        is_ascii(path@) ==> res@ == mime_for_name(path@),
        forall|m: Seq<char>| known_mime(m) && #[trigger] stored_for(path@, m) ==> res@ == m,
{
    let lower = to_lowercase(path);
    proof {
        if is_ascii(path@) {
            reveal_strlit(".jpg");
            reveal_strlit(".jpeg");
            reveal_strlit(".webp");
            assert(".jpg"@ =~= seq!['.', 'j', 'p', 'g']);
            assert(".jpeg"@ =~= seq!['.', 'j', 'p', 'e', 'g']);
            assert(".webp"@ =~= seq!['.', 'w', 'e', 'b', 'p']);
            lemma_ci_suffix(path@, lower@, ".jpg"@);
            lemma_ci_suffix(path@, lower@, ".jpeg"@);
            lemma_ci_suffix(path@, lower@, ".webp"@);
        }
        assert forall|m: Seq<char>| known_mime(m) && #[trigger] stored_for(path@, m) implies mime_for(
            lower@,
        ) == m by {
            lemma_stored_suffix(path@, lower@, m);
        }
    }
    if ends_with(lower.as_str(), ".jpg") || ends_with(lower.as_str(), ".jpeg") {
        owned("image/jpeg")
    } else if ends_with(lower.as_str(), ".webp") {
        owned("image/webp")
    } else {
        owned("image/png")
    }
}

// ---------------------------------------------------------------------------
// Data URLs
// ---------------------------------------------------------------------------

/// The first position of `needle` in `s` (meaningful when it occurs).
pub open spec fn first_index(s: Seq<char>, needle: Seq<char>) -> int {
    choose|i: int| occurs_at(s, needle, i) && forall|j: int| 0 <= j < i ==> !occurs_at(s, needle, j)
}

/// The MIME type and the base64 part of `data:<mime>;base64,<data>`, split at
/// the first `;base64,`; `None` when the text has not that form or the MIME
/// type is empty.
pub open spec fn data_url_parts(url: Seq<char>) -> Option<(Seq<char>, Seq<char>)> {
    if !"data:"@.is_prefix_of(url) {
        None
    } else {
        let rest = url.subrange(5, url.len() as int);
        if !contains_text(rest, ";base64,"@) {
            None
        } else {
            let i = first_index(rest, ";base64,"@);
            if i == 0 {
                None
            } else {
                Some((rest.subrange(0, i), rest.subrange(i + 8, rest.len() as int)))
            }
        }
    }
}

pub open spec fn invalid_data_url_message() -> Seq<char> {
    "Ungültige Data-URL."@
}

/// Splits a data URL into its MIME type and its base64 data.
pub fn parse_data_url(data_url: &str) -> (res: Result<(String, String), AppError>)
    ensures
        match data_url_parts(data_url@) {
            Some(parts) => res matches Ok(p) && p.0@ == parts.0 && p.1@ == parts.1,
            None => res matches Err(e) && msg_of(e) == Some(invalid_data_url_message()),
        },
{
    proof {
        reveal_strlit("data:");
        reveal_strlit(";base64,");
    }
    let rest = match strip_prefix(data_url, "data:") {
        Some(r) => r,
        None => {
            return Err(AppError::msg_str("Ungültige Data-URL."));
        },
    };
    let cs = chars_of(rest.as_str());
    let sep = chars_of(";base64,");
    let i = match find_first(&cs, &sep) {
        Some(i) => i,
        None => {
            return Err(AppError::msg_str("Ungültige Data-URL."));
        },
    };
    proof {
        let s = rest@;
        let n = ";base64,"@;
        assert(contains_text(s, n));
        let j = first_index(s, n);
        assert(occurs_at(s, n, j) && forall|k: int| 0 <= k < j ==> !occurs_at(s, n, k));
        if j < i {
            assert(!occurs_at(s, n, j));
        }
        if i < j {
            assert(!occurs_at(s, n, i as int));
        }
        assert(j == i);
    }
    if i == 0 {
        return Err(AppError::msg_str("Ungültige Data-URL."));
    }
    assert(sep@.len() == 8);
    assert(occurs_at(cs@, sep@, i as int));
    assert(i + 8 <= cs@.len());
    let mime = string_of(&cs, 0, i);
    let n = cs.len();
    assert(i + 8 <= n);
    let b64 = string_of(&cs, i + 8, n);
    Ok((mime, b64))
}

// ---------------------------------------------------------------------------
// Base64 (standard alphabet, padded)
// ---------------------------------------------------------------------------

/// A digit of the standard base64 alphabet.
pub open spec fn b64_digit(n: int) -> char
    recommends
        0 <= n < 64,
{
    if n < 26 {
        (65 + n) as char
    } else if n < 52 {
        (71 + n) as char
    } else if n < 62 {
        (n - 4) as char
    } else if n == 62 {
        '+'
    } else {
        '/'
    }
}

/// Standard padded base64 of a byte sequence: each three bytes become four
/// digits; a final one or two bytes become two or three digits and `=` padding.
pub open spec fn base64_text(b: Seq<u8>) -> Seq<char>
    decreases b.len(),
{
    if b.len() == 0 {
        Seq::empty()
    } else if b.len() == 1 {
        let x = b[0] as int;
        seq![b64_digit(x / 4), b64_digit((x % 4) * 16), '=', '=']
    } else if b.len() == 2 {
        let x = b[0] as int;
        let y = b[1] as int;
        seq![b64_digit(x / 4), b64_digit((x % 4) * 16 + y / 16), b64_digit((y % 16) * 4), '=']
    } else {
        let x = b[0] as int;
        let y = b[1] as int;
        let z = b[2] as int;
        seq![
            b64_digit(x / 4),
            b64_digit((x % 4) * 16 + y / 16),
            b64_digit((y % 16) * 4 + z / 64),
            b64_digit(z % 64),
        ] + base64_text(b.subrange(3, b.len() as int))
    }
}

/// The message of base64's `DecodeError` for a text that is not valid base64.
pub uninterp spec fn base64_error_text(text: Seq<char>) -> Seq<char>;

/// Calls base64's `STANDARD.encode`: standard alphabet, with padding.
#[verifier::external_body]
pub(crate) fn base64_encode(data: &[u8]) -> (res: String)
    ensures
        res@ == base64_text(data@),
{
    base64::Engine::encode(&base64::engine::general_purpose::STANDARD, data)
}

/// Calls base64's `STANDARD.decode`. That engine requires canonical padding
/// and rejects stray trailing bits, so it accepts a text exactly when the
/// text is the encoding of some bytes, and then returns those bytes. The
/// error's message is named [`base64_error_text`].
#[verifier::external_body]
fn base64_decode(text: &str) -> (res: Result<Vec<u8>, String>)
    ensures
        match res {
            Ok(bytes) => base64_text(bytes@) == text@,
            Err(m) => m@ == base64_error_text(text@) && forall|b: Seq<u8>|
                base64_text(b) != text@,
        },
{
    match base64::Engine::decode(&base64::engine::general_purpose::STANDARD, text) {
        Ok(bytes) => Ok(bytes),
        Err(e) => Err(e.to_string()),
    }
}

/// A character of uuid's hyphenated lower-case form.
pub open spec fn is_uuid_char(c: char) -> bool {
    c == '-' || (48 <= (c as u32) && (c as u32) <= 57) || (97 <= (c as u32) && (c as u32) <= 102)
}

/// Calls uuid's `Uuid::new_v4` and writes it with `to_string`, which uses the
/// hyphenated lower-case hex form: 36 characters, each a hex digit or a
/// hyphen. Which UUID comes out is left open.
#[verifier::external_body]
fn random_uuid() -> (res: String)
    ensures
        res@.len() == 36,
        forall|i: int| 0 <= i < 36 ==> is_uuid_char(#[trigger] res@[i]),
{
    uuid::Uuid::new_v4().to_string()
}

pub open spec fn invalid_base64_message(text: Seq<char>) -> Seq<char> {
    "Ungültige Base64-Daten: "@ + base64_error_text(text)
}

/// Prepares storing base64 data (without `data:` prefix) as an image file:
/// the decoded bytes and the file to write them to, named by a fresh UUID
/// (36 hex digits and hyphens) and the extension for `mime`. Fails when the trimmed text is not base64.
pub fn prepare_image_file(b64: &str, mime: &str) -> (res: Result<(SavedFile, Vec<u8>), AppError>)
    ensures
        match res {
            Ok((file, bytes)) => base64_text(bytes@) == trimmed(b64@) && file.mime@ == mime@
                && stored_for(file.path@, mime@) && (forall|i: int|
                0 <= i < 36 ==> is_uuid_char(#[trigger] file.path@[i]))
                && file.path@.len() == 36 + 1 + ext_for(mime@).len() && file.path@.subrange(
                36,
                file.path@.len() as int,
            ) == seq!['.'] + ext_for(mime@),
            Err(e) => msg_of(e) == Some(invalid_base64_message(trimmed(b64@))) && forall|
                b: Seq<u8>,
            | base64_text(b) != trimmed(b64@),
        },
{
    let text = trim(b64);
    let bytes = match base64_decode(text.as_str()) {
        Ok(b) => b,
        Err(m) => {
            let mut msg = owned("Ungültige Base64-Daten: ");
            push_str(&mut msg, m.as_str());
            return Err(AppError::msg(msg));
        },
    };
    let mut name = random_uuid();
    let ghost id = name@;
    push_str(&mut name, ".");
    push_str(&mut name, ext_for_mime(mime));
    proof {
        assert(name@.subrange(36, name@.len() as int) =~= seq!['.'] + ext_for(mime@)) by {
            reveal_strlit(".");
        }
        reveal_strlit(".");
        reveal_strlit("png");
        reveal_strlit("jpg");
        reveal_strlit("webp");
        assert(is_ascii(name@)) by {
            assert forall|i: int| 0 <= i < name@.len() implies (#[trigger] name@[i] as u32) < 128 by {
                if i < 36 {
                    assert(name@[i] == id[i]);
                    assert(is_uuid_char(id[i]));
                } else {
                    assert(name@[i] == name@.subrange(36, name@.len() as int)[i - 36]);
                }
            }
        }
        assert((seq!['.'] + ext_for(mime@)).is_suffix_of(name@)) by {
            assert(name@.subrange(name@.len() - (seq!['.'] + ext_for(mime@)).len(), name@.len() as int)
                =~= seq!['.'] + ext_for(mime@));
        }
    }
    Ok((SavedFile { path: name, mime: owned(mime) }, bytes))
}

/// The contents of an image file as base64, with the MIME type its name
/// gives. A file stored for a PNG, JPEG or WebP image reads back under the
/// type it was stored with.
pub fn encode_image_file(bytes: &[u8], rel_path: &str) -> (res: (String, String))
    ensures
        res.0@ == base64_text(bytes@),
        res.1@ == mime_for(lowercase(rel_path@)),
        is_ascii(rel_path@) ==> res.1@ == mime_for_name(rel_path@),
        forall|m: Seq<char>| known_mime(m) && #[trigger] stored_for(rel_path@, m) ==> res.1@ == m,
{
    (base64_encode(bytes), mime_for_ext(rel_path))
}

/// The suffix `.` + extension of a stored file name survives lower-casing,
/// and the type read from the lower-cased name is the stored type.
proof fn lemma_stored_suffix(path: Seq<char>, lower: Seq<char>, m: Seq<char>)
    requires
        known_mime(m),
        stored_for(path, m),
        lower.len() == path.len(),
        forall|i: int| 0 <= i < path.len() && !is_ascii_upper(path[i]) ==> #[trigger] lower[i] == path[i],
    ensures
        mime_for(lower) == m,
{
    reveal_strlit("png");
    reveal_strlit("jpg");
    reveal_strlit("webp");
    reveal_strlit(".png");
    reveal_strlit(".jpg");
    reveal_strlit(".jpeg");
    reveal_strlit(".webp");
    reveal_strlit("image/png");
    reveal_strlit("image/jpeg");
    reveal_strlit("image/webp");
    assert("image/png"@.len() == 9 && "image/jpeg"@.len() == 10 && "image/webp"@.len() == 10);
    assert("image/jpeg"@[6] == 'j' && "image/webp"@[6] == 'w');
    assert(".png"@.len() == 4 && ".jpg"@.len() == 4 && ".jpeg"@.len() == 5 && ".webp"@.len() == 5);
    assert("png"@.len() == 3 && "jpg"@.len() == 3 && "webp"@.len() == 4);
    let suffix = seq!['.'] + ext_for(m);
    let n = path.len();
    let k = suffix.len();
    assert(path.subrange(n - k, n as int) == suffix);
    assert forall|j: int| 0 <= j < k implies #[trigger] lower[n - k + j] == suffix[j] by {
        assert(path[n - k + j] == suffix[j]);
        assert(!is_ascii_upper(suffix[j]));
    }
    assert(lower.subrange(n - k, n as int) =~= suffix);
    let tail = lower.subrange(n - k, n as int);
    if m == "image/png"@ {
        assert(m != "image/jpeg"@);
        assert(m != "image/webp"@);
        assert(suffix =~= ".png"@);
        assert(".png"@[1] == 'p' && ".jpg"@[1] == 'j' && ".png"@[3] == 'g' && ".webp"@[4] == 'p');
        assert(".jpeg"@[4] == 'g' && ".jpeg"@[3] == 'e' && ".png"@[2] == 'n');
        assert(!".jpg"@.is_suffix_of(lower)) by {
            assert(tail[1] != ".jpg"@[1]);
        }
        assert(!".jpeg"@.is_suffix_of(lower)) by {
            assert(lower[n - 2] == tail[2]);
            if n >= 5 {
                assert(lower.subrange(n - 5, n as int)[3] == lower[n - 2]);
            }
        }
        assert(!".webp"@.is_suffix_of(lower)) by {
            assert(lower[n - 1] == tail[3]);
            if n >= 5 {
                assert(lower.subrange(n - 5, n as int)[4] == lower[n - 1]);
            }
        }
    } else if m == "image/jpeg"@ {
        assert(suffix =~= ".jpg"@);
    } else {
        assert(suffix =~= ".webp"@);
        assert(".webp"@[4] == 'p' && ".jpg"@[3] == 'g' && ".jpeg"@[4] == 'g');
        assert(!".jpg"@.is_suffix_of(lower)) by {
            assert(lower[n - 1] == tail[4]);
            assert(lower.subrange(n - 4, n as int)[3] == lower[n - 1]);
        }
        assert(!".jpeg"@.is_suffix_of(lower)) by {
            assert(lower[n - 1] == tail[4]);
            assert(lower.subrange(n - 5, n as int)[4] == lower[n - 1]);
        }
    }
}

/// The first position of `needle` is `m` when it stands there and nowhere before.
proof fn lemma_first_index_is(s: Seq<char>, needle: Seq<char>, m: int)
    requires
        occurs_at(s, needle, m),
        forall|j: int| 0 <= j < m ==> !occurs_at(s, needle, j),
    ensures
        first_index(s, needle) == m,
{
    let i = first_index(s, needle);
    assert(occurs_at(s, needle, i) && forall|j: int| 0 <= j < i ==> !occurs_at(s, needle, j));
    if i < m {
        assert(!occurs_at(s, needle, i));
    }
    if i > m {
        assert(!occurs_at(s, needle, m));
    }
}

/// `;base64,` does not stand in `mime + ";base64," + data` before the
/// separator when `mime` does not hold it: the separator has no border.
proof fn lemma_no_earlier_separator(mime: Seq<char>, data: Seq<char>, j: int)
    requires
        !contains_text(mime, ";base64,"@),
        0 <= j < mime.len(),
    ensures
        !occurs_at(mime + ";base64,"@ + data, ";base64,"@, j),
{
    reveal_strlit(";base64,");
    let sep = ";base64,"@;
    assert(sep =~= seq![';', 'b', 'a', 's', 'e', '6', '4', ',']);
    let rest = mime + sep + data;
    let m = mime.len() as int;
    if occurs_at(rest, sep, j) {
        if j + 8 <= m {
            assert(mime.subrange(j, j + 8) =~= rest.subrange(j, j + 8));
            assert(occurs_at(mime, sep, j));
        } else {
            let k = m - j;
            assert(rest.subrange(j, j + 8)[k] == rest[m]);
            assert(rest[m] == ';');
            assert(sep[k] != ';');
        }
    }
}

/// Law: a data URL made of a MIME type and base64 data (as the image
/// commands write them) splits back into the same two parts, provided the
/// MIME type is not empty and does not itself hold `;base64,`.
pub proof fn law_data_url_round_trip(mime: Seq<char>, data: Seq<char>)
    requires
        mime.len() > 0,
        !contains_text(mime, ";base64,"@),
    ensures
        data_url_parts("data:"@ + mime + ";base64,"@ + data) == Some((mime, data)),
{
    reveal_strlit("data:");
    reveal_strlit(";base64,");
    let sep = ";base64,"@;
    assert(sep.len() == 8);
    let url = "data:"@ + mime + sep + data;
    assert("data:"@.len() == 5);
    assert("data:"@.is_prefix_of(url)) by {
        assert(url.subrange(0, 5) =~= "data:"@);
    }
    let rest = url.subrange(5, url.len() as int);
    assert(rest =~= mime + sep + data);
    let m = mime.len() as int;
    assert(occurs_at(rest, sep, m)) by {
        assert(rest.subrange(m, m + 8) =~= sep);
    }
    assert(contains_text(rest, sep));
    assert forall|j: int| 0 <= j < m implies !occurs_at(rest, sep, j) by {
        lemma_no_earlier_separator(mime, data, j);
    }
    lemma_first_index_is(rest, sep, m);
    assert(rest.subrange(0, m) =~= mime);
    assert(rest.subrange(m + 8, rest.len() as int) =~= data);
}

} // verus!
