use vstd::prelude::*;

use crate::dto::opt_view;
use crate::json::{
    Json, JsonV, EntryV, key_index, keys_of, lemma_key_index, lemma_lookup_after_insert,
    lemma_view_entries, lemma_view_items, lookup, map_insert, member, member_str, object_insert,
    json_string, str_of, unique_keys, view_entries, view_items,
};
use crate::json_text::pretty;
use crate::text::{
    blank, char_to_uppercase, chars_of, is_ascii_lower, is_blank, is_ws, opt_text_eq, owned, push_char, push_str,
    trim_end, trim_end_of, uppercase_char,
};

verus! {

pub const STYLE_REFERENCE_INSTRUCTION: &'static str = "Use the photographic style, lighting, color grading, and overall look from the provided reference image(s). Keep the visual style perfectly consistent; only change the subject as described below.";

pub const INFOGRAPHIC_TEXT_INSTRUCTION: &'static str = "Render all text, labels, numbers and typographic elements crisply and legibly with correct spelling. Maintain a clear visual hierarchy and a clean, aligned layout.";

/// The compiled prompt: the object sent to the image model and its pretty text.
pub struct CompileOutput {
    pub prompt_object: Json,
    pub prompt_text: String,
}

/// Inserts every entry of `entries`, in order, into `base` (`Map::insert`).
pub open spec fn insert_all(base: Seq<EntryV>, entries: Seq<EntryV>) -> Seq<EntryV>
    decreases entries.len(),
{
    if entries.len() == 0 {
        base
    } else {
        map_insert(insert_all(base, entries.drop_last()), entries.last().0, entries.last().1)
    }
}

/// The entries of the compiled prompt object: the style-reference
/// instruction when there are reference images, the text-rendering
/// instruction for infographics, then the style's own entries, and the
/// subject last of all inserted (a key inserted again keeps its place).
pub open spec fn compiled_entries(
    style: JsonV,
    subject: Seq<char>,
    has_references: bool,
    infographic: bool,
) -> Seq<EntryV> {
    let e0: Seq<EntryV> = if has_references {
        map_insert(Seq::empty(), "style_reference"@, JsonV::String(STYLE_REFERENCE_INSTRUCTION@))
    } else {
        Seq::empty()
    };
    let e1 = if infographic {
        map_insert(e0, "text_rendering"@, JsonV::String(INFOGRAPHIC_TEXT_INSTRUCTION@))
    } else {
        e0
    };
    let e2 = match style {
        JsonV::Object(entries) => insert_all(e1, entries),
        _ => e1,
    };
    map_insert(e2, "subject"@, JsonV::String(subject))
}

/// Compiles a style and a subject into the prompt object and its pretty JSON text.
pub fn compile_prompt(style_json: &Json, subject: &str, has_references: bool, kind: Option<&str>) -> (res:
    CompileOutput)
    ensures
        res.prompt_object@ == JsonV::Object(
            compiled_entries(
                style_json@,
                subject@,
                has_references,
                opt_view(kind) == Some("infografik"@),
            ),
        ),
        res.prompt_text@ == pretty(res.prompt_object@, Seq::empty()),
{
    let mut obj: Vec<(String, Json)> = Vec::new();
    proof {
        lemma_view_entries(obj@);
    }
    if has_references {
        object_insert(
            &mut obj,
            owned("style_reference"),
            json_string(STYLE_REFERENCE_INSTRUCTION),
        );
    }
    let ghost e0 = view_entries(obj@);
    let infographic = opt_text_eq(kind, "infografik");
    if infographic {
        object_insert(&mut obj, owned("text_rendering"), json_string(INFOGRAPHIC_TEXT_INSTRUCTION));
    }
    let ghost e1 = view_entries(obj@);
    match style_json {
        Json::Object(style) => {
            proof {
                lemma_view_entries(style@);
            }
            let ghost vs = view_entries(style@);
            let mut i: usize = 0;
            while i < style.len()
                invariant
                    i <= style@.len(),
                    vs == view_entries(style@),
                    vs.len() == style@.len(),
                    forall|k: int|
                        0 <= k < style@.len() ==> #[trigger] vs[k] == (style@[k].0@, style@[k].1@),
                    view_entries(obj@) == insert_all(e1, vs.take(i as int)),
                decreases style@.len() - i,
            {
                proof {
                    assert(vs.take(i + 1).drop_last() =~= vs.take(i as int));
                }
                object_insert(&mut obj, style[i].0.clone(), style[i].1.deep_clone());
                i = i + 1;
            }
            proof {
                assert(vs.take(style@.len() as int) =~= vs);
            }
        },
        _ => {},
    }
    object_insert(&mut obj, owned("subject"), json_string(subject));
    let prompt_object = Json::Object(obj);
    let prompt_text = prompt_object.to_pretty_string();
    CompileOutput { prompt_object, prompt_text }
}

// ---------------------------------------------------------------------------
// What a compiled prompt holds
// ---------------------------------------------------------------------------

proof fn lemma_insert_keeps_positions(entries: Seq<EntryV>, k: Seq<char>, v: JsonV)
    ensures
        map_insert(entries, k, v).len() >= entries.len(),
        forall|i: int|
            0 <= i < entries.len() ==> (#[trigger] map_insert(entries, k, v)[i]).0 == entries[i].0,
{
    lemma_key_index(entries, k);
}

proof fn lemma_insert_all_keeps_positions(base: Seq<EntryV>, entries: Seq<EntryV>)
    ensures
        insert_all(base, entries).len() >= base.len(),
        forall|i: int|
            0 <= i < base.len() ==> (#[trigger] insert_all(base, entries)[i]).0 == base[i].0,
    decreases entries.len(),
{
    if entries.len() > 0 {
        lemma_insert_all_keeps_positions(base, entries.drop_last());
        lemma_insert_keeps_positions(
            insert_all(base, entries.drop_last()),
            entries.last().0,
            entries.last().1,
        );
    }
}

/// The keys after inserting all entries are the base's keys and the entries' keys.
proof fn lemma_insert_all_keys(base: Seq<EntryV>, entries: Seq<EntryV>)
    ensures
        keys_of(insert_all(base, entries)).to_set() == keys_of(base).to_set().union(
            keys_of(entries).to_set(),
        ),
        unique_keys(base) ==> unique_keys(insert_all(base, entries)),
    decreases entries.len(),
{
    if entries.len() == 0 {
        assert(keys_of(entries).to_set() =~= Set::empty());
        assert(keys_of(base).to_set().union(Set::empty()) =~= keys_of(base).to_set());
    } else {
        let prev = insert_all(base, entries.drop_last());
        lemma_insert_all_keys(base, entries.drop_last());
        lemma_lookup_after_insert(prev, entries.last().0, entries.last().1, entries.last().0);
        assert(keys_of(entries) =~= keys_of(entries.drop_last()).push(entries.last().0));
        assert(keys_of(entries).to_set() =~= keys_of(entries.drop_last()).to_set().insert(
            entries.last().0,
        )) by {
            assert forall|x: Seq<char>| keys_of(entries).to_set().contains(x) implies keys_of(
                entries.drop_last(),
            ).to_set().insert(entries.last().0).contains(x) by {
                let m = choose|m: int| 0 <= m < keys_of(entries).len() && keys_of(entries)[m] == x;
                if m < entries.len() - 1 {
                    assert(keys_of(entries.drop_last())[m] == x);
                }
            }
            assert forall|x: Seq<char>| keys_of(entries.drop_last()).to_set().insert(
                entries.last().0,
            ).contains(x) implies keys_of(entries).to_set().contains(x) by {
                if x != entries.last().0 {
                    let m = choose|m: int|
                        0 <= m < keys_of(entries.drop_last()).len() && keys_of(
                            entries.drop_last(),
                        )[m] == x;
                    assert(keys_of(entries)[m] == x);
                } else {
                    assert(keys_of(entries)[entries.len() - 1] == x);
                }
            }
        }
        assert(keys_of(insert_all(base, entries)).to_set() =~= keys_of(base).to_set().union(
            keys_of(entries).to_set(),
        ));
    }
}

/// With unique keys, inserting all entries leaves each entry's value under its key.
proof fn lemma_insert_all_lookup(base: Seq<EntryV>, entries: Seq<EntryV>, k: Seq<char>)
    requires
        unique_keys(entries),
    ensures
        lookup(entries, k) is Some ==> lookup(insert_all(base, entries), k) == lookup(entries, k),
        lookup(entries, k) is None ==> lookup(insert_all(base, entries), k) == lookup(base, k),
    decreases entries.len(),
{
    if entries.len() > 0 {
        let init = entries.drop_last();
        assert(unique_keys(init)) by {
            assert forall|i: int, j: int|
                0 <= i < init.len() && 0 <= j < init.len() && i != j implies init[i].0
                != init[j].0 by {
                assert(init[i] == entries[i] && init[j] == entries[j]);
            }
        }
        lemma_insert_all_lookup(base, init, k);
        let prev = insert_all(base, init);
        lemma_lookup_after_insert(prev, entries.last().0, entries.last().1, k);
        lemma_key_index(entries, k);
        lemma_key_index(init, k);
        if entries.last().0 == k {
            lemma_key_index_last(entries, k);
        } else {
            match key_index(entries, k) {
                Some(i) => {
                    assert(i < entries.len() - 1);
                    crate::json::lemma_key_index_is_first(init, k, i);
                },
                None => {
                    assert forall|j: int| 0 <= j < init.len() implies init[j].0 != k by {
                        assert(init[j] == entries[j]);
                    }
                    if key_index(init, k) is Some {
                        let m = key_index(init, k)->0;
                        assert(init[m].0 == k);
                    }
                },
            }
        }
    }
}

proof fn lemma_key_index_last(entries: Seq<EntryV>, k: Seq<char>)
    requires
        entries.len() > 0,
        entries.last().0 == k,
        unique_keys(entries),
    ensures
        lookup(entries, k) == Some(entries.last().1),
{
    let n = entries.len() - 1;
    assert forall|j: int| 0 <= j < n implies entries[j].0 != k by {
        assert(entries[j].0 != entries[n].0);
    }
    crate::json::lemma_key_index_is_first(entries, k, n);
}

/// What the compiled prompt holds: the subject under `subject`; the
/// style-reference key when there are references, and first among the keys;
/// the text-rendering key for infographics, and not otherwise unless the
/// style brings it; each of the style's own keys (other than `subject`) with
/// the style's value; no key twice; and, when the style has no `subject`
/// key, the subject as the last entry.
pub proof fn law_compiled_prompt(
    style: Seq<EntryV>,
    subject: Seq<char>,
    has_references: bool,
    infographic: bool,
    k: Seq<char>,
)
    requires
        unique_keys(style),
    ensures
        ({
            let c = compiled_entries(JsonV::Object(style), subject, has_references, infographic);
            &&& lookup(c, "subject"@) == Some(JsonV::String(subject))
            &&& unique_keys(c)
            &&& has_references ==> c.len() > 0 && c[0].0 == "style_reference"@
            &&& infographic ==> keys_of(c).contains("text_rendering"@)
            &&& (!infographic && !keys_of(style).contains("text_rendering"@)) ==> !keys_of(
                c,
            ).contains("text_rendering"@)
            &&& (k != "subject"@ && lookup(style, k) is Some) ==> lookup(c, k) == lookup(style, k)
            &&& !keys_of(style).contains("subject"@) ==> c.last() == ("subject"@, JsonV::String(
                subject,
            ))
        }),
{
    reveal_strlit("subject");
    reveal_strlit("style_reference");
    reveal_strlit("text_rendering");
    let sr = "style_reference"@;
    let tr = "text_rendering"@;
    let sub = "subject"@;
    let empty = Seq::<EntryV>::empty();
    let e0: Seq<EntryV> = if has_references {
        map_insert(empty, sr, JsonV::String(STYLE_REFERENCE_INSTRUCTION@))
    } else {
        empty
    };
    let e1 = if infographic {
        map_insert(e0, tr, JsonV::String(INFOGRAPHIC_TEXT_INSTRUCTION@))
    } else {
        e0
    };
    let e2 = insert_all(e1, style);
    let c = map_insert(e2, sub, JsonV::String(subject));
    // keys and uniqueness of each stage
    assert(unique_keys(empty));
    assert(keys_of(empty).to_set() =~= Set::empty());
    lemma_lookup_after_insert(empty, sr, JsonV::String(STYLE_REFERENCE_INSTRUCTION@), sr);
    lemma_lookup_after_insert(e0, tr, JsonV::String(INFOGRAPHIC_TEXT_INSTRUCTION@), k);
    lemma_insert_all_keys(e1, style);
    lemma_insert_all_lookup(e1, style, k);
    lemma_lookup_after_insert(e2, sub, JsonV::String(subject), k);
    lemma_lookup_after_insert(e1, sub, JsonV::String(subject), sub);
    // the set of keys before the subject is inserted
    assert(sr.len() == 15 && tr.len() == 14 && sub.len() == 7);
    assert(sr != tr && sr != sub && tr != sub);
    if has_references {
        assert(keys_of(e0).to_set() == set![sr]) by {
            assert(Set::<Seq<char>>::empty().insert(sr) =~= set![sr]);
        }
    } else {
        assert(keys_of(e0).to_set() =~= Set::<Seq<char>>::empty());
    }
    assert(!keys_of(e0).to_set().contains(tr));
    assert(!keys_of(e0).to_set().contains(sub));
    if infographic {
        assert(keys_of(e1).to_set() == keys_of(e0).to_set().insert(tr));
    }
    assert(keys_of(e1).to_set().contains(tr) <==> infographic);
    assert(!keys_of(e1).to_set().contains(sub));
    // style-reference first
    if has_references {
        assert(e0 =~= seq![(sr, JsonV::String(STYLE_REFERENCE_INSTRUCTION@))]);
        lemma_insert_keeps_positions(e0, tr, JsonV::String(INFOGRAPHIC_TEXT_INSTRUCTION@));
        lemma_insert_all_keeps_positions(e1, style);
        lemma_insert_keeps_positions(e2, sub, JsonV::String(subject));
    }
    // text-rendering
    lemma_lookup_after_insert(e2, sub, JsonV::String(subject), tr);
    if infographic {
        assert(keys_of(e2).to_set().contains(tr));
        assert(keys_of(c).to_set().contains(tr));
    }
    lemma_lookup_after_insert(e2, sub, JsonV::String(subject), sub);
    assert(keys_of(c).to_set() == keys_of(e2).to_set().insert(sub));
    if !infographic && !keys_of(style).contains(tr) {
        assert(!keys_of(style).to_set().contains(tr));
        assert(!keys_of(e2).to_set().contains(tr));
        assert(!keys_of(c).to_set().contains(tr));
        assert(!keys_of(c).contains(tr));
    }
    // subject last when the style has none
    if !keys_of(style).contains(sub) {
        assert(!keys_of(style).to_set().contains(sub));
        assert(!keys_of(e2).to_set().contains(sub));
        lemma_key_index(e2, sub);
        if key_index(e2, sub) is Some {
            let m = key_index(e2, sub)->0;
            assert(keys_of(e2)[m] == sub);
        }
    }
    // style keys other than the subject
    if k != sub && lookup(style, k) is Some {
        lemma_lookup_after_insert(e2, sub, JsonV::String(subject), k);
    }
}

// ---------------------------------------------------------------------------
// Plain-language rendering of a compiled prompt
// ---------------------------------------------------------------------------

/// A key as a label: underscores become spaces and the first character is
/// upper-cased.
pub open spec fn label(key: Seq<char>) -> Seq<char> {
    let l = key.map_values(|c: char| if c == '_' { ' ' } else { c });
    if l.len() == 0 {
        Seq::empty()
    } else {
        uppercase_char(l[0]) + l.drop_first()
    }
}

pub open spec fn bool_text(b: bool) -> Seq<char> {
    if b {
        "true"@
    } else {
        "false"@
    }
}

/// One requirement line (and those nested under it) for `key: value`,
/// indented by `ind`.
pub open spec fn requirement(key: Seq<char>, value: JsonV, ind: Seq<char>) -> Seq<char>
    decreases value, 1nat,
{
    ind + "- "@ + label(key) + match value {
        JsonV::String(s) => ": "@ + s + "\n"@,
        JsonV::Number(t) => ": "@ + t + "\n"@,
        JsonV::Bool(b) => ": "@ + bool_text(b) + "\n"@,
        JsonV::Array(items) => ":\n"@ + array_lines(items, ind),
        JsonV::Object(entries) => ":\n"@ + member_lines(entries, ind + "  "@),
        JsonV::Null => Seq::empty(),
    }
}

/// The lines for the elements of an array under a requirement indented by `ind`.
pub open spec fn array_lines(items: Seq<JsonV>, ind: Seq<char>) -> Seq<char>
    decreases items, 0nat,
{
    if items.len() == 0 {
        Seq::empty()
    } else {
        array_lines(items.drop_last(), ind) + array_line(items.last(), ind)
    }
}

/// The lines for one element of an array under a requirement indented by `ind`.
pub open spec fn array_line(item: JsonV, ind: Seq<char>) -> Seq<char>
    decreases item, 2nat,
{
    match item {
        JsonV::Object(entries) => ind + "  "@ + "-\n"@ + entry_lines(entries, ind + "    "@),
        JsonV::Array(_) => requirement("item"@, item, ind + "  "@),
        JsonV::Null => Seq::empty(),
        JsonV::String(s) => ind + "  "@ + "- "@ + s + "\n"@,
        JsonV::Number(t) => ind + "  "@ + "- "@ + t + "\n"@,
        JsonV::Bool(b) => ind + "  "@ + "- "@ + bool_text(b) + "\n"@,
    }
}

/// A requirement for every entry.
pub open spec fn entry_lines(entries: Seq<EntryV>, ind: Seq<char>) -> Seq<char>
    decreases entries, 0nat,
{
    if entries.len() == 0 {
        Seq::empty()
    } else {
        entry_lines(entries.drop_last(), ind) + requirement(
            entries.last().0,
            entries.last().1,
            ind,
        )
    }
}

/// A requirement for every entry whose value is not null.
pub open spec fn member_lines(entries: Seq<EntryV>, ind: Seq<char>) -> Seq<char>
    decreases entries, 0nat,
{
    if entries.len() == 0 {
        Seq::empty()
    } else {
        member_lines(entries.drop_last(), ind) + if entries.last().1 is Null {
            Seq::empty()
        } else {
            requirement(entries.last().0, entries.last().1, ind)
        }
    }
}

/// The entries that become style requirements: all but `subject` and the null ones.
pub open spec fn requirement_entries(entries: Seq<EntryV>) -> Seq<EntryV>
    decreases entries.len(),
{
    if entries.len() == 0 {
        Seq::empty()
    } else if entries.last().0 != "subject"@ && !(entries.last().1 is Null) {
        requirement_entries(entries.drop_last()).push(entries.last())
    } else {
        requirement_entries(entries.drop_last())
    }
}

/// The subject named in a prompt object, or a stand-in when it has none.
pub open spec fn prompt_subject(j: JsonV) -> Seq<char> {
    match str_of(member(j, "subject"@)) {
        Some(s) => s,
        None => "the requested subject"@,
    }
}

/// The plain-language text of a prompt object: a sentence naming the
/// subject, then each other non-null entry as a requirement, in the object's
/// order, with trailing whitespace removed. Not an object: empty text.
pub open spec fn rendered_prompt(j: JsonV) -> Seq<char> {
    match j {
        JsonV::Object(entries) => {
            let head = "Create an image of "@ + prompt_subject(j) + "."@;
            let reqs = requirement_entries(entries);
            if reqs.len() == 0 {
                head
            } else {
                trim_end(head + "\n\nStyle requirements:\n"@ + entry_lines(reqs, Seq::empty()))
            }
        },
        _ => Seq::empty(),
    }
}

/// What [`label`] is for a key that starts with an ASCII character: as long
/// as the key, the first character capitalised when it is a small letter
/// (an underscore becoming a space), the rest with underscores as spaces.
pub open spec fn ascii_label(key: Seq<char>, res: Seq<char>) -> bool {
    let l = key.map_values(|c: char| if c == '_' { ' ' } else { c });
    &&& res.len() == key.len()
    &&& (res[0] as int) == if is_ascii_lower(l[0]) {
        (l[0] as int) - 32
    } else {
        l[0] as int
    }
    &&& res.drop_first() == l.drop_first()
}

/// A key as a label: underscores become spaces and the first character is
/// upper-cased.
pub fn human_label(key: &str) -> (res: String)
    ensures
        res@ == label(key@),
        key@.len() > 0 && (key@[0] as u32) < 128 ==> ascii_label(key@, res@),
{
    let cs = chars_of(key);
    let ghost l = key@.map_values(|c: char| if c == '_' { ' ' } else { c });
    if cs.len() == 0 {
        return String::new();
    }
    let first = if cs[0] == '_' { ' ' } else { cs[0] };
    let mut out = char_to_uppercase(first);
    let mut i: usize = 1;
    while i < cs.len()
        invariant
            cs@ == key@,
            l == key@.map_values(|c: char| if c == '_' { ' ' } else { c }),
            1 <= i <= cs@.len(),
            l.len() == cs@.len(),
            out@ == uppercase_char(l[0]) + l.subrange(1, i as int),
        decreases cs@.len() - i,
    {
        let c = if cs[i] == '_' { ' ' } else { cs[i] };
        push_char(&mut out, c);
        proof {
            assert(l.subrange(1, i + 1) =~= l.subrange(1, i as int).push(c));
        }
        i = i + 1;
    }
    assert(l.subrange(1, cs@.len() as int) =~= l.drop_first());
    proof {
        if (key@[0] as u32) < 128 {
            assert(first == l[0]);
            assert(uppercase_char(l[0]).len() == 1);
            assert(out@[0] == uppercase_char(l[0])[0]);
            assert(out@.drop_first() =~= l.drop_first());
        }
    }
    out
}

fn push_bool(text: &mut String, b: bool)
    ensures
        final(text)@ == old(text)@ + bool_text(b),
{
    if b {
        push_str(text, "true");
    } else {
        push_str(text, "false");
    }
}

/// Appends the requirement for `key: value`, indented by `ind`.
pub fn render_requirement(text: &mut String, key: &str, value: &Json, ind: &str)
    ensures
        final(text)@ == old(text)@ + requirement(key@, value@, ind@),
    decreases *value, 1nat,
{
    let ghost start = text@;
    push_str(text, ind);
    push_str(text, "- ");
    let l = human_label(key);
    push_str(text, l.as_str());
    let ghost head = text@;
    match value {
        Json::String(s) => {
            push_str(text, ": ");
            push_str(text, s.as_str());
            push_str(text, "\n");
        },
        Json::Number(t) => {
            push_str(text, ": ");
            push_str(text, t.as_str());
            push_str(text, "\n");
        },
        Json::Bool(b) => {
            push_str(text, ": ");
            push_bool(text, *b);
            push_str(text, "\n");
        },
        Json::Array(items) => {
            push_str(text, ":\n");
            render_array_lines(text, items, ind);
        },
        Json::Object(entries) => {
            push_str(text, ":\n");
            let mut inner = owned(ind);
            push_str(&mut inner, "  ");
            render_member_lines(text, entries, inner.as_str());
        },
        Json::Null => {},
    }
    proof {
        assert(text@ =~= start + requirement(key@, value@, ind@));
    }
}

/// Appends the lines for the elements of an array.
fn render_array_lines(text: &mut String, items: &Vec<Json>, ind: &str)
    ensures
        final(text)@ == old(text)@ + array_lines(view_items(items@), ind@),
    decreases *items, 0nat,
{
    proof {
        lemma_view_items(items@);
    }
    let ghost vs = view_items(items@);
    let ghost start = text@;
    let mut i: usize = 0;
    while i < items.len()
        invariant
            i <= items@.len(),
            vs == view_items(items@),
            vs.len() == items@.len(),
            forall|k: int| 0 <= k < items@.len() ==> #[trigger] vs[k] == items@[k]@,
            text@ == start + array_lines(vs.take(i as int), ind@),
        decreases items@.len() - i,
    {
        proof {
            assert(decreases_to!(*items => items@));
            assert(decreases_to!(items@ => items@[i as int]));
        }
        render_array_line(text, &items[i], ind);
        proof {
            let t = vs.take(i + 1);
            assert(t.drop_last() =~= vs.take(i as int));
            assert(t.last() == vs[i as int]);
        }
        i = i + 1;
    }
    assert(vs.take(items@.len() as int) =~= vs);
}

/// Appends the lines for one element of an array.
fn render_array_line(text: &mut String, item: &Json, ind: &str)
    ensures
        final(text)@ == old(text)@ + array_line(item@, ind@),
    decreases *item, 2nat,
{
    let ghost start = text@;
    match item {
        Json::Object(entries) => {
            push_str(text, ind);
            push_str(text, "  ");
            push_str(text, "-\n");
            let mut inner = owned(ind);
            push_str(&mut inner, "    ");
            render_entry_lines(text, entries, inner.as_str());
        },
        Json::Array(_) => {
            let mut inner = owned(ind);
            push_str(&mut inner, "  ");
            render_requirement(text, "item", item, inner.as_str());
        },
        Json::Null => {},
        Json::String(s) => {
            push_str(text, ind);
            push_str(text, "  ");
            push_str(text, "- ");
            push_str(text, s.as_str());
            push_str(text, "\n");
        },
        Json::Number(t) => {
            push_str(text, ind);
            push_str(text, "  ");
            push_str(text, "- ");
            push_str(text, t.as_str());
            push_str(text, "\n");
        },
        Json::Bool(b) => {
            push_str(text, ind);
            push_str(text, "  ");
            push_str(text, "- ");
            push_bool(text, *b);
            push_str(text, "\n");
        },
    }
    proof {
        assert(text@ =~= start + array_line(item@, ind@));
    }
}

/// Appends a requirement for every entry.
fn render_entry_lines(text: &mut String, entries: &Vec<(String, Json)>, ind: &str)
    ensures
        final(text)@ == old(text)@ + entry_lines(view_entries(entries@), ind@),
    decreases *entries, 0nat,
{
    proof {
        lemma_view_entries(entries@);
    }
    let ghost vs = view_entries(entries@);
    let ghost start = text@;
    let mut i: usize = 0;
    while i < entries.len()
        invariant
            i <= entries@.len(),
            vs == view_entries(entries@),
            vs.len() == entries@.len(),
            forall|k: int|
                0 <= k < entries@.len() ==> #[trigger] vs[k] == (entries@[k].0@, entries@[k].1@),
            text@ == start + entry_lines(vs.take(i as int), ind@),
        decreases entries@.len() - i,
    {
        proof {
            assert(decreases_to!(*entries => entries@));
            assert(decreases_to!(entries@ => entries@[i as int]));
            assert(decreases_to!(entries@[i as int] => entries@[i as int].1));
        }
        render_requirement(text, entries[i].0.as_str(), &entries[i].1, ind);
        proof {
            let t = vs.take(i + 1);
            assert(t.drop_last() =~= vs.take(i as int));
            assert(t.last() == vs[i as int]);
        }
        i = i + 1;
    }
    assert(vs.take(entries@.len() as int) =~= vs);
}

/// Appends a requirement for every entry whose value is not null.
fn render_member_lines(text: &mut String, entries: &Vec<(String, Json)>, ind: &str)
    ensures
        final(text)@ == old(text)@ + member_lines(view_entries(entries@), ind@),
    decreases *entries, 0nat,
{
    proof {
        lemma_view_entries(entries@);
    }
    let ghost vs = view_entries(entries@);
    let ghost start = text@;
    let mut i: usize = 0;
    while i < entries.len()
        invariant
            i <= entries@.len(),
            vs == view_entries(entries@),
            vs.len() == entries@.len(),
            forall|k: int|
                0 <= k < entries@.len() ==> #[trigger] vs[k] == (entries@[k].0@, entries@[k].1@),
            text@ == start + member_lines(vs.take(i as int), ind@),
        decreases entries@.len() - i,
    {
        proof {
            assert(decreases_to!(*entries => entries@));
            assert(decreases_to!(entries@ => entries@[i as int]));
            assert(decreases_to!(entries@[i as int] => entries@[i as int].1));
            let t = vs.take(i + 1);
            assert(t.drop_last() =~= vs.take(i as int));
            assert(t.last() == vs[i as int]);
        }
        if !entries[i].1.is_null() {
            render_requirement(text, entries[i].0.as_str(), &entries[i].1, ind);
        } else {
            proof {
                assert(text@ + Seq::<char>::empty() =~= text@);
            }
        }
        i = i + 1;
    }
    assert(vs.take(entries@.len() as int) =~= vs);
}

/// Renders a compiled prompt for image models that do not read JSON well:
/// a sentence naming the subject, then the other non-null entries as a list
/// of style requirements, in the object's order.
pub fn render_prompt_as_text(prompt_object: &Json) -> (res: String)
    ensures
        res@ == rendered_prompt(prompt_object@),
{
    let entries = match prompt_object {
        Json::Object(entries) => entries,
        _ => {
            return String::new();
        },
    };
    let mut text = String::new();
    push_str(&mut text, "Create an image of ");
    match member_str(prompt_object, "subject") {
        Some(s) => push_str(&mut text, s.as_str()),
        None => push_str(&mut text, "the requested subject"),
    }
    push_str(&mut text, ".");
    let ghost head = text@;
    proof {
        lemma_view_entries(entries@);
        assert(head =~= "Create an image of "@ + prompt_subject(prompt_object@) + "."@);
    }
    let ghost vs = view_entries(entries@);
    let mut body = String::new();
    let mut count: usize = 0;
    let mut i: usize = 0;
    while i < entries.len()
        invariant
            i <= entries@.len(),
            vs == view_entries(entries@),
            vs.len() == entries@.len(),
            forall|k: int|
                0 <= k < entries@.len() ==> #[trigger] vs[k] == (entries@[k].0@, entries@[k].1@),
            count == requirement_entries(vs.take(i as int)).len(),
            count <= i,
            body@ == entry_lines(requirement_entries(vs.take(i as int)), Seq::empty()),
        decreases entries@.len() - i,
    {
        let ghost t = vs.take(i + 1);
        proof {
            assert(t.drop_last() =~= vs.take(i as int));
            assert(t.last() == vs[i as int]);
            reveal_strlit("subject");
        }
        if !crate::text::text_eq(entries[i].0.as_str(), "subject") && !entries[i].1.is_null() {
            render_requirement(&mut body, entries[i].0.as_str(), &entries[i].1, "");
            proof {
                reveal_strlit("");
                let r = requirement_entries(vs.take(i as int));
                assert(requirement_entries(t) == r.push(vs[i as int]));
                assert(requirement_entries(t).drop_last() =~= r);
                assert(requirement_entries(t).last() == vs[i as int]);
                assert(""@ =~= Seq::<char>::empty());
            }
            count = count + 1;
        }
        i = i + 1;
    }
    proof {
        assert(vs.take(entries@.len() as int) =~= vs);
    }
    if count == 0 {
        return text;
    }
    push_str(&mut text, "\n\nStyle requirements:\n");
    push_str(&mut text, body.as_str());
    trim_end_of(text.as_str())
}

// ---------------------------------------------------------------------------
// Empty styles
// ---------------------------------------------------------------------------

/// A value without usable content: null, blank strings, and arrays and
/// objects holding nothing else. Numbers and booleans are content.
pub open spec fn empty_style(j: JsonV) -> bool
    decreases j,
{
    match j {
        JsonV::Null => true,
        JsonV::String(s) => is_blank(s),
        JsonV::Number(_) => false,
        JsonV::Bool(_) => false,
        JsonV::Array(items) => all_empty(items),
        JsonV::Object(entries) => all_values_empty(entries),
    }
}

pub open spec fn all_empty(items: Seq<JsonV>) -> bool
    decreases items,
{
    items.len() == 0 || (all_empty(items.drop_last()) && empty_style(items.last()))
}

pub open spec fn all_values_empty(entries: Seq<EntryV>) -> bool
    decreases entries,
{
    entries.len() == 0 || (all_values_empty(entries.drop_last()) && empty_style(entries.last().1))
}

/// Whether a style JSON has no usable content at all.
pub fn is_empty_style(value: &Json) -> (res: bool)
    ensures
        res == empty_style(value@),
    decreases *value, 1nat,
{
    match value {
        Json::Null => true,
        Json::String(s) => blank(s.as_str()),
        Json::Number(_) => false,
        Json::Bool(_) => false,
        Json::Array(items) => all_items_empty(items),
        Json::Object(entries) => all_entries_empty(entries),
    }
}

fn all_items_empty(items: &Vec<Json>) -> (res: bool)
    ensures
        res == all_empty(view_items(items@)),
    decreases *items, 0nat,
{
    proof {
        lemma_view_items(items@);
    }
    let ghost vs = view_items(items@);
    let mut i: usize = 0;
    while i < items.len()
        invariant
            i <= items@.len(),
            vs == view_items(items@),
            vs.len() == items@.len(),
            forall|k: int| 0 <= k < items@.len() ==> #[trigger] vs[k] == items@[k]@,
            all_empty(vs.take(i as int)),
        decreases items@.len() - i,
    {
        proof {
            assert(decreases_to!(*items => items@));
            assert(decreases_to!(items@ => items@[i as int]));
            let t = vs.take(i + 1);
            assert(t.drop_last() =~= vs.take(i as int));
            assert(t.last() == vs[i as int]);
        }
        if !is_empty_style(&items[i]) {
            proof {
                lemma_all_empty_prefix(vs, i + 1);
            }
            return false;
        }
        i = i + 1;
    }
    assert(vs.take(items@.len() as int) =~= vs);
    true
}

fn all_entries_empty(entries: &Vec<(String, Json)>) -> (res: bool)
    ensures
        res == all_values_empty(view_entries(entries@)),
    decreases *entries, 0nat,
{
    proof {
        lemma_view_entries(entries@);
    }
    let ghost vs = view_entries(entries@);
    let mut i: usize = 0;
    while i < entries.len()
        invariant
            i <= entries@.len(),
            vs == view_entries(entries@),
            vs.len() == entries@.len(),
            forall|k: int|
                0 <= k < entries@.len() ==> #[trigger] vs[k] == (entries@[k].0@, entries@[k].1@),
            all_values_empty(vs.take(i as int)),
        decreases entries@.len() - i,
    {
        proof {
            assert(decreases_to!(*entries => entries@));
            assert(decreases_to!(entries@ => entries@[i as int]));
            assert(decreases_to!(entries@[i as int] => entries@[i as int].1));
            let t = vs.take(i + 1);
            assert(t.drop_last() =~= vs.take(i as int));
            assert(t.last() == vs[i as int]);
        }
        if !is_empty_style(&entries[i].1) {
            proof {
                lemma_all_values_empty_prefix(vs, i + 1);
            }
            return false;
        }
        i = i + 1;
    }
    assert(vs.take(entries@.len() as int) =~= vs);
    true
}

proof fn lemma_all_empty_prefix(s: Seq<JsonV>, k: int)
    requires
        0 <= k <= s.len(),
    ensures
        all_empty(s) ==> all_empty(s.take(k)),
    decreases s.len() - k,
{
    if k < s.len() {
        lemma_all_empty_prefix(s.drop_last(), k);
        assert(s.drop_last().take(k) =~= s.take(k));
    } else {
        assert(s.take(k) =~= s);
    }
}

proof fn lemma_all_values_empty_prefix(s: Seq<EntryV>, k: int)
    requires
        0 <= k <= s.len(),
    ensures
        all_values_empty(s) ==> all_values_empty(s.take(k)),
    decreases s.len() - k,
{
    if k < s.len() {
        lemma_all_values_empty_prefix(s.drop_last(), k);
        assert(s.drop_last().take(k) =~= s.take(k));
    } else {
        assert(s.take(k) =~= s);
    }
}

/// Trailing whitespace is taken only from behind a text that ends in a
/// character other than whitespace.
proof fn lemma_trim_end_keeps_prefix(a: Seq<char>, b: Seq<char>)
    requires
        a.len() > 0,
        !is_ws(a.last()),
    ensures
        a.is_prefix_of(trim_end(a + b)),
    decreases b.len(),
{
    if b.len() == 0 {
        assert(a + b =~= a);
    } else if is_ws((a + b).last()) {
        assert((a + b).drop_last() =~= a + b.drop_last());
        lemma_trim_end_keeps_prefix(a, b.drop_last());
    } else {
        assert((a + b).subrange(0, a.len() as int) =~= a);
    }
}

/// Law: the plain-language text of a compiled prompt opens with the
/// sentence that names the subject it was compiled with.
pub proof fn law_rendered_prompt_names_subject(
    style: Seq<EntryV>,
    subject: Seq<char>,
    has_references: bool,
    infographic: bool,
)
    requires
        unique_keys(style),
    ensures
        ("Create an image of "@ + subject + "."@).is_prefix_of(
            rendered_prompt(
                JsonV::Object(
                    compiled_entries(JsonV::Object(style), subject, has_references, infographic),
                ),
            ),
        ),
{
    reveal_strlit(".");
    law_compiled_prompt(style, subject, has_references, infographic, "subject"@);
    let c = compiled_entries(JsonV::Object(style), subject, has_references, infographic);
    let head = "Create an image of "@ + subject + "."@;
    assert(prompt_subject(JsonV::Object(c)) == subject);
    assert(head.last() == '.');
    let reqs = requirement_entries(c);
    if reqs.len() > 0 {
        lemma_trim_end_keeps_prefix(
            head,
            "\n\nStyle requirements:\n"@ + entry_lines(reqs, Seq::empty()),
        );
        assert(head + ("\n\nStyle requirements:\n"@ + entry_lines(reqs, Seq::empty())) =~= head
            + "\n\nStyle requirements:\n"@ + entry_lines(reqs, Seq::empty()));
    } else {
        assert(head.subrange(0, head.len() as int) =~= head);
    }
}

/// Law: a requirement with a scalar value is one line: the indent, a dash,
/// the key's label, a colon and the value as it is: a string's text, a
/// number's text, and for a boolean `true` or `false` according to the
/// value; a null value gives just the dash and the label.
pub proof fn law_scalar_requirement(key: Seq<char>, value: JsonV, ind: Seq<char>)
    ensures
        value == JsonV::Bool(true) ==> requirement(key, value, ind) == ind + "- "@ + label(key)
            + ": true\n"@,
        value == JsonV::Bool(false) ==> requirement(key, value, ind) == ind + "- "@ + label(key)
            + ": false\n"@,
        value is String ==> requirement(key, value, ind) == ind + "- "@ + label(key) + ": "@
            + value->String_0 + "\n"@,
        value is Number ==> requirement(key, value, ind) == ind + "- "@ + label(key) + ": "@
            + value->Number_0 + "\n"@,
        value is Null ==> requirement(key, value, ind) == ind + "- "@ + label(key),
{
    reveal_strlit(": true\n");
    reveal_strlit(": false\n");
    reveal_strlit(": ");
    reveal_strlit("\n");
    reveal_strlit("true");
    reveal_strlit("false");
    if value == JsonV::Bool(true) {
        assert(": "@ + "true"@ + "\n"@ =~= ": true\n"@);
        assert(ind + "- "@ + label(key) + (": "@ + "true"@ + "\n"@) =~= ind + "- "@ + label(key)
            + ": true\n"@);
    }
    if value == JsonV::Bool(false) {
        assert(": "@ + "false"@ + "\n"@ =~= ": false\n"@);
        assert(ind + "- "@ + label(key) + (": "@ + "false"@ + "\n"@) =~= ind + "- "@ + label(key)
            + ": false\n"@);
    }
    if value is String {
        assert(ind + "- "@ + label(key) + (": "@ + value->String_0 + "\n"@) =~= ind + "- "@ + label(
            key,
        ) + ": "@ + value->String_0 + "\n"@);
    }
    if value is Number {
        assert(ind + "- "@ + label(key) + (": "@ + value->Number_0 + "\n"@) =~= ind + "- "@ + label(
            key,
        ) + ": "@ + value->Number_0 + "\n"@);
    }
    if value is Null {
        assert(ind + "- "@ + label(key) + Seq::<char>::empty() =~= ind + "- "@ + label(key));
    }
}

/// Law: the plain-language text of a prompt with one boolean requirement
/// and a subject names the subject and then states the requirement with
/// the boolean's own value.
pub proof fn law_rendered_boolean_requirement(key: Seq<char>, b: bool, subject: Seq<char>)
    requires
        key != "subject"@,
    ensures
        rendered_prompt(
            JsonV::Object(seq![(key, JsonV::Bool(b)), ("subject"@, JsonV::String(subject))]),
        ) == "Create an image of "@ + subject + ".\n\nStyle requirements:\n- "@ + label(key) + if b {
            ": true"@
        } else {
            ": false"@
        },
{
    reveal_strlit("subject");
    reveal_strlit(": true");
    reveal_strlit(": false");
    reveal_strlit(": true\n");
    reveal_strlit(": false\n");
    reveal_strlit("\n");
    let es = seq![(key, JsonV::Bool(b)), ("subject"@, JsonV::String(subject))];
    let j = JsonV::Object(es);
    // the subject is found
    lemma_key_index(es, "subject"@);
    assert(es[1].0 == "subject"@);
    assert(es[0].0 != "subject"@);
    assert(lookup(es, "subject"@) == Some(JsonV::String(subject))) by {
        crate::json::lemma_key_index_is_first(es, "subject"@, 1);
    }
    assert(prompt_subject(j) == subject);
    // the requirements are the one boolean entry
    let e0 = es.drop_last();
    assert(e0 =~= seq![(key, JsonV::Bool(b))]);
    assert(e0.drop_last() =~= Seq::<EntryV>::empty());
    assert(requirement_entries(Seq::<EntryV>::empty()) == Seq::<EntryV>::empty());
    assert(requirement_entries(e0) =~= seq![(key, JsonV::Bool(b))]) by {
        assert(requirement_entries(e0) == requirement_entries(e0.drop_last()).push(e0.last()));
        assert(Seq::<EntryV>::empty().push((key, JsonV::Bool(b))) =~= seq![(key, JsonV::Bool(b))]);
    }
    assert(requirement_entries(es) == requirement_entries(e0));
    let reqs = seq![(key, JsonV::Bool(b))];
    assert(reqs.drop_last() =~= Seq::<EntryV>::empty());
    assert(entry_lines(Seq::<EntryV>::empty(), Seq::empty()) == Seq::<char>::empty());
    assert(entry_lines(reqs, Seq::empty()) == Seq::<char>::empty() + requirement(
        key,
        JsonV::Bool(b),
        Seq::empty(),
    ));
    law_scalar_requirement(key, JsonV::Bool(b), Seq::empty());
    let head = "Create an image of "@ + subject + "."@;
    let tail = if b {
        ": true"@
    } else {
        ": false"@
    };
    let line = "- "@ + label(key) + tail;
    let full = head + "\n\nStyle requirements:\n"@ + entry_lines(reqs, Seq::empty());
    assert(full =~= (head + "\n\nStyle requirements:\n"@ + line).push('\n')) by {
        if b {
            assert(": true\n"@ =~= ": true"@.push('\n'));
        } else {
            assert(": false\n"@ =~= ": false"@.push('\n'));
        }
    }
    let kept = head + "\n\nStyle requirements:\n"@ + line;
    assert(kept.last() == 'e') by {
        if b {
            assert(": true"@.last() == 'e');
        } else {
            assert(": false"@.last() == 'e');
        }
    }
    assert(full.drop_last() =~= kept);
    assert(is_ws(full.last()));
    assert(trim_end(full) == trim_end(kept));
    assert(trim_end(kept) == kept);
    reveal_strlit(".");
    reveal_strlit("- ");
    reveal_strlit("\n\nStyle requirements:\n");
    reveal_strlit(".\n\nStyle requirements:\n- ");
    assert("."@ + "\n\nStyle requirements:\n"@ + "- "@ =~= ".\n\nStyle requirements:\n- "@);
    assert(kept =~= "Create an image of "@ + subject + ("."@ + "\n\nStyle requirements:\n"@ + "- "@)
        + label(key) + tail);
}

proof fn lemma_all_empty(items: Seq<JsonV>)
    ensures
        all_empty(items) <==> forall|i: int| 0 <= i < items.len() ==> empty_style(#[trigger] items[i]),
    decreases items.len(),
{
    if items.len() > 0 {
        lemma_all_empty(items.drop_last());
        assert(forall|i: int| 0 <= i < items.len() - 1 ==> items.drop_last()[i] == items[i]);
        assert(items.last() == items[items.len() - 1]);
    }
}

proof fn lemma_all_values_empty(es: Seq<EntryV>)
    ensures
        all_values_empty(es) <==> forall|i: int| 0 <= i < es.len() ==> empty_style(#[trigger] es[i].1),
    decreases es.len(),
{
    if es.len() > 0 {
        lemma_all_values_empty(es.drop_last());
        assert(forall|i: int| 0 <= i < es.len() - 1 ==> es.drop_last()[i] == es[i]);
        assert(es.last() == es[es.len() - 1]);
    }
}

/// Law: a value has no usable content exactly when it is null, a blank
/// string, or a list or object all of whose elements (values) have none;
/// numbers and booleans always count as content. So a list or object that
/// holds a non-blank string, a number or a boolean anywhere is not empty.
pub proof fn law_empty_style(j: JsonV)
    ensures
        j is Null ==> empty_style(j),
        j is Bool ==> !empty_style(j),
        j is Number ==> !empty_style(j),
        j is String ==> (empty_style(j) <==> is_blank(j->String_0)),
        j is Array ==> (empty_style(j) <==> forall|i: int|
            0 <= i < j->Array_0.len() ==> empty_style(#[trigger] j->Array_0[i])),
        j is Object ==> (empty_style(j) <==> forall|i: int|
            0 <= i < j->Object_0.len() ==> empty_style(#[trigger] j->Object_0[i].1)),
{
    match j {
        JsonV::Array(items) => lemma_all_empty(items),
        JsonV::Object(es) => lemma_all_values_empty(es),
        _ => {},
    }
}

/// Law: a list is rendered element by element: the lines of two lists one
/// after the other are those of the first followed by those of the second.
pub proof fn law_array_lines_concat(a: Seq<JsonV>, b: Seq<JsonV>, ind: Seq<char>)
    ensures
        array_lines(a + b, ind) == array_lines(a, ind) + array_lines(b, ind),
    decreases b.len(),
{
    if b.len() == 0 {
        assert(a + b =~= a);
        assert(array_lines(a, ind) + array_lines(b, ind) =~= array_lines(a, ind));
    } else {
        assert((a + b).drop_last() =~= a + b.drop_last());
        assert((a + b).last() == b.last());
        law_array_lines_concat(a, b.drop_last(), ind);
        assert(array_lines(a, ind) + (array_lines(b.drop_last(), ind) + array_line(b.last(), ind))
            =~= array_lines(a, ind) + array_lines(b.drop_last(), ind) + array_line(b.last(), ind));
    }
}

/// Law: a list requirement is its label line followed by the lines of its
/// elements; a scalar element is one line two spaces further in, holding
/// the element's own text (`true` or `false` for a boolean), and a null
/// element gives no line.
pub proof fn law_list_requirement(key: Seq<char>, items: Seq<JsonV>, ind: Seq<char>, x: JsonV)
    ensures
        requirement(key, JsonV::Array(items), ind) == ind + "- "@ + label(key) + ":\n"@ + array_lines(
            items,
            ind,
        ),
        x is String ==> array_lines(seq![x], ind) == ind + "  - "@ + x->String_0 + "\n"@,
        x is Number ==> array_lines(seq![x], ind) == ind + "  - "@ + x->Number_0 + "\n"@,
        x == JsonV::Bool(true) ==> array_lines(seq![x], ind) == ind + "  - true\n"@,
        x == JsonV::Bool(false) ==> array_lines(seq![x], ind) == ind + "  - false\n"@,
        x is Null ==> array_lines(seq![x], ind) == Seq::<char>::empty(),
{
    reveal_strlit("  ");
    reveal_strlit("- ");
    reveal_strlit("  - ");
    reveal_strlit("  - true\n");
    reveal_strlit("  - false\n");
    reveal_strlit("true");
    reveal_strlit("false");
    reveal_strlit("\n");
    assert(ind + "- "@ + label(key) + (":\n"@ + array_lines(items, ind)) =~= ind + "- "@ + label(key)
        + ":\n"@ + array_lines(items, ind));
    let e = Seq::<JsonV>::empty();
    assert(seq![x].drop_last() =~= e);
    assert(seq![x].last() == x);
    assert(array_lines(e, ind) == Seq::<char>::empty());
    assert(array_lines(seq![x], ind) =~= array_line(x, ind));
    assert(ind + "  "@ + "- "@ =~= ind + "  - "@);
    if x == JsonV::Bool(true) {
        assert(ind + "  "@ + "- "@ + "true"@ + "\n"@ =~= ind + "  - true\n"@);
    }
    if x == JsonV::Bool(false) {
        assert(ind + "  "@ + "- "@ + "false"@ + "\n"@ =~= ind + "  - false\n"@);
    }
}

} // verus!
