use vstd::prelude::*;

use crate::json::{Json, JsonV, EntryV, lemma_view_items, lemma_view_entries, view_items, view_entries};
use crate::text::{push_char, push_str, owned};

verus! {

// ---------------------------------------------------------------------------
// String literals (serde_json's escaping)
// ---------------------------------------------------------------------------

/// A lower-case hexadecimal digit.
pub open spec fn hex_lower_digit(n: int) -> char
    recommends
        0 <= n < 16,
{
    if n < 10 {
        (48 + n) as char
    } else {
        (87 + n) as char
    }
}

/// How serde_json writes one character inside a string literal.
pub open spec fn escape_char(c: char) -> Seq<char> {
    if c == '"' {
        seq!['\\', '"']
    } else if c == '\\' {
        seq!['\\', '\\']
    } else if c == '\u{8}' {
        seq!['\\', 'b']
    } else if c == '\t' {
        seq!['\\', 't']
    } else if c == '\n' {
        seq!['\\', 'n']
    } else if c == '\u{c}' {
        seq!['\\', 'f']
    } else if c == '\r' {
        seq!['\\', 'r']
    } else if (c as int) < 32 {
        seq!['\\', 'u', '0', '0', hex_lower_digit(c as int / 16), hex_lower_digit(c as int % 16)]
    } else {
        seq![c]
    }
}

/// The escaped characters of a string.
pub open spec fn escaped(s: Seq<char>) -> Seq<char>
    decreases s.len(),
{
    if s.len() == 0 {
        Seq::empty()
    } else {
        escaped(s.drop_last()) + escape_char(s.last())
    }
}

/// A JSON string literal for `s`, as serde_json writes it.
pub open spec fn quoted(s: Seq<char>) -> Seq<char> {
    seq!['"'] + escaped(s) + seq!['"']
}

/// Calls `serde_json::to_string` on a string slice. The contract states
/// serde_json's escaping as its source shows it: `"` and `\` are
/// backslash-escaped, the control characters with short forms use them,
/// other characters below U+0020 become `\u00XX` with lower-case hex, and
/// every other character is written as it is.
#[verifier::external_body]
pub(crate) fn json_quote(s: &str) -> (res: String)
    ensures
        res@ == quoted(s@),
{
    serde_json::to_string(s).unwrap_or_default()
}

// ---------------------------------------------------------------------------
// Compact text (`serde_json::to_string`)
// ---------------------------------------------------------------------------

/// The text of a scalar value (null, boolean, number or string).
pub open spec fn scalar_text(j: JsonV) -> Seq<char> {
    match j {
        JsonV::Null => "null"@,
        JsonV::Bool(b) => if b {
            "true"@
        } else {
            "false"@
        },
        JsonV::Number(t) => t,
        JsonV::String(s) => quoted(s),
        _ => Seq::empty(),
    }
}

/// The compact JSON text of a value.
pub open spec fn compact(j: JsonV) -> Seq<char>
    decreases j,
{
    match j {
        JsonV::Array(items) => seq!['['] + compact_items(items) + seq![']'],
        JsonV::Object(entries) => seq!['{'] + compact_entries(entries) + seq!['}'],
        _ => scalar_text(j),
    }
}

pub open spec fn compact_items(items: Seq<JsonV>) -> Seq<char>
    decreases items,
{
    if items.len() == 0 {
        Seq::empty()
    } else if items.len() == 1 {
        compact(items[0])
    } else {
        compact_items(items.drop_last()) + seq![','] + compact(items.last())
    }
}

pub open spec fn compact_entries(entries: Seq<EntryV>) -> Seq<char>
    decreases entries,
{
    if entries.len() == 0 {
        Seq::empty()
    } else if entries.len() == 1 {
        quoted(entries[0].0) + seq![':'] + compact(entries[0].1)
    } else {
        compact_entries(entries.drop_last()) + seq![','] + quoted(entries.last().0) + seq![':']
            + compact(entries.last().1)
    }
}

/// Appends the text of a scalar value.
pub fn write_scalar(j: &Json, out: &mut String)
    requires
        !(j@ is Array),
        !(j@ is Object),
    ensures
        final(out)@ == old(out)@ + scalar_text(j@),
{
    match j {
        Json::Null => push_str(out, "null"),
        Json::Bool(b) => {
            if *b {
                push_str(out, "true")
            } else {
                push_str(out, "false")
            }
        },
        Json::Number(t) => push_str(out, t.as_str()),
        Json::String(s) => {
            let q = json_quote(s.as_str());
            push_str(out, q.as_str());
        },
        _ => {},
    }
}

/// Appends the compact text of array elements, separated by commas.
#[verifier::loop_isolation(false)]
pub fn write_compact_items(items: &Vec<Json>, out: &mut String)
    ensures
        final(out)@ == old(out)@ + compact_items(view_items(items@)),
    decreases *items,
{
    proof {
        lemma_view_items(items@);
    }
    let ghost vs = view_items(items@);
    let ghost start = out@;
    let mut i: usize = 0;
    while i < items.len()
        invariant
            i <= items@.len(),
            out@ == start + compact_items(vs.take(i as int)),
        decreases items@.len() - i,
    {
        if i > 0 {
            push_char(out, ',');
        }
        proof {
            assert(decreases_to!(*items => items@));
            assert(decreases_to!(items@ => items@[i as int]));
        }
        items[i].write_compact(out);
        proof {
            let t = vs.take(i + 1);
            assert(t.drop_last() =~= vs.take(i as int));
            assert(t.last() == vs[i as int]);
            if i == 0 {
                assert(t.len() == 1);
            }
        }
        i = i + 1;
    }
    assert(vs.take(items@.len() as int) =~= vs);
}

/// Appends the compact text of object entries, separated by commas.
#[verifier::loop_isolation(false)]
pub fn write_compact_entries(entries: &Vec<(String, Json)>, out: &mut String)
    ensures
        final(out)@ == old(out)@ + compact_entries(view_entries(entries@)),
    decreases *entries,
{
    proof {
        lemma_view_entries(entries@);
    }
    let ghost vs = view_entries(entries@);
    let ghost start = out@;
    let mut i: usize = 0;
    while i < entries.len()
        invariant
            i <= entries@.len(),
            out@ == start + compact_entries(vs.take(i as int)),
        decreases entries@.len() - i,
    {
        if i > 0 {
            push_char(out, ',');
        }
        let q = json_quote(entries[i].0.as_str());
        push_str(out, q.as_str());
        push_char(out, ':');
        proof {
            assert(decreases_to!(*entries => entries@));
            assert(decreases_to!(entries@ => entries@[i as int]));
            assert(decreases_to!(entries@[i as int] => entries@[i as int].1));
        }
        entries[i].1.write_compact(out);
        proof {
            let t = vs.take(i + 1);
            assert(t.drop_last() =~= vs.take(i as int));
            assert(t.last() == vs[i as int]);
            if i == 0 {
                assert(t.len() == 1);
            }
        }
        i = i + 1;
    }
    assert(vs.take(entries@.len() as int) =~= vs);
}

impl Json {
    /// Appends the compact JSON text of this value.
    pub fn write_compact(&self, out: &mut String)
        ensures
            final(out)@ == old(out)@ + compact(self@),
        decreases *self,
    {
        match self {
            Json::Array(items) => {
                push_char(out, '[');
                write_compact_items(items, out);
                push_char(out, ']');
            },
            Json::Object(entries) => {
                push_char(out, '{');
                write_compact_entries(entries, out);
                push_char(out, '}');
            },
            _ => write_scalar(self, out),
        }
    }

    /// The compact JSON text of this value (`serde_json::to_string`).
    pub fn to_compact_string(&self) -> (res: String)
        ensures
            res@ == compact(self@),
    {
        let mut out = String::new();
        self.write_compact(&mut out);
        out
    }
}

// ---------------------------------------------------------------------------
// Pretty text (`serde_json::to_string_pretty`, two-space indentation)
// ---------------------------------------------------------------------------

/// The pretty JSON text of a value whose enclosing lines are indented by `ind`.
pub open spec fn pretty(j: JsonV, ind: Seq<char>) -> Seq<char>
    decreases j,
{
    match j {
        JsonV::Array(items) => if items.len() == 0 {
            "[]"@
        } else {
            seq!['['] + pretty_items(items, ind + "  "@) + seq!['\n'] + ind + seq![']']
        },
        JsonV::Object(entries) => if entries.len() == 0 {
            "{}"@
        } else {
            seq!['{'] + pretty_entries(entries, ind + "  "@) + seq!['\n'] + ind + seq!['}']
        },
        _ => scalar_text(j),
    }
}

/// The elements of a non-empty array, each on a line of its own indented by `ind`.
pub open spec fn pretty_items(items: Seq<JsonV>, ind: Seq<char>) -> Seq<char>
    decreases items,
{
    if items.len() == 0 {
        Seq::empty()
    } else {
        pretty_items(items.drop_last(), ind) + (if items.len() == 1 {
            "\n"@
        } else {
            ",\n"@
        }) + ind + pretty(items.last(), ind)
    }
}

/// The entries of a non-empty object, each on a line of its own indented by `ind`.
pub open spec fn pretty_entries(entries: Seq<EntryV>, ind: Seq<char>) -> Seq<char>
    decreases entries,
{
    if entries.len() == 0 {
        Seq::empty()
    } else {
        pretty_entries(entries.drop_last(), ind) + (if entries.len() == 1 {
            "\n"@
        } else {
            ",\n"@
        }) + ind + quoted(entries.last().0) + ": "@ + pretty(entries.last().1, ind)
    }
}

/// Appends the elements of a non-empty array, one per line indented by `inner`.
#[verifier::loop_isolation(false)]
pub fn write_pretty_items(items: &Vec<Json>, out: &mut String, inner: &str)
    ensures
        final(out)@ == old(out)@ + pretty_items(view_items(items@), inner@),
    decreases *items,
{
    proof {
        lemma_view_items(items@);
    }
    let ghost vs = view_items(items@);
    let ghost start = out@;
    let mut i: usize = 0;
    while i < items.len()
        invariant
            i <= items@.len(),
            out@ == start + pretty_items(vs.take(i as int), inner@),
        decreases items@.len() - i,
    {
        if i > 0 {
            push_str(out, ",\n");
        } else {
            push_str(out, "\n");
        }
        push_str(out, inner);
        proof {
            assert(decreases_to!(*items => items@));
            assert(decreases_to!(items@ => items@[i as int]));
        }
        items[i].write_pretty(out, inner);
        proof {
            let t = vs.take(i + 1);
            assert(t.drop_last() =~= vs.take(i as int));
            assert(t.last() == vs[i as int]);
        }
        i = i + 1;
    }
    assert(vs.take(items@.len() as int) =~= vs);
}

/// Appends the entries of a non-empty object, one per line indented by `inner`.
#[verifier::loop_isolation(false)]
pub fn write_pretty_entries(entries: &Vec<(String, Json)>, out: &mut String, inner: &str)
    ensures
        final(out)@ == old(out)@ + pretty_entries(view_entries(entries@), inner@),
    decreases *entries,
{
    proof {
        lemma_view_entries(entries@);
    }
    let ghost vs = view_entries(entries@);
    let ghost start = out@;
    let mut i: usize = 0;
    while i < entries.len()
        invariant
            i <= entries@.len(),
            out@ == start + pretty_entries(vs.take(i as int), inner@),
        decreases entries@.len() - i,
    {
        if i > 0 {
            push_str(out, ",\n");
        } else {
            push_str(out, "\n");
        }
        push_str(out, inner);
        let q = json_quote(entries[i].0.as_str());
        push_str(out, q.as_str());
        push_str(out, ": ");
        proof {
            assert(decreases_to!(*entries => entries@));
            assert(decreases_to!(entries@ => entries@[i as int]));
            assert(decreases_to!(entries@[i as int] => entries@[i as int].1));
        }
        entries[i].1.write_pretty(out, inner);
        proof {
            let t = vs.take(i + 1);
            assert(t.drop_last() =~= vs.take(i as int));
            assert(t.last() == vs[i as int]);
        }
        i = i + 1;
    }
    assert(vs.take(entries@.len() as int) =~= vs);
}

impl Json {
    /// Appends the pretty JSON text of this value, enclosing lines indented by `ind`.
    pub fn write_pretty(&self, out: &mut String, ind: &str)
        ensures
            final(out)@ == old(out)@ + pretty(self@, ind@),
        decreases *self,
    {
        match self {
            Json::Array(items) => {
                proof {
                    lemma_view_items(items@);
                }
                if items.len() == 0 {
                    push_str(out, "[]");
                    return;
                }
                let mut inner = owned(ind);
                push_str(&mut inner, "  ");
                push_char(out, '[');
                write_pretty_items(items, out, inner.as_str());
                push_char(out, '\n');
                push_str(out, ind);
                push_char(out, ']');
            },
            Json::Object(entries) => {
                proof {
                    lemma_view_entries(entries@);
                }
                if entries.len() == 0 {
                    push_str(out, "{}");
                    return;
                }
                let mut inner = owned(ind);
                push_str(&mut inner, "  ");
                push_char(out, '{');
                write_pretty_entries(entries, out, inner.as_str());
                push_char(out, '\n');
                push_str(out, ind);
                push_char(out, '}');
            },
            _ => write_scalar(self, out),
        }
    }

    /// The pretty JSON text of this value (`serde_json::to_string_pretty`).
    pub fn to_pretty_string(&self) -> (res: String)
        ensures
            res@ == pretty(self@, Seq::empty()),
    {
        let mut out = String::new();
        self.write_pretty(&mut out, "");
        proof {
            assert(""@ =~= Seq::<char>::empty()) by {
                reveal_strlit("");
            }
        }
        out
    }
}

} // verus!
