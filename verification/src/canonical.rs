use vstd::prelude::*;
use vstd::relations::{sorted_by, total_ordering};
use vstd::seq_lib::lemma_sorted_unique;

use crate::json::{
    Json, JsonV, EntryV, lemma_view_items, lemma_view_entries, unique_keys, view_items,
    view_entries,
};
use crate::json_text::{
    compact, compact_entries, compact_items, hex_lower_digit, json_quote, quoted, scalar_text,
    write_scalar,
};
use crate::text::{chars_of, push_char, push_str};

verus! {

// ---------------------------------------------------------------------------
// The order of keys: code points compared one by one, which is the order of
// Rust's `String` (its UTF-8 bytes compare the same way).
// ---------------------------------------------------------------------------

/// `a` comes strictly before `b`.
pub open spec fn lex_lt(a: Seq<char>, b: Seq<char>) -> bool
    decreases a.len(),
{
    if a.len() == 0 {
        b.len() > 0
    } else if b.len() == 0 {
        false
    } else if a[0] != b[0] {
        (a[0] as int) < (b[0] as int)
    } else {
        lex_lt(a.drop_first(), b.drop_first())
    }
}

pub open spec fn lex_le(a: Seq<char>, b: Seq<char>) -> bool {
    a == b || lex_lt(a, b)
}

pub proof fn lemma_lex_irreflexive(a: Seq<char>)
    ensures
        !lex_lt(a, a),
    decreases a.len(),
{
    if a.len() > 0 {
        lemma_lex_irreflexive(a.drop_first());
    }
}

pub proof fn lemma_lex_asymmetric(a: Seq<char>, b: Seq<char>)
    ensures
        lex_lt(a, b) ==> !lex_lt(b, a),
    decreases a.len(),
{
    if a.len() > 0 && b.len() > 0 && a[0] == b[0] {
        lemma_lex_asymmetric(a.drop_first(), b.drop_first());
    }
}

pub proof fn lemma_lex_transitive(a: Seq<char>, b: Seq<char>, c: Seq<char>)
    ensures
        lex_lt(a, b) && lex_lt(b, c) ==> lex_lt(a, c),
    decreases a.len(),
{
    if a.len() > 0 && b.len() > 0 && c.len() > 0 && a[0] == b[0] && b[0] == c[0] {
        lemma_lex_transitive(a.drop_first(), b.drop_first(), c.drop_first());
    }
}

pub proof fn lemma_lex_total(a: Seq<char>, b: Seq<char>)
    ensures
        a == b || lex_lt(a, b) || lex_lt(b, a),
    decreases a.len(),
{
    if a.len() > 0 && b.len() > 0 && a[0] == b[0] {
        lemma_lex_total(a.drop_first(), b.drop_first());
        if a.drop_first() == b.drop_first() {
            assert(a =~= seq![a[0]] + a.drop_first());
            assert(b =~= seq![b[0]] + b.drop_first());
        }
    } else if a.len() == 0 && b.len() == 0 {
        assert(a =~= b);
    }
}

/// A key and the canonical text of its value.
pub type PairV = (Seq<char>, Seq<char>);

/// Pairs ordered by key, then by value text.
pub open spec fn pair_le(p: PairV, q: PairV) -> bool {
    lex_lt(p.0, q.0) || (p.0 == q.0 && lex_le(p.1, q.1))
}

pub open spec fn pair_order() -> spec_fn(PairV, PairV) -> bool {
    |p: PairV, q: PairV| pair_le(p, q)
}

pub proof fn lemma_pair_order_total()
    ensures
        total_ordering(pair_order()),
{
    let r = pair_order();
    assert forall|x: PairV| #[trigger] r(x, x) by {}
    assert forall|x: PairV, y: PairV| #[trigger] r(x, y) && #[trigger] r(y, x) implies x == y by {
        lemma_lex_asymmetric(x.0, y.0);
        lemma_lex_asymmetric(x.1, y.1);
    }
    assert forall|x: PairV, y: PairV, z: PairV| #[trigger] r(x, y) && #[trigger] r(y, z) implies r(
        x,
        z,
    ) by {
        lemma_lex_transitive(x.0, y.0, z.0);
        lemma_lex_transitive(x.1, y.1, z.1);
    }
    assert forall|x: PairV, y: PairV| #[trigger] r(x, y) || #[trigger] r(y, x) by {
        lemma_lex_total(x.0, y.0);
        lemma_lex_total(x.1, y.1);
    }
}

// ---------------------------------------------------------------------------
// Canonical text: object keys sorted at every depth
// ---------------------------------------------------------------------------

/// The canonical text of a value: like the compact text, but every object's
/// entries are written in key order.
pub open spec fn canonical(j: JsonV) -> Seq<char>
    decreases j,
{
    match j {
        JsonV::Array(items) => seq!['['] + canonical_items(items) + seq![']'],
        JsonV::Object(entries) => seq!['{'] + joined_pairs(
            canonical_pairs(entries).sort_by(pair_order()),
        ) + seq!['}'],
        _ => scalar_text(j),
    }
}

pub open spec fn canonical_items(items: Seq<JsonV>) -> Seq<char>
    decreases items,
{
    if items.len() == 0 {
        Seq::empty()
    } else if items.len() == 1 {
        canonical(items[0])
    } else {
        canonical_items(items.drop_last()) + seq![','] + canonical(items.last())
    }
}

/// Each entry's key with the canonical text of its value, in entry order.
pub open spec fn canonical_pairs(entries: Seq<EntryV>) -> Seq<PairV>
    decreases entries,
{
    if entries.len() == 0 {
        Seq::empty()
    } else {
        canonical_pairs(entries.drop_last()).push(
            (entries.last().0, canonical(entries.last().1)),
        )
    }
}

/// `"key":value` for each pair, separated by commas.
pub open spec fn joined_pairs(pairs: Seq<PairV>) -> Seq<char>
    decreases pairs.len(),
{
    if pairs.len() == 0 {
        Seq::empty()
    } else if pairs.len() == 1 {
        quoted(pairs[0].0) + seq![':'] + pairs[0].1
    } else {
        joined_pairs(pairs.drop_last()) + seq![','] + quoted(pairs.last().0) + seq![':']
            + pairs.last().1
    }
}

pub proof fn lemma_canonical_pairs(entries: Seq<EntryV>)
    ensures
        canonical_pairs(entries).len() == entries.len(),
        forall|i: int|
            0 <= i < entries.len() ==> #[trigger] canonical_pairs(entries)[i] == (
                entries[i].0,
                canonical(entries[i].1),
            ),
    decreases entries.len(),
{
    if entries.len() > 0 {
        lemma_canonical_pairs(entries.drop_last());
    }
}

/// The models of a list of `(key, text)` pairs.
pub open spec fn pair_views(v: Seq<(String, String)>) -> Seq<PairV> {
    v.map_values(|p: (String, String)| (p.0@, p.1@))
}

/// `a` comes strictly before `b` (the order of Rust's `String`).
pub fn key_less(a: &str, b: &str) -> (res: bool)
    ensures
        res == lex_lt(a@, b@),
{
    let x = chars_of(a);
    let y = chars_of(b);
    let mut i: usize = 0;
    assert(a@.skip(0) =~= a@);
    assert(b@.skip(0) =~= b@);
    while i < x.len() && i < y.len() && x[i] == y[i]
        invariant
            x@ == a@,
            y@ == b@,
            i <= x@.len(),
            i <= y@.len(),
            lex_lt(a@, b@) == lex_lt(a@.skip(i as int), b@.skip(i as int)),
        decreases x@.len() - i,
    {
        proof {
            let sa = a@.skip(i as int);
            let sb = b@.skip(i as int);
            assert(sa.drop_first() =~= a@.skip(i + 1));
            assert(sb.drop_first() =~= b@.skip(i + 1));
        }
        i = i + 1;
    }
    let ghost sa = a@.skip(i as int);
    let ghost sb = b@.skip(i as int);
    if i == x.len() {
        i < y.len()
    } else if i == y.len() {
        false
    } else {
        assert(sa[0] == x@[i as int] && sb[0] == y@[i as int]);
        x[i] < y[i]
    }
}

/// Whether `p` comes before or equals `q` in the pair order.
pub fn pair_leq(p: &(String, String), q: &(String, String)) -> (res: bool)
    ensures
        res == pair_le((p.0@, p.1@), (q.0@, q.1@)),
{
    if key_less(p.0.as_str(), q.0.as_str()) {
        true
    } else if crate::text::text_eq(p.0.as_str(), q.0.as_str()) {
        crate::text::text_eq(p.1.as_str(), q.1.as_str()) || key_less(p.1.as_str(), q.1.as_str())
    } else {
        false
    }
}

proof fn lemma_insert_multiset<A>(s: Seq<A>, pos: int, x: A)
    requires
        0 <= pos <= s.len(),
    ensures
        s.insert(pos, x).to_multiset() == s.to_multiset().insert(x),
{
    broadcast use vstd::seq_lib::group_to_multiset_ensures;

    let t = s.insert(pos, x);
    assert(t.remove(pos) =~= s);
    assert(t[pos] == x);
    assert(t.to_multiset().remove(x).insert(x) =~= t.to_multiset()) by {
        assert(t.to_multiset().contains(x)) by {
            assert(t.contains(x));
        }
    }
}

/// Inserts `x` into a list kept sorted by [`pair_le`].
fn insert_sorted(sorted: &mut Vec<(String, String)>, x: (String, String))
    requires
        sorted_by(pair_views(old(sorted)@), pair_order()),
    ensures
        sorted_by(pair_views(final(sorted)@), pair_order()),
        pair_views(final(sorted)@).to_multiset() == pair_views(old(sorted)@).to_multiset().insert(
            (x.0@, x.1@),
        ),
{
    proof {
        lemma_pair_order_total();
    }
    let ghost xv = (x.0@, x.1@);
    let ghost before = pair_views(sorted@);
    let n = sorted.len();
    let mut pos: usize = 0;
    while pos < n
        invariant_except_break
            xv == (x.0@, x.1@),
            pos <= n,
            n == sorted@.len(),
            before == pair_views(sorted@),
            forall|k: int| 0 <= k < pos ==> pair_le(#[trigger] before[k], xv),
        ensures
            pos <= n,
            n == sorted@.len(),
            before == pair_views(sorted@),
            forall|k: int| 0 <= k < pos ==> pair_le(#[trigger] before[k], xv),
            pos < n ==> !pair_le(before[pos as int], xv),
        decreases n - pos,
    {
        assert(before[pos as int] == (sorted@[pos as int].0@, sorted@[pos as int].1@));
        let le = pair_leq(&sorted[pos], &x);
        if !le {
            break;
        }
        pos = pos + 1;
    }
    sorted.insert(pos, x);
    proof {
        let after = pair_views(sorted@);
        assert(after =~= before.insert(pos as int, xv));
        lemma_insert_multiset(before, pos as int, xv);
        let r = pair_order();
        assert forall|i: int, j: int| 0 <= i < j < after.len() implies #[trigger] r(
            after[i],
            after[j],
        ) by {
            if j < pos {
                assert(r(before[i], before[j]));
            } else if j == pos {
                assert(pair_le(before[i], xv));
            } else if i == pos {
                assert(!pair_le(before[pos as int], xv));
                assert(r(xv, before[pos as int]) || r(before[pos as int], xv));
                assert(r(xv, before[pos as int]));
                if j - 1 > pos {
                    assert(r(before[pos as int], before[j - 1]));
                }
            } else if i < pos {
                assert(pair_le(before[i], xv));
                assert(!pair_le(before[pos as int], xv));
                assert(r(xv, before[pos as int]) || r(before[pos as int], xv));
                assert(r(xv, before[pos as int]));
                if j - 1 > pos {
                    assert(r(before[pos as int], before[j - 1]));
                }
            } else {
                assert(r(before[i - 1], before[j - 1]));
            }
        }
    }
}

/// Appends `"key":value` for each pair, separated by commas.
fn write_pairs(pairs: &Vec<(String, String)>, out: &mut String)
    ensures
        final(out)@ == old(out)@ + joined_pairs(pair_views(pairs@)),
{
    let ghost pv = pair_views(pairs@);
    let ghost start = out@;
    let mut i: usize = 0;
    while i < pairs.len()
        invariant
            i <= pairs@.len(),
            pv == pair_views(pairs@),
            out@ == start + joined_pairs(pv.take(i as int)),
        decreases pairs@.len() - i,
    {
        if i > 0 {
            push_char(out, ',');
        }
        let q = json_quote(pairs[i].0.as_str());
        push_str(out, q.as_str());
        push_char(out, ':');
        push_str(out, pairs[i].1.as_str());
        proof {
            let t = pv.take(i + 1);
            assert(t.drop_last() =~= pv.take(i as int));
            assert(t.last() == pv[i as int]);
            if i == 0 {
                assert(t.len() == 1);
            }
        }
        i = i + 1;
    }
    assert(pv.take(pairs@.len() as int) =~= pv);
}

/// Canonical text of array elements, separated by commas.
fn write_canonical_items(items: &Vec<Json>, out: &mut String)
    ensures
        final(out)@ == old(out)@ + canonical_items(view_items(items@)),
    decreases *items,
{
    proof {
        lemma_view_items(items@);
    }
    let ghost vs = view_items(items@);
    let ghost start = out@;
    let mut i: usize = 0;
    while i < items.len()
        invariant
            i <= items@.len(),
            vs == view_items(items@),
            vs.len() == items@.len(),
            forall|k: int| 0 <= k < items@.len() ==> #[trigger] vs[k] == items@[k]@,
            out@ == start + canonical_items(vs.take(i as int)),
        decreases items@.len() - i,
    {
        if i > 0 {
            push_char(out, ',');
        }
        proof {
            assert(decreases_to!(*items => items@));
            assert(decreases_to!(items@ => items@[i as int]));
        }
        write_canonical(&items[i], out);
        proof {
            let t = vs.take(i + 1);
            assert(t.drop_last() =~= vs.take(i as int));
            assert(t.last() == vs[i as int]);
            if i == 0 {
                assert(t.len() == 1);
            }
        }
        i = i + 1;
    }
    assert(vs.take(items@.len() as int) =~= vs);
}

/// Canonical text of object entries, in key order.
fn write_canonical_entries(entries: &Vec<(String, Json)>, out: &mut String)
    ensures
        final(out)@ == old(out)@ + joined_pairs(
            canonical_pairs(view_entries(entries@)).sort_by(pair_order()),
        ),
    decreases *entries,
{
    proof {
        lemma_view_entries(entries@);
        lemma_pair_order_total();
    }
    let ghost vs = view_entries(entries@);
    let mut sorted: Vec<(String, String)> = Vec::new();
    let mut i: usize = 0;
    assert(vs.take(0) =~= Seq::<EntryV>::empty());
    assert(pair_views(sorted@) =~= Seq::<PairV>::empty());
    while i < entries.len()
        invariant
            i <= entries@.len(),
            vs == view_entries(entries@),
            vs.len() == entries@.len(),
            forall|k: int|
                0 <= k < entries@.len() ==> #[trigger] vs[k] == (
                    entries@[k].0@,
                    entries@[k].1@,
                ),
            sorted_by(pair_views(sorted@), pair_order()),
            pair_views(sorted@).to_multiset() == canonical_pairs(vs.take(i as int)).to_multiset(),
        decreases entries@.len() - i,
    {
        let mut text = String::new();
        proof {
            assert(decreases_to!(*entries => entries@));
            assert(decreases_to!(entries@ => entries@[i as int]));
            assert(decreases_to!(entries@[i as int] => entries@[i as int].1));
        }
        write_canonical(&entries[i].1, &mut text);
        let key = entries[i].0.clone();
        proof {
            broadcast use vstd::seq_lib::group_to_multiset_ensures;

            let t = vs.take(i + 1);
            assert(t.drop_last() =~= vs.take(i as int));
            assert(canonical_pairs(t) == canonical_pairs(vs.take(i as int)).push(
                (vs[i as int].0, canonical(vs[i as int].1)),
            ));
        }
        insert_sorted(&mut sorted, (key, text));
        i = i + 1;
    }
    proof {
        assert(vs.take(entries@.len() as int) =~= vs);
        let cp = canonical_pairs(vs);
        cp.lemma_sort_by_ensures(pair_order());
        lemma_sorted_unique(pair_views(sorted@), cp.sort_by(pair_order()), pair_order());
    }
    write_pairs(&sorted, out);
}

/// Appends the canonical text of `j`.
fn write_canonical(j: &Json, out: &mut String)
    ensures
        final(out)@ == old(out)@ + canonical(j@),
    decreases *j,
{
    match j {
        Json::Array(items) => {
            push_char(out, '[');
            write_canonical_items(items, out);
            push_char(out, ']');
        },
        Json::Object(entries) => {
            push_char(out, '{');
            write_canonical_entries(entries, out);
            push_char(out, '}');
        },
        _ => write_scalar(j, out),
    }
}

/// The canonical JSON text of a value: object keys sorted at every depth, so
/// that values with the same content give the same text whatever the order
/// of their keys.
pub fn canonical_stringify(value: &Json) -> (res: String)
    ensures
        res@ == canonical(value@),
{
    let mut out = String::new();
    write_canonical(value, &mut out);
    out
}

// ---------------------------------------------------------------------------
// SHA-256 over the canonical text
// ---------------------------------------------------------------------------

/// The SHA-256 digest of a byte sequence.
pub uninterp spec fn sha256(data: Seq<u8>) -> Seq<u8>;

/// Calls sha2's `Sha256::digest`. The digest is named [`sha256`]; its length
/// is 32 bytes, as the algorithm fixes.
#[verifier::external_body]
fn sha256_digest(data: &[u8]) -> (res: Vec<u8>)
    ensures
        res@ == sha256(data@),
        res@.len() == 32,
{
    <sha2::Sha256 as sha2::Digest>::digest(data).to_vec()
}

/// Lower-case hexadecimal text of a byte sequence.
pub open spec fn hex_lower(data: Seq<u8>) -> Seq<char>
    decreases data.len(),
{
    if data.len() == 0 {
        Seq::empty()
    } else {
        hex_lower(data.drop_last()) + seq![
            hex_lower_digit(data.last() as int / 16),
            hex_lower_digit(data.last() as int % 16),
        ]
    }
}

/// Calls `hex::encode`: two lower-case hex digits per byte, high nibble first.
#[verifier::external_body]
fn hex_encode(data: &[u8]) -> (res: String)
    ensures
        res@ == hex_lower(data@),
{
    hex::encode(data)
}

/// The digest of a style: SHA-256 over the UTF-8 bytes of its canonical
/// text, in lower-case hex.
pub open spec fn style_hash(style: JsonV) -> Seq<char> {
    hex_lower(sha256(vstd::utf8::encode_utf8(canonical(style))))
}

/// SHA-256 over the canonical text of a style, in lower-case hex.
pub fn hash_style_json(style_json: &Json) -> (res: String)
    ensures
        res@ == style_hash(style_json@),
        res@.len() == 64,
{
    let canonical_text = canonical_stringify(style_json);
    let digest = sha256_digest(canonical_text.as_str().as_bytes());
    let hex = hex_encode(digest.as_slice());
    proof {
        lemma_hex_lower_len(digest@);
    }
    hex
}

proof fn lemma_hex_lower_len(data: Seq<u8>)
    ensures
        hex_lower(data).len() == 2 * data.len(),
    decreases data.len(),
{
    if data.len() > 0 {
        lemma_hex_lower_len(data.drop_last());
    }
}

// ---------------------------------------------------------------------------
// Laws: the canonical text does not depend on the order of object keys
// ---------------------------------------------------------------------------

/// `p` is a permutation of the positions `0..n`.
pub open spec fn is_permutation(p: Seq<int>, n: nat) -> bool {
    &&& p.len() == n
    &&& forall|i: int| 0 <= i < n ==> 0 <= #[trigger] p[i] < n
    &&& forall|i: int, j: int| 0 <= i < n && 0 <= j < n && i != j ==> p[i] != p[j]
}

/// Two values with the same content: equal scalars, arrays with equivalent
/// elements in the same order, and objects whose entries are the same keys
/// with equivalent values in any order.
pub open spec fn same_content(x: JsonV, y: JsonV) -> bool
    decreases x,
{
    match x {
        JsonV::Array(a) => match y {
            JsonV::Array(b) => a.len() == b.len() && forall|i: int|
                0 <= i < a.len() ==> same_content(#[trigger] a[i], b[i]),
            _ => false,
        },
        JsonV::Object(a) => match y {
            JsonV::Object(b) => a.len() == b.len() && exists|p: Seq<int>|
                is_permutation(p, a.len()) && forall|i: int|
                    0 <= i < a.len() ==> (#[trigger] a[i]).0 == b[p[i]].0 && same_content(
                        a[i].1,
                        b[p[i]].1,
                    ),
            _ => false,
        },
        _ => x == y,
    }
}

/// Two sequences related by a permutation of positions hold the same elements.
proof fn lemma_permutation_multiset<A>(s: Seq<A>, t: Seq<A>, p: Seq<int>)
    requires
        s.len() == t.len(),
        is_permutation(p, s.len()),
        forall|i: int| 0 <= i < s.len() ==> s[i] == t[#[trigger] p[i]],
    ensures
        s.to_multiset() == t.to_multiset(),
    decreases s.len(),
{
    broadcast use vstd::seq_lib::group_to_multiset_ensures;

    if s.len() > 0 {
        let n = s.len() - 1;
        let j = p[n];
        let s2 = s.drop_last();
        let t2 = t.remove(j);
        let p2 = Seq::new(n as nat, |i: int| if p[i] < j { p[i] } else { p[i] - 1 });
        assert forall|i: int| 0 <= i < n implies 0 <= #[trigger] p2[i] < n by {
            assert(p[i] != j);
        }
        assert forall|i: int, k: int| 0 <= i < n && 0 <= k < n && i != k implies p2[i] != p2[k] by {
            assert(p[i] != p[k]);
            assert(p[i] != j && p[k] != j);
        }
        assert forall|i: int| 0 <= i < n implies s2[i] == t2[#[trigger] p2[i]] by {
            assert(p[i] != j);
            assert(s2[i] == t[p[i]]);
        }
        lemma_permutation_multiset(s2, t2, p2);
        assert(s =~= s2.push(s[n]));
        assert(t2.to_multiset() == t.to_multiset().remove(t[j]));
        assert(t.to_multiset().contains(t[j])) by {
            assert(t.contains(t[j]));
        }
        assert(t.to_multiset().remove(t[j]).insert(t[j]) =~= t.to_multiset());
    }
}

/// Values with the same content have the same canonical text.
pub proof fn law_canonical_same_content(x: JsonV, y: JsonV)
    requires
        same_content(x, y),
    ensures
        canonical(x) == canonical(y),
    decreases x,
{
    match x {
        JsonV::Array(a) => {
            let b = y->Array_0;
            lemma_canonical_items_same(a, b);
        },
        JsonV::Object(a) => {
            let b = y->Object_0;
            let p = choose|p: Seq<int>|
                is_permutation(p, a.len()) && forall|i: int|
                    0 <= i < a.len() ==> (#[trigger] a[i]).0 == b[p[i]].0 && same_content(
                        a[i].1,
                        b[p[i]].1,
                    );
            let ca = canonical_pairs(a);
            let cb = canonical_pairs(b);
            lemma_canonical_pairs(a);
            lemma_canonical_pairs(b);
            assert forall|i: int| 0 <= i < ca.len() implies ca[i] == cb[#[trigger] p[i]] by {
                assert(decreases_to!(x => a));
                assert(decreases_to!(a => a[i]));
                assert(decreases_to!(a[i] => a[i].1));
                law_canonical_same_content(a[i].1, b[p[i]].1);
            }
            lemma_permutation_multiset(ca, cb, p);
            lemma_pair_order_total();
            ca.lemma_sort_by_ensures(pair_order());
            cb.lemma_sort_by_ensures(pair_order());
            lemma_sorted_unique(ca.sort_by(pair_order()), cb.sort_by(pair_order()), pair_order());
        },
        _ => {},
    }
}

proof fn lemma_canonical_items_same(a: Seq<JsonV>, b: Seq<JsonV>)
    requires
        a.len() == b.len(),
        forall|i: int| 0 <= i < a.len() ==> same_content(#[trigger] a[i], b[i]),
    ensures
        canonical_items(a) == canonical_items(b),
    decreases a,
{
    if a.len() > 0 {
        assert forall|i: int| 0 <= i < a.len() - 1 implies same_content(
            #[trigger] a.drop_last()[i],
            b.drop_last()[i],
        ) by {
            assert(a.drop_last()[i] == a[i]);
        }
        lemma_canonical_items_same(a.drop_last(), b.drop_last());
        law_canonical_same_content(a.last(), b.last());
        law_canonical_same_content(a[0], b[0]);
    }
}

/// Values with the same content have the same style digest.
pub proof fn law_hash_same_content(x: JsonV, y: JsonV)
    requires
        same_content(x, y),
    ensures
        style_hash(x) == style_hash(y),
{
    law_canonical_same_content(x, y);
}

// ---------------------------------------------------------------------------
// Laws: the shape of the canonical text
// ---------------------------------------------------------------------------

/// Every object, at every depth, lists its keys in strictly ascending order.
pub open spec fn key_sorted(j: JsonV) -> bool
    decreases j,
{
    match j {
        JsonV::Array(items) => forall|i: int| 0 <= i < items.len() ==> key_sorted(#[trigger] items[i]),
        JsonV::Object(es) => (forall|i: int, k: int|
            #![trigger es[i], es[k]]
            0 <= i < k < es.len() ==> lex_lt(es[i].0, es[k].0)) && forall|i: int|
            0 <= i < es.len() ==> key_sorted(#[trigger] es[i].1),
        _ => true,
    }
}

proof fn lemma_items_text(a: Seq<JsonV>)
    requires
        forall|i: int| 0 <= i < a.len() ==> canonical(#[trigger] a[i]) == compact(a[i]),
    ensures
        canonical_items(a) == compact_items(a),
    decreases a.len(),
{
    if a.len() > 1 {
        assert forall|i: int| 0 <= i < a.drop_last().len() implies canonical(
            #[trigger] a.drop_last()[i],
        ) == compact(a.drop_last()[i]) by {
            assert(a.drop_last()[i] == a[i]);
        }
        lemma_items_text(a.drop_last());
        assert(a.last() == a[a.len() - 1]);
    } else if a.len() == 1 {
        assert(canonical(a[0]) == compact(a[0]));
    }
}

proof fn lemma_pairs_text(es: Seq<EntryV>, ps: Seq<PairV>)
    requires
        ps.len() == es.len(),
        forall|i: int| 0 <= i < es.len() ==> #[trigger] ps[i] == (es[i].0, compact(es[i].1)),
    ensures
        joined_pairs(ps) == compact_entries(es),
    decreases es.len(),
{
    if es.len() > 1 {
        assert forall|i: int| 0 <= i < es.drop_last().len() implies #[trigger] ps.drop_last()[i] == (
            es.drop_last()[i].0,
            compact(es.drop_last()[i].1),
        ) by {
            assert(ps.drop_last()[i] == ps[i]);
            assert(es.drop_last()[i] == es[i]);
        }
        lemma_pairs_text(es.drop_last(), ps.drop_last());
        assert(ps.last() == ps[ps.len() - 1]);
        assert(es.last() == es[es.len() - 1]);
    } else if es.len() == 1 {
        assert(ps[0] == (es[0].0, compact(es[0].1)));
    }
}

/// Law: for a value whose objects already list their keys in strictly
/// ascending order at every depth, the canonical text is exactly the compact
/// JSON text (no whitespace outside string literals, members in the
/// value's own order).
pub proof fn law_canonical_of_sorted(x: JsonV)
    requires
        key_sorted(x),
    ensures
        canonical(x) == compact(x),
    decreases x,
{
    match x {
        JsonV::Array(a) => {
            assert forall|i: int| 0 <= i < a.len() implies canonical(#[trigger] a[i]) == compact(
                a[i],
            ) by {
                assert(decreases_to!(x => a));
                assert(decreases_to!(a => a[i]));
                law_canonical_of_sorted(a[i]);
            }
            lemma_items_text(a);
        },
        JsonV::Object(es) => {
            assert forall|i: int| 0 <= i < es.len() implies canonical(#[trigger] es[i].1) == compact(
                es[i].1,
            ) by {
                assert(decreases_to!(x => es));
                assert(decreases_to!(es => es[i]));
                assert(decreases_to!(es[i] => es[i].1));
                law_canonical_of_sorted(es[i].1);
            }
            let cp = canonical_pairs(es);
            lemma_canonical_pairs(es);
            lemma_pair_order_total();
            assert(sorted_by(cp, pair_order())) by {
                assert forall|i: int, k: int| 0 <= i < k < cp.len() implies #[trigger] (pair_order())(
                    cp[i],
                    cp[k],
                ) by {
                    assert(lex_lt(es[i].0, es[k].0));
                }
            }
            cp.lemma_sort_by_ensures(pair_order());
            lemma_sorted_unique(cp.sort_by(pair_order()), cp, pair_order());
            lemma_pairs_text(es, cp);
        },
        _ => {},
    }
}

/// Law: the canonical text of an object with distinct keys writes each
/// member once, as its key and the canonical text of its value, with the
/// keys in strictly ascending order; the values' texts being canonical too,
/// this holds at every depth.
pub proof fn law_canonical_keys_ascending(entries: Seq<EntryV>)
    requires
        unique_keys(entries),
    ensures
        ({
            let s = canonical_pairs(entries).sort_by(pair_order());
            &&& canonical(JsonV::Object(entries)) == seq!['{'] + joined_pairs(s) + seq!['}']
            &&& s.to_multiset() == canonical_pairs(entries).to_multiset()
            &&& forall|i: int, k: int| 0 <= i < k < s.len() ==> lex_lt(s[i].0, s[k].0)
        }),
{
    broadcast use vstd::seq_lib::group_to_multiset_ensures;

    let cp = canonical_pairs(entries);
    lemma_canonical_pairs(entries);
    lemma_pair_order_total();
    cp.lemma_sort_by_ensures(pair_order());
    let s = cp.sort_by(pair_order());
    assert(cp.no_duplicates()) by {
        assert forall|i: int, k: int| 0 <= i < cp.len() && 0 <= k < cp.len() && i != k implies cp[i]
            != cp[k] by {
            assert(entries[i].0 != entries[k].0);
        }
    }
    cp.lemma_multiset_has_no_duplicates();
    s.lemma_multiset_has_no_duplicates_conv();
    assert forall|i: int, k: int| 0 <= i < k < s.len() implies lex_lt(s[i].0, s[k].0) by {
        assert((pair_order())(s[i], s[k]));
        if !lex_lt(s[i].0, s[k].0) {
            assert(s[i].0 == s[k].0);
            assert(s[i] != s[k]);
            assert(s.to_multiset().count(s[i]) > 0);
            assert(s.to_multiset().count(s[k]) > 0);
            assert(cp.contains(s[i]));
            assert(cp.contains(s[k]));
            let a = choose|a: int| 0 <= a < cp.len() && cp[a] == s[i];
            let b = choose|b: int| 0 <= b < cp.len() && cp[b] == s[k];
            assert(entries[a].0 == entries[b].0);
        }
    }
}

// ---------------------------------------------------------------------------
// Law: the canonical text is the compact text of the key-sorted value
// ---------------------------------------------------------------------------

/// Keys are distinct in every object, at every depth (as in any value that
/// serde_json parsed).
pub open spec fn unique_keys_deep(j: JsonV) -> bool
    decreases j,
{
    match j {
        JsonV::Array(items) => forall|i: int|
            0 <= i < items.len() ==> unique_keys_deep(#[trigger] items[i]),
        JsonV::Object(es) => unique_keys(es) && forall|i: int|
            0 <= i < es.len() ==> unique_keys_deep(#[trigger] es[i].1),
        _ => true,
    }
}

/// The value with every object's members put in key order, at every depth.
pub open spec fn sorted_value(j: JsonV) -> JsonV
    decreases j,
{
    match j {
        JsonV::Array(items) => JsonV::Array(sorted_items(items)),
        JsonV::Object(es) => JsonV::Object(sort_by_key(sorted_members(es))),
        _ => j,
    }
}

pub open spec fn sorted_items(items: Seq<JsonV>) -> Seq<JsonV>
    decreases items,
{
    if items.len() == 0 {
        Seq::empty()
    } else {
        sorted_items(items.drop_last()).push(sorted_value(items.last()))
    }
}

/// The members with their values sorted, in the members' order.
pub open spec fn sorted_members(es: Seq<EntryV>) -> Seq<EntryV>
    decreases es,
{
    if es.len() == 0 {
        Seq::empty()
    } else {
        sorted_members(es.drop_last()).push((es.last().0, sorted_value(es.last().1)))
    }
}

/// Inserts a member behind the last one whose key comes before its key.
pub open spec fn insert_by_key(s: Seq<EntryV>, e: EntryV) -> Seq<EntryV>
    decreases s.len(),
{
    if s.len() == 0 {
        seq![e]
    } else if lex_lt(s.last().0, e.0) {
        s.push(e)
    } else {
        insert_by_key(s.drop_last(), e).push(s.last())
    }
}

/// The members in key order (insertion sort).
pub open spec fn sort_by_key(ms: Seq<EntryV>) -> Seq<EntryV>
    decreases ms.len(),
{
    if ms.len() == 0 {
        Seq::empty()
    } else {
        insert_by_key(sort_by_key(ms.drop_last()), ms.last())
    }
}

/// The keys strictly ascend.
pub open spec fn keys_ascending(s: Seq<EntryV>) -> bool {
    forall|i: int, k: int| #![trigger s[i], s[k]] 0 <= i < k < s.len() ==> lex_lt(s[i].0, s[k].0)
}

proof fn lemma_sorted_items(items: Seq<JsonV>)
    ensures
        sorted_items(items).len() == items.len(),
        forall|i: int| 0 <= i < items.len() ==> #[trigger] sorted_items(items)[i] == sorted_value(items[i]),
    decreases items.len(),
{
    if items.len() > 0 {
        lemma_sorted_items(items.drop_last());
    }
}

proof fn lemma_sorted_members(es: Seq<EntryV>)
    ensures
        sorted_members(es).len() == es.len(),
        forall|i: int|
            0 <= i < es.len() ==> #[trigger] sorted_members(es)[i] == (es[i].0, sorted_value(es[i].1)),
    decreases es.len(),
{
    if es.len() > 0 {
        lemma_sorted_members(es.drop_last());
    }
}

proof fn lemma_insert_by_key(s: Seq<EntryV>, e: EntryV)
    ensures
        insert_by_key(s, e).to_multiset() == s.to_multiset().insert(e),
        keys_ascending(s) && (forall|i: int| 0 <= i < s.len() ==> s[i].0 != e.0) ==> keys_ascending(
            insert_by_key(s, e),
        ),
    decreases s.len(),
{
    broadcast use vstd::seq_lib::group_to_multiset_ensures;
    broadcast use vstd::multiset::group_multiset_axioms;

    if s.len() == 0 {
        assert(seq![e] =~= Seq::<EntryV>::empty().push(e));
    } else if lex_lt(s.last().0, e.0) {
        if keys_ascending(s) {
            assert forall|i: int, k: int| 0 <= i < k < s.push(e).len() implies #[trigger] lex_lt(
                s.push(e)[i].0,
                s.push(e)[k].0,
            ) by {
                if k == s.len() {
                    if i < s.len() - 1 {
                        lemma_lex_transitive(s[i].0, s.last().0, e.0);
                    }
                }
            }
        }
    } else {
        let d = s.drop_last();
        assert(s =~= d.push(s.last()));
        lemma_insert_by_key(d, e);
        let r = insert_by_key(d, e);
        assert(r.push(s.last()).to_multiset() =~= s.to_multiset().insert(e));
        if keys_ascending(s) && (forall|i: int| 0 <= i < s.len() ==> s[i].0 != e.0) {
            assert(keys_ascending(d)) by {
                assert forall|i: int, k: int| 0 <= i < k < d.len() implies #[trigger] lex_lt(
                    d[i].0,
                    d[k].0,
                ) by {
                    assert(d[i] == s[i] && d[k] == s[k]);
                }
            }
            assert(forall|i: int| 0 <= i < d.len() ==> d[i].0 != e.0) by {
                assert forall|i: int| 0 <= i < d.len() implies d[i].0 != e.0 by {
                    assert(d[i] == s[i]);
                }
            }
            lemma_lex_total(s.last().0, e.0);
            assert(s.last().0 != e.0) by {
                assert(s[s.len() - 1].0 != e.0);
            }
            assert(lex_lt(e.0, s.last().0));
            // every member of r is e or one of d, whose keys come before s.last()
            assert forall|j: int| 0 <= j < r.len() implies lex_lt(#[trigger] r[j].0, s.last().0) by {
                assert(r.to_multiset().count(r[j]) > 0);
                if r[j] != e {
                    assert(d.to_multiset().count(r[j]) > 0);
                    assert(d.contains(r[j]));
                    let m = choose|m: int| 0 <= m < d.len() && d[m] == r[j];
                    assert(s[m] == d[m]);
                    assert(lex_lt(s[m].0, s[s.len() - 1].0));
                }
            }
            let t = r.push(s.last());
            assert forall|i: int, k: int| 0 <= i < k < t.len() implies #[trigger] lex_lt(t[i].0, t[k].0) by {
                if k == r.len() {
                    assert(t[i] == r[i]);
                } else {
                    assert(t[i] == r[i] && t[k] == r[k]);
                }
            }
        }
    }
}

proof fn lemma_sort_by_key(ms: Seq<EntryV>)
    ensures
        sort_by_key(ms).to_multiset() == ms.to_multiset(),
        unique_keys(ms) ==> keys_ascending(sort_by_key(ms)),
    decreases ms.len(),
{
    broadcast use vstd::seq_lib::group_to_multiset_ensures;

    if ms.len() == 0 {
        assert(sort_by_key(ms) =~= ms);
    } else {
        let d = ms.drop_last();
        lemma_sort_by_key(d);
        let sd = sort_by_key(d);
        lemma_insert_by_key(sd, ms.last());
        assert(ms =~= d.push(ms.last()));
        if unique_keys(ms) {
            assert(unique_keys(d)) by {
                assert forall|i: int, j: int|
                    0 <= i < d.len() && 0 <= j < d.len() && i != j implies d[i].0 != d[j].0 by {
                    assert(d[i] == ms[i] && d[j] == ms[j]);
                }
            }
            assert forall|i: int| 0 <= i < sd.len() implies sd[i].0 != ms.last().0 by {
                assert(sd.to_multiset().count(sd[i]) > 0);
                assert(d.contains(sd[i]));
                let m = choose|m: int| 0 <= m < d.len() && d[m] == sd[i];
                assert(ms[m] == d[m]);
                assert(ms[m].0 != ms[ms.len() - 1].0);
            }
        }
    }
}

/// Sorting keeps the content and puts keys in strictly ascending order at
/// every depth.
proof fn lemma_sorted_value(x: JsonV)
    requires
        unique_keys_deep(x),
    ensures
        same_content(x, sorted_value(x)),
        key_sorted(sorted_value(x)),
    decreases x,
{
    broadcast use vstd::seq_lib::group_to_multiset_ensures;

    match x {
        JsonV::Array(items) => {
            lemma_sorted_items(items);
            assert forall|i: int| 0 <= i < items.len() implies same_content(
                #[trigger] items[i],
                sorted_items(items)[i],
            ) && key_sorted(sorted_items(items)[i]) by {
                assert(decreases_to!(x => items));
                assert(decreases_to!(items => items[i]));
                lemma_sorted_value(items[i]);
            }
            assert forall|i: int| 0 <= i < sorted_items(items).len() implies key_sorted(
                #[trigger] sorted_items(items)[i],
            ) by {
                assert(same_content(items[i], sorted_items(items)[i]));
            }
        },
        JsonV::Object(es) => {
            let ms = sorted_members(es);
            lemma_sorted_members(es);
            assert(unique_keys(ms)) by {
                assert forall|i: int, j: int|
                    0 <= i < ms.len() && 0 <= j < ms.len() && i != j implies ms[i].0 != ms[j].0 by {
                    assert(es[i].0 != es[j].0);
                }
            }
            assert forall|i: int| 0 <= i < es.len() implies same_content(
                #[trigger] es[i].1,
                sorted_value(es[i].1),
            ) && key_sorted(sorted_value(es[i].1)) by {
                assert(decreases_to!(x => es));
                assert(decreases_to!(es => es[i]));
                assert(decreases_to!(es[i] => es[i].1));
                lemma_sorted_value(es[i].1);
            }
            lemma_sort_by_key(ms);
            let t = sort_by_key(ms);
            assert(t.len() == ms.len()) by {
                assert(t.to_multiset().len() == ms.to_multiset().len());
            }
            // each sorted member is one of the members
            assert forall|k: int| 0 <= k < t.len() implies exists|m: int|
                0 <= m < ms.len() && ms[m] == #[trigger] t[k] by {
                assert(t.to_multiset().count(t[k]) > 0);
                assert(ms.contains(t[k]));
            }
            assert forall|k: int| 0 <= k < t.len() implies key_sorted(#[trigger] t[k].1) by {
                let m = choose|m: int| 0 <= m < ms.len() && ms[m] == t[k];
                assert(ms[m].1 == sorted_value(es[m].1));
            }
            assert(key_sorted(JsonV::Object(t)));
            // the position of each member among the sorted ones
            assert forall|i: int| 0 <= i < ms.len() implies exists|k: int|
                0 <= k < t.len() && t[k] == #[trigger] ms[i] by {
                assert(ms.to_multiset().count(ms[i]) > 0);
                assert(t.contains(ms[i]));
            }
            let p = Seq::new(es.len(), |i: int| choose|k: int| 0 <= k < t.len() && t[k] == ms[i]);
            assert forall|i: int| 0 <= i < es.len() implies 0 <= #[trigger] p[i] < es.len() && t[p[i]]
                == ms[i] by {
                assert(exists|k: int| 0 <= k < t.len() && t[k] == ms[i]);
            }
            assert forall|i: int, j: int|
                0 <= i < es.len() && 0 <= j < es.len() && i != j implies p[i] != p[j] by {
                assert(t[p[i]] == ms[i] && t[p[j]] == ms[j]);
                assert(ms[i].0 != ms[j].0);
            }
            assert(is_permutation(p, es.len()));
            assert forall|i: int| 0 <= i < es.len() implies (#[trigger] es[i]).0 == t[p[i]].0
                && same_content(es[i].1, t[p[i]].1) by {
                assert(t[p[i]] == ms[i]);
                assert(same_content(es[i].1, sorted_value(es[i].1)));
            }
            assert(same_content(x, JsonV::Object(t)));
        },
        _ => {},
    }
}

/// Law: the canonical text of a value (with distinct keys in every object,
/// as serde_json's values have) is the compact JSON text of a value with
/// the same content whose members, in every object at every depth, stand in
/// strictly ascending key order. Reading that text back as JSON therefore
/// gives the value again, up to the order of object members.
pub proof fn law_canonical_is_compact_of_sorted(x: JsonV)
    requires
        unique_keys_deep(x),
    ensures
        same_content(x, sorted_value(x)),
        key_sorted(sorted_value(x)),
        canonical(x) == compact(sorted_value(x)),
{
    lemma_sorted_value(x);
    law_canonical_same_content(x, sorted_value(x));
    law_canonical_of_sorted(sorted_value(x));
}

} // verus!
