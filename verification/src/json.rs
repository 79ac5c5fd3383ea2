use vstd::prelude::*;

use crate::text::{owned, text_eq};

verus! {

/// A JSON value as the library holds it. Objects keep their entries in
/// insertion order (as serde_json's `preserve_order` map does); numbers are
/// kept as the exact text that serde_json writes for them.
#[derive(Debug)]
pub enum Json {
    Null,
    Bool(bool),
    Number(String),
    String(String),
    Array(Vec<Json>),
    Object(Vec<(String, Json)>),
}

/// The mathematical model of a [`Json`] value.
pub enum JsonV {
    Null,
    Bool(bool),
    Number(Seq<char>),
    String(Seq<char>),
    Array(Seq<JsonV>),
    Object(Seq<(Seq<char>, JsonV)>),
}

/// An object entry as the model holds it.
pub type EntryV = (Seq<char>, JsonV);

pub open spec fn view_of(j: Json) -> JsonV
    decreases j,
{
    match j {
        Json::Null => JsonV::Null,
        Json::Bool(b) => JsonV::Bool(b),
        Json::Number(t) => JsonV::Number(t@),
        Json::String(s) => JsonV::String(s@),
        Json::Array(items) => JsonV::Array(view_items(items@)),
        Json::Object(entries) => JsonV::Object(view_entries(entries@)),
    }
}

pub open spec fn view_items(items: Seq<Json>) -> Seq<JsonV>
    decreases items,
{
    if items.len() == 0 {
        Seq::empty()
    } else {
        view_items(items.drop_last()).push(view_of(items.last()))
    }
}

pub open spec fn view_entries(entries: Seq<(String, Json)>) -> Seq<EntryV>
    decreases entries,
{
    if entries.len() == 0 {
        Seq::empty()
    } else {
        view_entries(entries.drop_last()).push((entries.last().0@, view_of(entries.last().1)))
    }
}

impl View for Json {
    type V = JsonV;

    open spec fn view(&self) -> JsonV {
        view_of(*self)
    }
}

pub proof fn lemma_view_items(items: Seq<Json>)
    ensures
        view_items(items).len() == items.len(),
        forall|i: int| 0 <= i < items.len() ==> #[trigger] view_items(items)[i] == view_of(items[i]),
    decreases items.len(),
{
    if items.len() > 0 {
        lemma_view_items(items.drop_last());
    }
}

pub proof fn lemma_view_entries(entries: Seq<(String, Json)>)
    ensures
        view_entries(entries).len() == entries.len(),
        forall|i: int|
            0 <= i < entries.len() ==> #[trigger] view_entries(entries)[i] == (
                entries[i].0@,
                view_of(entries[i].1),
            ),
    decreases entries.len(),
{
    if entries.len() > 0 {
        lemma_view_entries(entries.drop_last());
    }
}

/// Two item sequences with pointwise equal models have equal models.
pub proof fn lemma_view_items_ext(a: Seq<Json>, b: Seq<Json>)
    requires
        a.len() == b.len(),
        forall|i: int| 0 <= i < a.len() ==> view_of(#[trigger] a[i]) == view_of(b[i]),
    ensures
        view_items(a) == view_items(b),
{
    lemma_view_items(a);
    lemma_view_items(b);
    assert(view_items(a) =~= view_items(b));
}

/// Two entry sequences with pointwise equal models have equal models.
pub proof fn lemma_view_entries_ext(a: Seq<(String, Json)>, b: Seq<(String, Json)>)
    requires
        a.len() == b.len(),
        forall|i: int|
            0 <= i < a.len() ==> (#[trigger] a[i]).0@ == b[i].0@ && view_of(a[i].1) == view_of(
                b[i].1,
            ),
    ensures
        view_entries(a) == view_entries(b),
{
    lemma_view_entries(a);
    lemma_view_entries(b);
    assert(view_entries(a) =~= view_entries(b));
}

// ---------------------------------------------------------------------------
// Object lookup and insertion (serde_json `Map` with `preserve_order`)
// ---------------------------------------------------------------------------

/// The position of the entry with key `k`, if there is one.
pub open spec fn key_index(entries: Seq<EntryV>, k: Seq<char>) -> Option<int>
    decreases entries.len(),
{
    if entries.len() == 0 {
        None
    } else if entries[0].0 == k {
        Some(0)
    } else {
        match key_index(entries.drop_first(), k) {
            Some(i) => Some(i + 1),
            None => None,
        }
    }
}

/// The value stored under key `k`, if any (`Map::get`).
pub open spec fn lookup(entries: Seq<EntryV>, k: Seq<char>) -> Option<JsonV> {
    match key_index(entries, k) {
        Some(i) => Some(entries[i].1),
        None => None,
    }
}

/// `Map::insert`: an existing key keeps its position and takes the new
/// value; a new key is appended.
pub open spec fn map_insert(entries: Seq<EntryV>, k: Seq<char>, v: JsonV) -> Seq<EntryV> {
    match key_index(entries, k) {
        Some(i) => entries.update(i, (k, v)),
        None => entries.push((k, v)),
    }
}

/// `Map::shift_remove`: the entry with key `k` is taken out, the others keep
/// their order.
pub open spec fn map_remove(entries: Seq<EntryV>, k: Seq<char>) -> Seq<EntryV> {
    match key_index(entries, k) {
        Some(i) => entries.remove(i),
        None => entries,
    }
}

/// The keys of an object, in order.
pub open spec fn keys_of(entries: Seq<EntryV>) -> Seq<Seq<char>> {
    entries.map_values(|e: EntryV| e.0)
}

/// No key occurs twice.
pub open spec fn unique_keys(entries: Seq<EntryV>) -> bool {
    forall|i: int, j: int|
        0 <= i < entries.len() && 0 <= j < entries.len() && i != j ==> entries[i].0 != entries[j].0
}

pub proof fn lemma_key_index(entries: Seq<EntryV>, k: Seq<char>)
    ensures
        match key_index(entries, k) {
            Some(i) => 0 <= i < entries.len() && entries[i].0 == k && forall|j: int|
                0 <= j < i ==> entries[j].0 != k,
            None => forall|j: int| 0 <= j < entries.len() ==> entries[j].0 != k,
        },
    decreases entries.len(),
{
    if entries.len() > 0 && entries[0].0 != k {
        lemma_key_index(entries.drop_first(), k);
        match key_index(entries.drop_first(), k) {
            Some(i) => {
                assert forall|j: int| 0 <= j < i + 1 implies entries[j].0 != k by {
                    if j > 0 {
                        assert(entries[j] == entries.drop_first()[j - 1]);
                    }
                }
            },
            None => {
                assert forall|j: int| 0 <= j < entries.len() implies entries[j].0 != k by {
                    if j > 0 {
                        assert(entries[j] == entries.drop_first()[j - 1]);
                    }
                }
            },
        }
    }
}

/// The key index is the first position holding the key.
pub proof fn lemma_key_index_is_first(entries: Seq<EntryV>, k: Seq<char>, i: int)
    requires
        0 <= i < entries.len(),
        entries[i].0 == k,
        forall|j: int| 0 <= j < i ==> entries[j].0 != k,
    ensures
        key_index(entries, k) == Some(i),
{
    lemma_key_index(entries, k);
}

/// After inserting `k`, looking `k` up gives the inserted value, and every
/// other key keeps its value.
pub proof fn lemma_lookup_after_insert(entries: Seq<EntryV>, k: Seq<char>, v: JsonV, other: Seq<char>)
    ensures
        lookup(map_insert(entries, k, v), k) == Some(v),
        other != k ==> lookup(map_insert(entries, k, v), other) == lookup(entries, other),
        keys_of(map_insert(entries, k, v)).to_set() == keys_of(entries).to_set().insert(k),
        unique_keys(entries) ==> unique_keys(map_insert(entries, k, v)),
{
    let r = map_insert(entries, k, v);
    lemma_key_index(entries, k);
    lemma_key_index(entries, other);
    match key_index(entries, k) {
        Some(i) => {
            lemma_key_index_is_first(r, k, i);
            if other != k {
                match key_index(entries, other) {
                    Some(j) => lemma_key_index_is_first(r, other, j),
                    None => {
                        lemma_key_index(r, other);
                    },
                }
            }
            assert(keys_of(r).to_set() =~= keys_of(entries).to_set().insert(k)) by {
                assert forall|x: Seq<char>| keys_of(r).to_set().contains(x) implies keys_of(
                    entries,
                ).to_set().insert(k).contains(x) by {
                    let m = choose|m: int| 0 <= m < keys_of(r).len() && keys_of(r)[m] == x;
                    if m != i {
                        assert(keys_of(entries)[m] == x);
                    }
                }
                assert forall|x: Seq<char>| keys_of(entries).to_set().insert(k).contains(
                    x,
                ) implies keys_of(r).to_set().contains(x) by {
                    if x == k {
                        assert(keys_of(r)[i] == x);
                    } else {
                        let m = choose|m: int|
                            0 <= m < keys_of(entries).len() && keys_of(entries)[m] == x;
                        assert(keys_of(r)[m] == x);
                    }
                }
            }
        },
        None => {
            lemma_key_index_is_first(r, k, entries.len() as int);
            if other != k {
                match key_index(entries, other) {
                    Some(j) => lemma_key_index_is_first(r, other, j),
                    None => {
                        lemma_key_index(r, other);
                    },
                }
            }
            assert(keys_of(r).to_set() =~= keys_of(entries).to_set().insert(k)) by {
                assert forall|x: Seq<char>| keys_of(r).to_set().contains(x) implies keys_of(
                    entries,
                ).to_set().insert(k).contains(x) by {
                    let m = choose|m: int| 0 <= m < keys_of(r).len() && keys_of(r)[m] == x;
                    if m < entries.len() {
                        assert(keys_of(entries)[m] == x);
                    }
                }
                assert forall|x: Seq<char>| keys_of(entries).to_set().insert(k).contains(
                    x,
                ) implies keys_of(r).to_set().contains(x) by {
                    if x == k {
                        assert(keys_of(r)[entries.len() as int] == x);
                    } else {
                        let m = choose|m: int|
                            0 <= m < keys_of(entries).len() && keys_of(entries)[m] == x;
                        assert(keys_of(r)[m] == x);
                    }
                }
            }
        },
    }
}

/// The position of key `k` among `entries`.
pub fn find_key(entries: &Vec<(String, Json)>, k: &str) -> (res: Option<usize>)
    ensures
        match res {
            Some(i) => key_index(view_entries(entries@), k@) == Some(i as int),
            None => key_index(view_entries(entries@), k@) is None,
        },
{
    proof {
        lemma_view_entries(entries@);
        lemma_key_index(view_entries(entries@), k@);
    }
    let mut i: usize = 0;
    while i < entries.len()
        invariant
            i <= entries@.len(),
            view_entries(entries@).len() == entries@.len(),
            forall|j: int| 0 <= j < i ==> view_entries(entries@)[j].0 != k@,
            forall|j: int|
                0 <= j < entries@.len() ==> #[trigger] view_entries(entries@)[j] == (
                    entries@[j].0@,
                    view_of(entries@[j].1),
                ),
        decreases entries@.len() - i,
    {
        if text_eq(entries[i].0.as_str(), k) {
            proof {
                lemma_key_index_is_first(view_entries(entries@), k@, i as int);
            }
            return Some(i);
        }
        i = i + 1;
    }
    proof {
        lemma_key_index(view_entries(entries@), k@);
        if key_index(view_entries(entries@), k@) is Some {
            let m = key_index(view_entries(entries@), k@)->0;
            assert(view_entries(entries@)[m].0 == k@);
        }
    }
    None
}

impl Json {
    /// A copy of the value with the same model.
    #[verifier::loop_isolation(false)]
    pub fn deep_clone(&self) -> (res: Json)
        ensures
            res@ == self@,
        decreases *self,
    {
        match self {
            Json::Null => Json::Null,
            Json::Bool(b) => Json::Bool(*b),
            Json::Number(t) => Json::Number(t.clone()),
            Json::String(s) => Json::String(s.clone()),
            Json::Array(items) => {
                let mut out: Vec<Json> = Vec::new();
                let mut i: usize = 0;
                while i < items.len()
                    invariant
                        i <= items@.len(),
                        out@.len() == i,
                        forall|j: int| 0 <= j < i ==> view_of(#[trigger] out@[j]) == view_of(items@[j]),
                    decreases items@.len() - i,
                {
                    proof {
                        assert(decreases_to!(*self => *items));
                        assert(decreases_to!(*items => items@));
                        assert(decreases_to!(items@ => items@[i as int]));
                    }
                    let c = items[i].deep_clone();
                    out.push(c);
                    i = i + 1;
                }
                proof {
                    lemma_view_items_ext(out@, items@);
                }
                Json::Array(out)
            },
            Json::Object(entries) => {
                let mut out: Vec<(String, Json)> = Vec::new();
                let mut i: usize = 0;
                while i < entries.len()
                    invariant
                        i <= entries@.len(),
                        out@.len() == i,
                        forall|j: int|
                            0 <= j < i ==> (#[trigger] out@[j]).0@ == entries@[j].0@ && view_of(
                                out@[j].1,
                            ) == view_of(entries@[j].1),
                    decreases entries@.len() - i,
                {
                    let k = entries[i].0.clone();
                    proof {
                        assert(decreases_to!(*self => *entries));
                        assert(decreases_to!(*entries => entries@));
                        assert(decreases_to!(entries@ => entries@[i as int]));
                        assert(decreases_to!(entries@[i as int] => entries@[i as int].1));
                    }
                    let v = entries[i].1.deep_clone();
                    out.push((k, v));
                    i = i + 1;
                }
                proof {
                    lemma_view_entries_ext(out@, entries@);
                }
                Json::Object(out)
            },
        }
    }

    /// `Value::is_null`.
    pub fn is_null(&self) -> (res: bool)
        ensures
            res == (self@ is Null),
    {
        match self {
            Json::Null => true,
            _ => false,
        }
    }

    /// `Value::is_object`.
    pub fn is_object(&self) -> (res: bool)
        ensures
            res == (self@ is Object),
    {
        match self {
            Json::Object(_) => true,
            _ => false,
        }
    }

    /// `Value::as_str`.
    pub fn as_str(&self) -> (res: Option<&String>)
        ensures
            match self@ {
                JsonV::String(s) => res matches Some(r) && r@ == s,
                _ => res is None,
            },
    {
        match self {
            Json::String(s) => Some(s),
            _ => None,
        }
    }

    /// `Value::as_array`.
    pub fn as_array(&self) -> (res: Option<&Vec<Json>>)
        ensures
            match self@ {
                JsonV::Array(items) => res matches Some(r) && view_items(r@) == items,
                _ => res is None,
            },
    {
        match self {
            Json::Array(items) => Some(items),
            _ => None,
        }
    }

    /// `Value::as_object`.
    pub fn as_object(&self) -> (res: Option<&Vec<(String, Json)>>)
        ensures
            match self@ {
                JsonV::Object(entries) => res matches Some(r) && view_entries(r@) == entries,
                _ => res is None,
            },
    {
        match self {
            Json::Object(entries) => Some(entries),
            _ => None,
        }
    }

    /// `Value::get` with a string key: the value stored under `key` when
    /// this is an object holding it.
    pub fn get(&self, key: &str) -> (res: Option<&Json>)
        ensures
            res matches Some(r) ==> r@ == member(self@, key@),
            res is Some <==> (self@ matches JsonV::Object(es) && lookup(es, key@) is Some),
    {
        match self {
            Json::Object(entries) => {
                match find_key(entries, key) {
                    Some(i) => {
                        proof {
                            lemma_view_entries(entries@);
                            lemma_key_index(view_entries(entries@), key@);
                        }
                        Some(&entries[i].1)
                    },
                    None => None,
                }
            },
            _ => None,
        }
    }
}

/// `value[key]` in serde_json: the member `key` of an object, or `null`.
pub open spec fn member(j: JsonV, k: Seq<char>) -> JsonV {
    match j {
        JsonV::Object(es) => match lookup(es, k) {
            Some(v) => v,
            None => JsonV::Null,
        },
        _ => JsonV::Null,
    }
}

/// The string held by a model value, if it is a string (`Value::as_str`).
pub open spec fn str_of(j: JsonV) -> Option<Seq<char>> {
    match j {
        JsonV::String(s) => Some(s),
        _ => None,
    }
}

/// `value[key].as_str()`: the string member `key`, if there is one.
pub fn member_str<'a>(j: &'a Json, key: &str) -> (res: Option<&'a String>)
    ensures
        match str_of(member(j@, key@)) {
            Some(s) => res matches Some(r) && r@ == s,
            None => res is None,
        },
{
    match j.get(key) {
        Some(v) => v.as_str(),
        None => None,
    }
}

/// Inserts `(k, v)` into an object's entries (`Map::insert`).
pub fn object_insert(entries: &mut Vec<(String, Json)>, k: String, v: Json)
    ensures
        view_entries(final(entries)@) == map_insert(view_entries(old(entries)@), k@, v@),
{
    proof {
        lemma_view_entries(entries@);
    }
    let ghost kv = k@;
    let ghost vv = v@;
    match find_key(entries, k.as_str()) {
        Some(i) => {
            proof {
                lemma_key_index(view_entries(entries@), kv);
            }
            let ghost before = entries@;
            entries.set(i, (k, v));
            proof {
                lemma_view_entries(entries@);
                assert(view_entries(entries@) =~= view_entries(before).update(i as int, (kv, vv)));
            }
        },
        None => {
            let ghost before = entries@;
            entries.push((k, v));
            proof {
                lemma_view_entries(entries@);
                assert(view_entries(entries@) =~= view_entries(before).push((kv, vv)));
            }
        },
    }
}

/// Removes the entry with key `k` (`Map::shift_remove`).
pub fn object_remove(entries: &mut Vec<(String, Json)>, k: &str)
    ensures
        view_entries(final(entries)@) == map_remove(view_entries(old(entries)@), k@),
{
    proof {
        lemma_view_entries(entries@);
    }
    match find_key(entries, k) {
        Some(i) => {
            proof {
                lemma_key_index(view_entries(entries@), k@);
            }
            let ghost before = entries@;
            let _ = entries.remove(i);
            proof {
                lemma_view_entries(entries@);
                assert(view_entries(entries@) =~= view_entries(before).remove(i as int));
            }
        },
        None => {},
    }
}

/// A JSON string value holding a copy of `s`.
pub fn json_string(s: &str) -> (res: Json)
    ensures
        res@ == JsonV::String(s@),
{
    Json::String(owned(s))
}

/// A JSON array of strings.
pub open spec fn string_array(items: Seq<Seq<char>>) -> JsonV {
    JsonV::Array(items.map_values(|s: Seq<char>| JsonV::String(s)))
}

/// A JSON array holding copies of the given strings.
pub fn json_string_array_of(items: &Vec<String>) -> (res: Json)
    ensures
        res@ == string_array(items@.map_values(|s: String| s@)),
{
    let mut out: Vec<Json> = Vec::new();
    let mut i: usize = 0;
    while i < items.len()
        invariant
            i <= items@.len(),
            out@.len() == i,
            forall|j: int| 0 <= j < i ==> view_of(#[trigger] out@[j]) == JsonV::String(items@[j]@),
        decreases items@.len() - i,
    {
        out.push(Json::String(items[i].clone()));
        i = i + 1;
    }
    proof {
        lemma_view_items(out@);
        assert(view_items(out@) =~= items@.map_values(|s: String| s@).map_values(
            |s: Seq<char>| JsonV::String(s),
        ));
    }
    Json::Array(out)
}

/// The models of a list of strings.
pub open spec fn strs(v: Seq<String>) -> Seq<Seq<char>> {
    v.map_values(|s: String| s@)
}

/// The strings among `items`, in order (non-strings are skipped).
pub open spec fn strings_in(items: Seq<JsonV>) -> Seq<Seq<char>>
    decreases items.len(),
{
    if items.len() == 0 {
        Seq::empty()
    } else {
        match str_of(items.last()) {
            Some(s) => strings_in(items.drop_last()).push(s),
            None => strings_in(items.drop_last()),
        }
    }
}

/// The strings of an array value; nothing when the value is not an array.
pub open spec fn string_values(j: JsonV) -> Seq<Seq<char>> {
    match j {
        JsonV::Array(items) => strings_in(items),
        _ => Seq::empty(),
    }
}

/// The string elements of a JSON array (e.g. the `tags` or `anchorImageIds`
/// column); an empty list when the value is not an array.
pub fn json_string_array(value: &Json) -> (res: Vec<String>)
    ensures
        strs(res@) == string_values(value@),
{
    let mut out: Vec<String> = Vec::new();
    match value {
        Json::Array(items) => {
            proof {
                lemma_view_items(items@);
            }
            let ghost vs = view_items(items@);
            let mut i: usize = 0;
            while i < items.len()
                invariant
                    i <= items@.len(),
                    vs == view_items(items@),
                    vs.len() == items@.len(),
                    forall|k: int| 0 <= k < items@.len() ==> #[trigger] vs[k] == items@[k]@,
                    strs(out@) == strings_in(vs.take(i as int)),
                decreases items@.len() - i,
            {
                proof {
                    let t = vs.take(i + 1);
                    assert(t.drop_last() =~= vs.take(i as int));
                    assert(t.last() == vs[i as int]);
                }
                match &items[i] {
                    Json::String(s) => {
                        let ghost before = out@;
                        out.push(s.clone());
                        proof {
                            assert(strs(out@) =~= strs(before).push(s@));
                        }
                    },
                    _ => {},
                }
                i = i + 1;
            }
            proof {
                assert(vs.take(items@.len() as int) =~= vs);
            }
        },
        _ => {
            assert(strs(out@) =~= Seq::<Seq<char>>::empty());
        },
    }
    out
}

/// Law: after removing a key (from an object whose keys are distinct) the
/// key is gone, every other key keeps its value, and the others keep their
/// order (exactly one member fewer when the key was there).
pub proof fn law_lookup_after_remove(entries: Seq<EntryV>, k: Seq<char>, other: Seq<char>)
    requires
        unique_keys(entries),
    ensures
        lookup(map_remove(entries, k), k) is None,
        other != k ==> lookup(map_remove(entries, k), other) == lookup(entries, other),
        map_remove(entries, k).len() == entries.len() - (if lookup(entries, k) is Some {
            1int
        } else {
            0
        }),
{
    let r = map_remove(entries, k);
    lemma_key_index(entries, k);
    lemma_key_index(entries, other);
    lemma_key_index(r, k);
    lemma_key_index(r, other);
    match key_index(entries, k) {
        Some(i) => {
            assert forall|j: int| 0 <= j < r.len() implies r[j].0 != k by {
                if j < i {
                    assert(r[j] == entries[j]);
                } else {
                    assert(r[j] == entries[j + 1]);
                    assert(entries[j + 1].0 != entries[i].0);
                }
            }
            if other != k {
                match key_index(entries, other) {
                    Some(m) => {
                        if m < i {
                            assert(r[m] == entries[m]);
                            assert forall|j: int| 0 <= j < m implies r[j].0 != other by {
                                assert(r[j] == entries[j]);
                            }
                            lemma_key_index_is_first(r, other, m);
                        } else {
                            assert(m != i);
                            assert(r[m - 1] == entries[m]);
                            assert forall|j: int| 0 <= j < m - 1 implies r[j].0 != other by {
                                if j < i {
                                    assert(r[j] == entries[j]);
                                } else {
                                    assert(r[j] == entries[j + 1]);
                                }
                            }
                            lemma_key_index_is_first(r, other, m - 1);
                        }
                    },
                    None => {
                        assert forall|j: int| 0 <= j < r.len() implies r[j].0 != other by {
                            if j < i {
                                assert(r[j] == entries[j]);
                            } else {
                                assert(r[j] == entries[j + 1]);
                            }
                        }
                    },
                }
            }
        },
        None => {},
    }
}

/// Law: the strings of a list are read element by element: those of two
/// lists one after the other are those of the first followed by those of the
/// second, and one element gives its string when it is one, else nothing.
pub proof fn law_strings_in(a: Seq<JsonV>, b: Seq<JsonV>, x: JsonV)
    ensures
        strings_in(a + b) == strings_in(a) + strings_in(b),
        x is String ==> strings_in(seq![x]) == seq![x->String_0],
        !(x is String) ==> strings_in(seq![x]) == Seq::<Seq<char>>::empty(),
    decreases b.len(),
{
    if b.len() == 0 {
        assert(a + b =~= a);
        assert(strings_in(a) + strings_in(b) =~= strings_in(a));
    } else {
        assert((a + b).drop_last() =~= a + b.drop_last());
        assert((a + b).last() == b.last());
        law_strings_in(a, b.drop_last(), x);
        match str_of(b.last()) {
            Some(t) => {
                assert(strings_in(a) + strings_in(b.drop_last()).push(t) =~= (strings_in(a)
                    + strings_in(b.drop_last())).push(t));
            },
            None => {},
        }
    }
    let e = Seq::<JsonV>::empty();
    assert(seq![x].drop_last() =~= e);
    assert(seq![x].last() == x);
    assert(strings_in(e) == Seq::<Seq<char>>::empty());
    if x is String {
        assert(Seq::<Seq<char>>::empty().push(x->String_0) =~= seq![x->String_0]);
    }
}

} // verus!
