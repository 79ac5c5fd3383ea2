use vstd::prelude::*;

verus! {

// ---------------------------------------------------------------------------
// Character-level string building
// ---------------------------------------------------------------------------

/// Appends one character to a string (std `String::push`).
#[verifier::external_body]
pub(crate) fn push_char(out: &mut String, c: char)
    ensures
        final(out)@ == old(out)@.push(c),
{
    out.push(c);
}

/// The characters of a string, in order.
pub fn chars_of(s: &str) -> (res: Vec<char>)
    ensures
        res@ == s@,
{
    let mut res: Vec<char> = Vec::new();
    for c in it: s.chars()
        invariant
            res@ == it.seq().take(it.index() as int),
    {
        res.push(c);
    }
    res
}

/// Appends the characters `cs[from..to]` to `out`.
pub fn push_chars(out: &mut String, cs: &Vec<char>, from: usize, to: usize)
    requires
        from <= to <= cs@.len(),
    ensures
        final(out)@ == old(out)@ + cs@.subrange(from as int, to as int),
{
    let mut i: usize = from;
    while i < to
        invariant
            from <= i <= to <= cs@.len(),
            out@ == old(out)@ + cs@.subrange(from as int, i as int),
        decreases to - i,
    {
        push_char(out, cs[i]);
        assert(cs@.subrange(from as int, i + 1) == cs@.subrange(from as int, i as int).push(cs@[i as int]));
        i = i + 1;
    }
}

/// A string made of the characters `cs[from..to]`.
pub fn string_of(cs: &Vec<char>, from: usize, to: usize) -> (res: String)
    requires
        from <= to <= cs@.len(),
    ensures
        res@ == cs@.subrange(from as int, to as int),
{
    let mut out = String::new();
    push_chars(&mut out, cs, from, to);
    out
}

/// An owned copy of a string slice.
pub fn owned(s: &str) -> (res: String)
    ensures
        res@ == s@,
{
    s.to_owned()
}

/// Appends a string slice to `out`.
pub fn push_str(out: &mut String, s: &str)
    ensures
        final(out)@ == old(out)@ + s@,
{
    out.append(s);
}

/// Whether two strings hold the same characters.
pub fn text_eq(a: &str, b: &str) -> (res: bool)
    ensures
        res == (a@ == b@),
{
    let x = chars_of(a);
    let y = chars_of(b);
    if x.len() != y.len() {
        return false;
    }
    let mut i: usize = 0;
    while i < x.len()
        invariant
            x@ == a@,
            y@ == b@,
            x@.len() == y@.len(),
            i <= x@.len(),
            forall|k: int| 0 <= k < i ==> x@[k] == y@[k],
        decreases x@.len() - i,
    {
        if x[i] != y[i] {
            return false;
        }
        i = i + 1;
    }
    assert(x@ =~= y@);
    true
}

/// Whether an optional string equals the given text.
pub fn opt_text_eq(a: Option<&str>, b: &str) -> (res: bool)
    ensures
        res == (a matches Some(s) && s@ == b@),
{
    match a {
        Some(s) => text_eq(s, b),
        None => false,
    }
}

// ---------------------------------------------------------------------------
// Whitespace and trimming (Unicode `White_Space`, as `char::is_whitespace`)
// ---------------------------------------------------------------------------

/// The Unicode `White_Space` property, which `char::is_whitespace` tests.
pub open spec fn is_ws(c: char) -> bool {
    ||| '\t' <= c <= '\r'
    ||| c == ' '
    ||| c == '\u{85}'
    ||| c == '\u{a0}'
    ||| c == '\u{1680}'
    ||| '\u{2000}' <= c <= '\u{200a}'
    ||| c == '\u{2028}'
    ||| c == '\u{2029}'
    ||| c == '\u{202f}'
    ||| c == '\u{205f}'
    ||| c == '\u{3000}'
}

pub fn is_whitespace(c: char) -> (res: bool)
    ensures
        res == is_ws(c),
{
    ('\t' <= c && c <= '\r') || c == ' ' || c == '\u{85}' || c == '\u{a0}' || c == '\u{1680}'
        || ('\u{2000}' <= c && c <= '\u{200a}') || c == '\u{2028}' || c == '\u{2029}' || c
        == '\u{202f}' || c == '\u{205f}' || c == '\u{3000}'
}

/// `s` without its leading whitespace.
pub open spec fn trim_start(s: Seq<char>) -> Seq<char>
    decreases s.len(),
{
    if s.len() > 0 && is_ws(s[0]) {
        trim_start(s.drop_first())
    } else {
        s
    }
}

/// `s` without its trailing whitespace.
pub open spec fn trim_end(s: Seq<char>) -> Seq<char>
    decreases s.len(),
{
    if s.len() > 0 && is_ws(s.last()) {
        trim_end(s.drop_last())
    } else {
        s
    }
}

/// `s` without leading and trailing whitespace (`str::trim`).
pub open spec fn trimmed(s: Seq<char>) -> Seq<char> {
    trim_end(trim_start(s))
}

/// Whether `s` holds nothing but whitespace (`s.trim().is_empty()`).
pub open spec fn is_blank(s: Seq<char>) -> bool {
    trimmed(s).len() == 0
}

/// The number of leading whitespace characters.
proof fn lemma_trim_start_skip(s: Seq<char>, i: int)
    requires
        0 <= i <= s.len(),
        forall|k: int| 0 <= k < i ==> is_ws(#[trigger] s[k]),
    ensures
        trim_start(s) == trim_start(s.subrange(i, s.len() as int)),
    decreases i,
{
    if i > 0 {
        assert(is_ws(s[0]));
        let t = s.drop_first();
        assert forall|k: int| 0 <= k < i - 1 implies is_ws(#[trigger] t[k]) by {
            assert(t[k] == s[k + 1]);
        }
        lemma_trim_start_skip(t, i - 1);
        assert(t.subrange(i - 1, t.len() as int) =~= s.subrange(i, s.len() as int));
    } else {
        assert(s.subrange(0, s.len() as int) =~= s);
    }
}

proof fn lemma_trim_end_cut(s: Seq<char>, j: int)
    requires
        0 <= j <= s.len(),
        forall|k: int| j <= k < s.len() ==> is_ws(#[trigger] s[k]),
    ensures
        trim_end(s) == trim_end(s.subrange(0, j)),
    decreases s.len() - j,
{
    if j < s.len() {
        assert(is_ws(s[s.len() - 1]));
        let t = s.drop_last();
        lemma_trim_end_cut(t, j);
        assert(t.subrange(0, j) =~= s.subrange(0, j));
    } else {
        assert(s.subrange(0, j) =~= s);
    }
}

/// Bounds `(start, end)` of the trimmed part of `cs`.
pub fn trim_bounds(cs: &Vec<char>) -> (res: (usize, usize))
    ensures
        res.0 <= res.1 <= cs@.len(),
        cs@.subrange(res.0 as int, res.1 as int) == trimmed(cs@),
        trim_start(cs@) == cs@.subrange(res.0 as int, cs@.len() as int),
{
    let n = cs.len();
    let mut i: usize = 0;
    while i < n && is_whitespace(cs[i])
        invariant
            n == cs@.len(),
            i <= n,
            forall|k: int| 0 <= k < i ==> is_ws(#[trigger] cs@[k]),
        decreases n - i,
    {
        i = i + 1;
    }
    proof {
        lemma_trim_start_skip(cs@, i as int);
        let rest = cs@.subrange(i as int, n as int);
        if rest.len() > 0 {
            assert(rest[0] == cs@[i as int]);
        }
        assert(trim_start(rest) == rest);
    }
    let mut j: usize = n;
    while j > i && is_whitespace(cs[j - 1])
        invariant
            n == cs@.len(),
            i <= j <= n,
            forall|k: int| j <= k < n ==> is_ws(#[trigger] cs@[k]),
        decreases j,
    {
        j = j - 1;
    }
    proof {
        let rest = cs@.subrange(i as int, n as int);
        assert forall|k: int| j - i <= k < rest.len() implies is_ws(#[trigger] rest[k]) by {
            assert(rest[k] == cs@[k + i]);
        }
        lemma_trim_end_cut(rest, j - i);
        let mid = rest.subrange(0, j - i);
        assert(mid =~= cs@.subrange(i as int, j as int));
        if mid.len() > 0 {
            assert(mid.last() == cs@[j - 1]);
        }
        assert(trim_end(mid) == mid);
    }
    (i, j)
}

/// `str::trim`: the string without leading and trailing whitespace.
pub fn trim(s: &str) -> (res: String)
    ensures
        res@ == trimmed(s@),
{
    let cs = chars_of(s);
    let (a, b) = trim_bounds(&cs);
    string_of(&cs, a, b)
}

/// `str::trim_end`: the string without trailing whitespace.
pub fn trim_end_of(s: &str) -> (res: String)
    ensures
        res@ == trim_end(s@),
{
    let cs = chars_of(s);
    let n = cs.len();
    let mut j: usize = n;
    while j > 0 && is_whitespace(cs[j - 1])
        invariant
            n == cs@.len(),
            j <= n,
            forall|k: int| j <= k < n ==> is_ws(#[trigger] cs@[k]),
        decreases j,
    {
        j = j - 1;
    }
    proof {
        lemma_trim_end_cut(cs@, j as int);
        let mid = cs@.subrange(0, j as int);
        if mid.len() > 0 {
            assert(mid.last() == cs@[j - 1]);
        }
        assert(trim_end(mid) == mid);
    }
    string_of(&cs, 0, j)
}

/// Whether the string is empty or whitespace only (`s.trim().is_empty()`).
pub fn blank(s: &str) -> (res: bool)
    ensures
        res == is_blank(s@),
{
    let cs = chars_of(s);
    let (a, b) = trim_bounds(&cs);
    a == b
}

// ---------------------------------------------------------------------------
// Prefixes, suffixes, substrings
// ---------------------------------------------------------------------------

/// Whether `needle` stands in `s` at position `i`.
pub open spec fn occurs_at(s: Seq<char>, needle: Seq<char>, i: int) -> bool {
    0 <= i && i + needle.len() <= s.len() && s.subrange(i, i + needle.len()) == needle
}

/// Whether `needle` stands anywhere in `s` (`str::contains`).
pub open spec fn contains_text(s: Seq<char>, needle: Seq<char>) -> bool {
    exists|i: int| occurs_at(s, needle, i)
}

/// Whether `needle` stands in `cs` at position `i`.
pub fn matches_at(cs: &Vec<char>, needle: &Vec<char>, i: usize) -> (res: bool)
    ensures
        res == occurs_at(cs@, needle@, i as int),
{
    if i > cs.len() || needle.len() > cs.len() - i {
        return false;
    }
    let mut k: usize = 0;
    while k < needle.len()
        invariant
            i + needle@.len() <= cs@.len(),
            cs@.len() <= usize::MAX,
            k <= needle@.len(),
            forall|m: int| 0 <= m < k ==> cs@[i + m] == needle@[m],
        decreases needle@.len() - k,
    {
        if cs[i + k] != needle[k] {
            assert(cs@.subrange(i as int, i + needle@.len())[k as int] != needle@[k as int]);
            return false;
        }
        k = k + 1;
    }
    assert(cs@.subrange(i as int, i + needle@.len()) =~= needle@);
    true
}

/// The first position at which `needle` occurs in `cs`.
pub fn find_first(cs: &Vec<char>, needle: &Vec<char>) -> (res: Option<usize>)
    ensures
        match res {
            Some(i) => occurs_at(cs@, needle@, i as int) && forall|j: int|
                0 <= j < i ==> !occurs_at(cs@, needle@, j),
            None => !contains_text(cs@, needle@),
        },
{
    let mut i: usize = 0;
    while i <= cs.len()
        invariant_except_break
            i <= cs@.len(),
            forall|j: int| 0 <= j < i ==> !occurs_at(cs@, needle@, j),
        ensures
            forall|j: int| 0 <= j <= cs@.len() ==> !occurs_at(cs@, needle@, j),
        decreases cs@.len() + 1 - i,
    {
        if matches_at(cs, needle, i) {
            return Some(i);
        }
        if i == cs.len() {
            break;
        }
        i = i + 1;
    }
    assert forall|j: int| !occurs_at(cs@, needle@, j) by {
        if 0 <= j <= cs@.len() {
        }
    }
    None
}

/// `str::contains` on strings.
pub fn contains(s: &str, needle: &str) -> (res: bool)
    ensures
        res == contains_text(s@, needle@),
{
    let cs = chars_of(s);
    let nd = chars_of(needle);
    find_first(&cs, &nd).is_some()
}

/// `str::starts_with`.
pub fn starts_with(s: &str, prefix: &str) -> (res: bool)
    ensures
        res == prefix@.is_prefix_of(s@),
{
    let cs = chars_of(s);
    let p = chars_of(prefix);
    let r = matches_at(&cs, &p, 0);
    proof {
        if r {
            assert(s@.subrange(0, prefix@.len() as int) == prefix@);
        }
        if prefix@.is_prefix_of(s@) {
            assert(s@.subrange(0, prefix@.len() as int) =~= prefix@);
        }
    }
    r
}

/// `str::ends_with`.
pub fn ends_with(s: &str, suffix: &str) -> (res: bool)
    ensures
        res == suffix@.is_suffix_of(s@),
{
    let cs = chars_of(s);
    let p = chars_of(suffix);
    if p.len() > cs.len() {
        return false;
    }
    let r = matches_at(&cs, &p, cs.len() - p.len());
    proof {
        let st = s@.len() - suffix@.len();
        if suffix@.is_suffix_of(s@) {
            assert(s@.subrange(st, s@.len() as int) =~= suffix@);
        }
    }
    r
}

/// `str::strip_prefix`: the rest of `s` after `prefix`, if `s` starts with it.
pub fn strip_prefix(s: &str, prefix: &str) -> (res: Option<String>)
    ensures
        match res {
            Some(r) => prefix@.is_prefix_of(s@) && r@ == s@.subrange(
                prefix@.len() as int,
                s@.len() as int,
            ),
            None => !prefix@.is_prefix_of(s@),
        },
{
    let cs = chars_of(s);
    let p = chars_of(prefix);
    if matches_at(&cs, &p, 0) {
        proof {
            assert(s@.subrange(0, prefix@.len() as int) == prefix@);
        }
        Some(string_of(&cs, p.len(), cs.len()))
    } else {
        proof {
            if prefix@.is_prefix_of(s@) {
                assert(s@.subrange(0, prefix@.len() as int) =~= prefix@);
            }
        }
        None
    }
}

/// `str::strip_suffix`: `s` without `suffix`, if `s` ends with it.
pub fn strip_suffix(s: &str, suffix: &str) -> (res: Option<String>)
    ensures
        match res {
            Some(r) => suffix@.is_suffix_of(s@) && r@ == s@.subrange(
                0,
                s@.len() - suffix@.len(),
            ),
            None => !suffix@.is_suffix_of(s@),
        },
{
    let cs = chars_of(s);
    let p = chars_of(suffix);
    if ends_with(s, suffix) {
        Some(string_of(&cs, 0, cs.len() - p.len()))
    } else {
        None
    }
}

// ---------------------------------------------------------------------------
// Case mapping (std's Unicode tables)
// ---------------------------------------------------------------------------

/// What `str::to_lowercase` returns for a string.
pub uninterp spec fn lowercase(s: Seq<char>) -> Seq<char>;

/// What `char::to_uppercase` yields for a character, collected into a string.
pub uninterp spec fn uppercase_char(c: char) -> Seq<char>;

/// Every character is ASCII.
pub open spec fn is_ascii(s: Seq<char>) -> bool {
    forall|i: int| 0 <= i < s.len() ==> (#[trigger] s[i] as u32) < 128
}

/// An ASCII capital letter.
pub open spec fn is_ascii_upper(c: char) -> bool {
    65 <= (c as u32) && (c as u32) <= 90
}

/// Calls `str::to_lowercase`. Its result is named [`lowercase`]; std's
/// Unicode tables decide it. Of an all-ASCII text the contract adds what the
/// Unicode mapping gives there: one character for each, a capital letter
/// becomes its small letter (32 code points on), and every other character
/// stays unchanged.
#[verifier::external_body]
pub(crate) fn to_lowercase(s: &str) -> (res: String)
    ensures
        res@ == lowercase(s@),
        is_ascii(s@) ==> res@.len() == s@.len(),
        is_ascii(s@) ==> forall|i: int|
            0 <= i < s@.len() && !is_ascii_upper(s@[i]) ==> #[trigger] res@[i] == s@[i],
        is_ascii(s@) ==> forall|i: int|
            0 <= i < s@.len() && is_ascii_upper(s@[i]) ==> (#[trigger] res@[i] as int) == (
            s@[i] as int) + 32,
{
    s.to_lowercase()
}

/// A small ASCII letter.
pub open spec fn is_ascii_lower(c: char) -> bool {
    97 <= (c as u32) && (c as u32) <= 122
}

/// Calls `char::to_uppercase` and collects the characters it yields. Its
/// result is named [`uppercase_char`]; std's Unicode tables decide it. For
/// an ASCII character the contract adds what the mapping gives there: a
/// small letter becomes its capital (32 code points back), any other ASCII
/// character stays as it is.
#[verifier::external_body]
pub(crate) fn char_to_uppercase(c: char) -> (res: String)
    ensures
        res@ == uppercase_char(c),
        (c as u32) < 128 ==> res@.len() == 1,
        (c as u32) < 128 && is_ascii_lower(c) ==> (res@[0] as int) == (c as int) - 32,
        (c as u32) < 128 && !is_ascii_lower(c) ==> res@[0] == c,
{
    c.to_uppercase().collect::<String>()
}

// ---------------------------------------------------------------------------
// Decimal numbers
// ---------------------------------------------------------------------------

pub open spec fn digit_char(d: nat) -> char
    recommends
        d < 10,
{
    if d == 0 {
        '0'
    } else if d == 1 {
        '1'
    } else if d == 2 {
        '2'
    } else if d == 3 {
        '3'
    } else if d == 4 {
        '4'
    } else if d == 5 {
        '5'
    } else if d == 6 {
        '6'
    } else if d == 7 {
        '7'
    } else if d == 8 {
        '8'
    } else {
        '9'
    }
}

/// The decimal text of a natural number, as `to_string` writes it.
pub open spec fn decimal(n: nat) -> Seq<char>
    decreases n,
{
    if n < 10 {
        seq![digit_char(n)]
    } else {
        decimal(n / 10).push(digit_char(n % 10))
    }
}

/// Whether every character of `s` is a decimal digit.
pub open spec fn all_digits(s: Seq<char>) -> bool {
    forall|i: int| 0 <= i < s.len() ==> '0' <= #[trigger] s[i] <= '9'
}

/// The value of a string of decimal digits.
pub open spec fn digits_value(s: Seq<char>) -> nat
    decreases s.len(),
{
    if s.len() == 0 {
        0
    } else {
        digits_value(s.drop_last()) * 10 + (s.last() as nat - '0' as nat) as nat
    }
}

fn digit_to_char(d: u64) -> (c: char)
    requires
        d < 10,
    ensures
        c == digit_char(d as nat),
{
    if d == 0 {
        '0'
    } else if d == 1 {
        '1'
    } else if d == 2 {
        '2'
    } else if d == 3 {
        '3'
    } else if d == 4 {
        '4'
    } else if d == 5 {
        '5'
    } else if d == 6 {
        '6'
    } else if d == 7 {
        '7'
    } else if d == 8 {
        '8'
    } else {
        '9'
    }
}

/// Appends the decimal text of `n` to `out`.
pub fn push_decimal(out: &mut String, n: u64)
    ensures
        final(out)@ == old(out)@ + decimal(n as nat),
    decreases n,
{
    if n < 10 {
        push_char(out, digit_to_char(n));
        assert(decimal(n as nat) == seq![digit_char(n as nat)]);
    } else {
        push_decimal(out, n / 10);
        push_char(out, digit_to_char(n % 10));
    }
}

/// The decimal text of `n` (`n.to_string()`).
pub fn decimal_string(n: u64) -> (res: String)
    ensures
        res@ == decimal(n as nat),
{
    let mut out = String::new();
    push_decimal(&mut out, n);
    out
}

/// Parses a non-empty string of decimal digits whose value fits in a `u64`.
pub fn parse_decimal(s: &str) -> (res: Option<u64>)
    ensures
        match res {
            Some(v) => s@.len() > 0 && all_digits(s@) && v as nat == digits_value(s@),
            None => s@.len() == 0 || !all_digits(s@) || digits_value(s@) > u64::MAX,
        },
{
    let cs = chars_of(s);
    if cs.len() == 0 {
        return None;
    }
    let mut acc: u64 = 0;
    let mut i: usize = 0;
    while i < cs.len()
        invariant
            cs@ == s@,
            i <= cs@.len(),
            all_digits(cs@.subrange(0, i as int)),
            acc as nat == digits_value(cs@.subrange(0, i as int)),
        decreases cs@.len() - i,
    {
        let c = cs[i];
        if c < '0' || c > '9' {
            assert(!all_digits(s@)) by {
                assert(s@[i as int] == c);
            }
            return None;
        }
        let d: u64 = (c as u32 - '0' as u32) as u64;
        let ghost pre = cs@.subrange(0, i as int);
        let ghost next = cs@.subrange(0, i + 1);
        assert(next.drop_last() =~= pre);
        assert(next.last() == c);
        if acc > (u64::MAX - d) / 10 {
            proof {
                assert(digits_value(next) == digits_value(pre) * 10 + d);
                lemma_digits_value_prefix_le(cs@, i + 1);
            }
            return None;
        }
        acc = acc * 10 + d;
        assert forall|k: int| 0 <= k < i + 1 implies '0' <= #[trigger] next[k] <= '9' by {
            if k < i {
                assert(next[k] == pre[k]);
            }
        }
        i = i + 1;
    }
    assert(cs@.subrange(0, cs@.len() as int) =~= cs@);
    Some(acc)
}

/// A prefix of a digit string never has a larger value than the whole.
proof fn lemma_digits_value_prefix_le(s: Seq<char>, k: int)
    requires
        0 <= k <= s.len(),
    ensures
        !all_digits(s) || digits_value(s.subrange(0, k)) <= digits_value(s),
    decreases s.len() - k,
{
    if k < s.len() && all_digits(s) {
        lemma_digits_value_prefix_le(s.drop_last(), k);
        assert(s.drop_last().subrange(0, k) =~= s.subrange(0, k));
        assert(all_digits(s.drop_last())) by {
            assert forall|i: int| 0 <= i < s.drop_last().len() implies '0'
                <= #[trigger] s.drop_last()[i] <= '9' by {
                assert(s.drop_last()[i] == s[i]);
            }
        }
    } else if k == s.len() {
        assert(s.subrange(0, k) =~= s);
    }
}

/// Law: reading the decimal text of a number gives the number back.
pub proof fn law_decimal_round_trip(n: nat)
    ensures
        decimal(n).len() > 0,
        all_digits(decimal(n)),
        digits_value(decimal(n)) == n,
    decreases n,
{
    let d = n % 10;
    assert(('0' as nat) == 48);
    assert(digit_char(d) as nat == 48 + d) by {
        assert(d < 10);
    }
    if n >= 10 {
        law_decimal_round_trip(n / 10);
        let s = decimal(n);
        assert(s.drop_last() == decimal(n / 10));
        assert(forall|i: int| 0 <= i < s.len() - 1 ==> s[i] == decimal(n / 10)[i]);
        assert(all_digits(s)) by {
            assert forall|i: int| 0 <= i < s.len() implies '0' <= #[trigger] s[i] <= '9' by {
                if i < s.len() - 1 {
                    assert(s[i] == decimal(n / 10)[i]);
                }
            }
        }
        assert(digits_value(s) == (n / 10) * 10 + d);
    } else {
        assert(n % 10 == n);
        assert(decimal(n) =~= seq![digit_char(n)]);
        assert(decimal(n).drop_last() =~= Seq::<char>::empty());
        assert(digits_value(Seq::<char>::empty()) == 0);
        assert(decimal(n).last() == digit_char(n));
        assert(digits_value(decimal(n)) == digits_value(decimal(n).drop_last()) * 10 + (decimal(
            n,
        ).last() as nat - '0' as nat) as nat);
    }
}

} // verus!
