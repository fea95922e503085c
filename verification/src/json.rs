//! Canonical JSON text: a JSON value written with the keys of every object
//! in order, so that equal documents give equal bytes whatever order their
//! keys were inserted in.

use vstd::prelude::*;
use vstd::utf8::char_u32_cast;

verus! {

broadcast use vstd::string::group_string_axioms;

/// A JSON document: numbers keep the text they are written with.
#[derive(Debug)]
pub enum JsonValue {
    Null,
    Bool(bool),
    Number(String),
    Str(String),
    Array(Vec<JsonValue>),
    Object(Vec<(String, JsonValue)>),
}

/// The JSON text of a string: quoted, with `"` and `\\` escaped, the
/// control characters written as `\b`, `\t`, `\n`, `\f`, `\r` or
/// `\u00XX`, and every other character as it is.
pub open spec fn json_string(s: Seq<char>) -> Seq<char> {
    "\""@ + escaped_chars(s) + "\""@
}

/// The escaped text of a sequence of characters.
pub open spec fn escaped_chars(s: Seq<char>) -> Seq<char>
    decreases s.len(),
{
    if s.len() == 0 {
        Seq::empty()
    } else {
        escaped_chars(s.drop_last()) + escaped_char(s.last())
    }
}

/// The lowercase hexadecimal digit of a value below 16.
pub open spec fn hex_lower(d: nat) -> char {
    "0123456789abcdef"@[d as int]
}

/// How one character is written inside a JSON string.
pub open spec fn escaped_char(c: char) -> Seq<char> {
    if c == '"' {
        "\\\""@
    } else if c == '\\' {
        "\\\\"@
    } else if c == '\u{8}' {
        "\\b"@
    } else if c == '\t' {
        "\\t"@
    } else if c == '\n' {
        "\\n"@
    } else if c == '\u{c}' {
        "\\f"@
    } else if c == '\r' {
        "\\r"@
    } else if (c as u32) < 0x20 {
        "\\u00"@ + seq![hex_lower((c as u32 / 16) as nat), hex_lower((c as u32 % 16) as nat)]
    } else {
        seq![c]
    }
}

/// Keys in order: lexicographic by code point (the byte order of their
/// UTF-8 text).
pub open spec fn key_lt(a: Seq<char>, b: Seq<char>) -> bool
    decreases a.len(),
{
    if a.len() == 0 {
        b.len() > 0
    } else if b.len() == 0 {
        false
    } else if a[0] != b[0] {
        (a[0] as u32) < (b[0] as u32)
    } else {
        key_lt(a.drop_first(), b.drop_first())
    }
}

/// An object entry as written: its key and the canonical text of its
/// value.
pub type EntryText = (Seq<char>, Seq<char>);

/// The canonical text of a value.
pub open spec fn canonical(v: JsonValue) -> Seq<char>
    decreases v,
{
    match v {
        JsonValue::Null => "null"@,
        JsonValue::Bool(b) => if b {
            "true"@
        } else {
            "false"@
        },
        JsonValue::Number(n) => n@,
        JsonValue::Str(s) => json_string(s@),
        JsonValue::Array(vs) => "["@ + canonical_items(vs@) + "]"@,
        JsonValue::Object(es) => "{"@ + joined_entries(sort_entries(rendered_entries(es@))) + "}"@,
    }
}

/// The canonical texts of array items, separated by commas.
pub open spec fn canonical_items(s: Seq<JsonValue>) -> Seq<char>
    decreases s,
{
    if s.len() == 0 {
        Seq::empty()
    } else if s.len() == 1 {
        canonical(s[0])
    } else {
        canonical_items(s.drop_last()) + ","@ + canonical(s.last())
    }
}

/// The entries of an object with their values written out.
pub open spec fn rendered_entries(s: Seq<(String, JsonValue)>) -> Seq<EntryText>
    decreases s,
{
    if s.len() == 0 {
        Seq::empty()
    } else {
        rendered_entries(s.drop_last()).push((s.last().0@, canonical(s.last().1)))
    }
}

/// Written entries `"key":value`, separated by commas.
pub open spec fn joined_entries(s: Seq<EntryText>) -> Seq<char>
    decreases s.len(),
{
    if s.len() == 0 {
        Seq::empty()
    } else if s.len() == 1 {
        json_string(s[0].0) + ":"@ + s[0].1
    } else {
        joined_entries(s.drop_last()) + ","@ + json_string(s.last().0) + ":"@ + s.last().1
    }
}

/// Insert an entry into entries sorted by key.
pub open spec fn insert_entry(e: EntryText, s: Seq<EntryText>) -> Seq<EntryText>
    decreases s.len(),
{
    if s.len() == 0 {
        seq![e]
    } else if key_lt(s[0].0, e.0) {
        seq![s[0]] + insert_entry(e, s.drop_first())
    } else {
        seq![e] + s
    }
}

/// The entries sorted by key (insertion sort).
pub open spec fn sort_entries(s: Seq<EntryText>) -> Seq<EntryText>
    decreases s.len(),
{
    if s.len() == 0 {
        s
    } else {
        insert_entry(s.last(), sort_entries(s.drop_last()))
    }
}

/// Calls `serde_json::to_string` on a string. Its text is the string
/// quoted, with the quote and the backslash escaped, the control characters below U+0020
/// written as `\b`, `\t`, `\n`, `\f`, `\r` or `\u00` and two lowercase hex
/// digits, and every other character as it is (serde_json's escape table in
/// `ser.rs`): `json_string`. Writing a string into a buffer does not fail.
#[verifier::external_body]
fn json_quoted(s: &str) -> (r: String)
    ensures
        r@ == json_string(s@),
{
    serde_json::to_string(s).unwrap_or_default()
}

/// Append the JSON text of a string.
pub fn push_json_string(out: &mut String, s: &str)
    ensures
        final(out)@ == old(out)@ + json_string(s@),
{
    let quoted = json_quoted(s);
    out.append(quoted.as_str());
}

/// Whether key `a` sorts before key `b`.
pub fn key_less(a: &str, b: &str) -> (r: bool)
    ensures
        r == key_lt(a@, b@),
{
    let av = crate::text::chars_of(a);
    let bv = crate::text::chars_of(b);
    let mut i: usize = 0;
    assert(a@.skip(0) =~= a@);
    assert(b@.skip(0) =~= b@);
    while i < av.len() && i < bv.len() && av[i] == bv[i]
        invariant
            av@ == a@,
            bv@ == b@,
            i <= av@.len(),
            i <= bv@.len(),
            key_lt(a@.skip(i as int), b@.skip(i as int)) == key_lt(a@, b@),
        decreases av@.len() - i,
    {
        assert(a@.skip(i as int).drop_first() =~= a@.skip(i + 1));
        assert(b@.skip(i as int).drop_first() =~= b@.skip(i + 1));
        i = i + 1;
    }
    let ghost sa = a@.skip(i as int);
    let ghost sb = b@.skip(i as int);
    if i == av.len() {
        assert(sa.len() == 0);
        i < bv.len()
    } else if i == bv.len() {
        assert(sb.len() == 0);
        false
    } else {
        assert(sa[0] == av@[i as int] && sb[0] == bv@[i as int]);
        (av[i] as u32) < (bv[i] as u32)
    }
}

/// The plain values of written entries.
pub open spec fn text_pairs(v: Seq<(String, String)>) -> Seq<EntryText> {
    v.map_values(|p: (String, String)| (p.0@, p.1@))
}

/// Inserting an entry places it before the first entry whose key does not
/// sort before its own.
proof fn lemma_insert_entry_at(e: EntryText, s: Seq<EntryText>, p: int)
    requires
        0 <= p <= s.len(),
        forall|k: int| 0 <= k < p ==> key_lt((#[trigger] s[k]).0, e.0),
        p < s.len() ==> !key_lt(s[p].0, e.0),
    ensures
        insert_entry(e, s) == s.insert(p, e),
    decreases s.len(),
{
    if s.len() == 0 {
        assert(s.insert(p, e) =~= seq![e]);
    } else if p == 0 {
        assert(!key_lt(s[0].0, e.0));
        assert(s.insert(0, e) =~= seq![e] + s);
    } else {
        assert(key_lt(s[0].0, e.0));
        let rest = s.drop_first();
        assert forall|k: int| 0 <= k < p - 1 implies key_lt((#[trigger] rest[k]).0, e.0) by {
            assert(rest[k] == s[k + 1]);
        }
        lemma_insert_entry_at(e, rest, p - 1);
        assert(s.insert(p, e) =~= seq![s[0]] + rest.insert(p - 1, e));
    }
}

/// Insert a written entry into entries sorted by key.
fn insert_sorted(v: &mut Vec<(String, String)>, e: (String, String))
    ensures
        text_pairs(final(v)@) == insert_entry((e.0@, e.1@), text_pairs(old(v)@)),
{
    let ghost s = text_pairs(v@);
    let ghost ev = (e.0@, e.1@);
    let n = v.len();
    let mut p: usize = 0;
    while p < n && key_less(v[p].0.as_str(), e.0.as_str())
        invariant
            n == v@.len(),
            s == text_pairs(v@),
            ev == (e.0@, e.1@),
            p <= n,
            forall|k: int| 0 <= k < p ==> key_lt((#[trigger] s[k]).0, ev.0),
        decreases n - p,
    {
        p = p + 1;
    }
    proof {
        lemma_insert_entry_at(ev, s, p as int);
    }
    v.insert(p, e);
    assert(text_pairs(v@) =~= s.insert(p as int, ev));
}

/// Sort written entries by key.
fn sort_pairs(v: &Vec<(String, String)>) -> (r: Vec<(String, String)>)
    ensures
        text_pairs(r@) == sort_entries(text_pairs(v@)),
{
    let ghost s = text_pairs(v@);
    let mut r: Vec<(String, String)> = Vec::new();
    let n = v.len();
    assert(s.take(0) =~= Seq::<EntryText>::empty());
    for i in 0..n
        invariant
            n == v@.len(),
            s == text_pairs(v@),
            text_pairs(r@) == sort_entries(s.take(i as int)),
    {
        let e = (v[i].0.clone(), v[i].1.clone());
        proof {
            assert(s.take(i + 1).drop_last() =~= s.take(i as int));
            assert(s.take(i + 1).last() == (e.0@, e.1@));
        }
        insert_sorted(&mut r, e);
    }
    assert(s.take(n as int) =~= s);
    r
}

/// Append the canonical text of `value`: objects with their keys in
/// order, arrays and scalars as they are.
pub fn write_canonical_json(value: &JsonValue, out: &mut String)
    ensures
        final(out)@ == old(out)@ + canonical(*value),
    decreases value,
{
    match value {
        JsonValue::Null => out.append("null"),
        JsonValue::Bool(b) => if *b {
            out.append("true")
        } else {
            out.append("false")
        },
        JsonValue::Number(n) => out.append(n.as_str()),
        JsonValue::Str(s) => push_json_string(out, s.as_str()),
        JsonValue::Array(vs) => {
            let ghost start = out@;
            out.append("[");
            let n = vs.len();
            assert(vs@.take(0) =~= Seq::<JsonValue>::empty());
            for i in 0..n
                invariant
                    n == vs@.len(),
                    *value == JsonValue::Array(*vs),
                    out@ == start + "["@ + canonical_items(vs@.take(i as int)),
            {
                proof {
                    assert(vs@.take(i + 1).drop_last() =~= vs@.take(i as int));
                    assert(vs@.take(i + 1).last() == vs@[i as int]);
                }
                if i > 0 {
                    out.append(",");
                } else {
                    assert(vs@.take(1) =~= seq![vs@[0]]);
                }
                proof {
                    assert(decreases_to!(*value => value->Array_0));
                    assert(value->Array_0 == *vs);
                    assert(decreases_to!(*vs => vs@));
                    assert(decreases_to!(vs@ => vs@[i as int]));
                }
                write_canonical_json(&vs[i], out);
            }
            assert(vs@.take(n as int) =~= vs@);
            out.append("]");
        },
        JsonValue::Object(es) => {
            let ghost start = out@;
            let mut rendered: Vec<(String, String)> = Vec::new();
            let n = es.len();
            assert(es@.take(0) =~= Seq::<(String, JsonValue)>::empty());
            for i in 0..n
                invariant
                    n == es@.len(),
                    *value == JsonValue::Object(*es),
                    text_pairs(rendered@) == rendered_entries(es@.take(i as int)),
            {
                proof {
                    assert(es@.take(i + 1).drop_last() =~= es@.take(i as int));
                    assert(es@.take(i + 1).last() == es@[i as int]);
                }
                let mut text = String::new();
                proof {
                    assert(decreases_to!(*value => value->Object_0));
                    assert(value->Object_0 == *es);
                    assert(decreases_to!(*es => es@));
                    assert(decreases_to!(es@ => es@[i as int]));
                    assert(decreases_to!(es@[i as int] => es@[i as int].1));
                }
                write_canonical_json(&es[i].1, &mut text);
                let ghost before = rendered@;
                rendered.push((es[i].0.clone(), text));
                assert(text_pairs(rendered@) =~= text_pairs(before).push((es@[i as int].0@, canonical(es@[i as int].1))));
            }
            assert(es@.take(n as int) =~= es@);
            let sorted = sort_pairs(&rendered);
            let ghost ss = text_pairs(sorted@);
            out.append("{");
            let m = sorted.len();
            assert(ss.take(0) =~= Seq::<EntryText>::empty());
            for k in 0..m
                invariant
                    m == sorted@.len(),
                    ss == text_pairs(sorted@),
                    out@ == start + "{"@ + joined_entries(ss.take(k as int)),
            {
                proof {
                    assert(ss.take(k + 1).drop_last() =~= ss.take(k as int));
                    assert(ss.take(k + 1).last() == ss[k as int]);
                }
                if k > 0 {
                    out.append(",");
                } else {
                    assert(ss.take(1) =~= seq![ss[0]]);
                }
                push_json_string(out, sorted[k].0.as_str());
                out.append(":");
                out.append(sorted[k].1.as_str());
            }
            assert(ss.take(m as int) =~= ss);
            out.append("}");
        },
    }
}

// ---------------------------------------------------------------------------
// The order of keys
// ---------------------------------------------------------------------------

/// No key sorts before itself.
pub proof fn lemma_key_lt_irreflexive(a: Seq<char>)
    ensures
        !key_lt(a, a),
    decreases a.len(),
{
    if a.len() > 0 {
        lemma_key_lt_irreflexive(a.drop_first());
    }
}

/// The order of keys is transitive.
pub proof fn lemma_key_lt_transitive(a: Seq<char>, b: Seq<char>, c: Seq<char>)
    requires
        key_lt(a, b),
        key_lt(b, c),
    ensures
        key_lt(a, c),
    decreases a.len(),
{
    if a.len() > 0 && b.len() > 0 && c.len() > 0 && a[0] == b[0] && b[0] == c[0] {
        lemma_key_lt_transitive(a.drop_first(), b.drop_first(), c.drop_first());
    }
}

/// Of two different keys, one sorts before the other.
pub proof fn lemma_key_lt_total(a: Seq<char>, b: Seq<char>)
    requires
        a != b,
    ensures
        key_lt(a, b) || key_lt(b, a),
    decreases a.len(),
{
    if a.len() == 0 {
        if b.len() == 0 {
            assert(a =~= b);
        }
    } else if b.len() == 0 {
    } else if a[0] == b[0] {
        if a.drop_first() == b.drop_first() {
            assert(a =~= seq![a[0]] + a.drop_first());
            assert(b =~= seq![b[0]] + b.drop_first());
        }
        lemma_key_lt_total(a.drop_first(), b.drop_first());
    } else {
        if (a[0] as u32) == (b[0] as u32) {
            char_u32_cast(a[0], a[0] as u32);
            char_u32_cast(b[0], b[0] as u32);
        }
    }
}

/// Entries strictly sorted by key.
pub open spec fn strictly_sorted(s: Seq<EntryText>) -> bool {
    forall|i: int, j: int| 0 <= i < j < s.len() ==> key_lt(#[trigger] s[i].0, #[trigger] s[j].0)
}

/// No two entries share a key.
pub open spec fn unique_keys(s: Seq<EntryText>) -> bool {
    forall|i: int, j: int| 0 <= i < s.len() && 0 <= j < s.len() && i != j ==> #[trigger] s[i].0 != #[trigger] s[j].0
}

/// Two lists hold the same entries.
pub open spec fn same_entries<T>(a: Seq<T>, b: Seq<T>) -> bool {
    forall|x: T| #[trigger] a.contains(x) <==> #[trigger] b.contains(x)
}

/// Inserting an entry whose key is new keeps the entries sorted and adds
/// exactly that entry.
proof fn lemma_insert_keeps_sorted(e: EntryText, t: Seq<EntryText>)
    requires
        strictly_sorted(t),
        forall|k: int| 0 <= k < t.len() ==> (#[trigger] t[k]).0 != e.0,
    ensures
        strictly_sorted(insert_entry(e, t)),
        forall|x: EntryText| #[trigger] insert_entry(e, t).contains(x) <==> (x == e || t.contains(x)),
    decreases t.len(),
{
    let r = insert_entry(e, t);
    if t.len() == 0 {
        assert(r =~= seq![e]);
        assert forall|x: EntryText| #[trigger] r.contains(x) <==> (x == e || t.contains(x)) by {
            if x == e {
                assert(r[0] == e);
            }
        }
    } else if key_lt(t[0].0, e.0) {
        let rest = t.drop_first();
        assert forall|k: int| 0 <= k < rest.len() implies (#[trigger] rest[k]).0 != e.0 by {
            assert(rest[k] == t[k + 1]);
        }
        assert forall|i: int, j: int| 0 <= i < j < rest.len() implies key_lt(#[trigger] rest[i].0, #[trigger] rest[j].0) by {
            assert(rest[i] == t[i + 1] && rest[j] == t[j + 1]);
        }
        lemma_insert_keeps_sorted(e, rest);
        let ir = insert_entry(e, rest);
        assert(r == seq![t[0]] + ir);
        assert forall|k: int| 0 <= k < ir.len() implies key_lt(t[0].0, (#[trigger] ir[k]).0) by {
            assert(ir.contains(ir[k]));
            if ir[k] != e {
                assert(rest.contains(ir[k]));
                let m = choose|m: int| 0 <= m < rest.len() && rest[m] == ir[k];
                assert(rest[m] == t[m + 1]);
                assert(key_lt(t[0].0, t[m + 1].0));
            }
        }
        assert forall|i: int, j: int| 0 <= i < j < r.len() implies key_lt(#[trigger] r[i].0, #[trigger] r[j].0) by {
            if i == 0 {
                assert(r[j] == ir[j - 1]);
            } else {
                assert(r[i] == ir[i - 1] && r[j] == ir[j - 1]);
            }
        }
        assert forall|x: EntryText| #[trigger] r.contains(x) <==> (x == e || t.contains(x)) by {
            if r.contains(x) {
                let k = choose|k: int| 0 <= k < r.len() && r[k] == x;
                if k > 0 {
                    assert(ir[k - 1] == x);
                    assert(ir.contains(x));
                    if x != e {
                        let m = choose|m: int| 0 <= m < rest.len() && rest[m] == x;
                        assert(t[m + 1] == x);
                    }
                } else {
                    assert(t[0] == x);
                }
            }
            if x == e {
                assert(ir.contains(e));
                let k = choose|k: int| 0 <= k < ir.len() && ir[k] == e;
                assert(r[k + 1] == e);
            }
            if t.contains(x) {
                let m = choose|m: int| 0 <= m < t.len() && t[m] == x;
                if m == 0 {
                    assert(r[0] == x);
                } else {
                    assert(rest[m - 1] == x);
                    assert(rest.contains(x));
                    assert(ir.contains(x));
                    let k = choose|k: int| 0 <= k < ir.len() && ir[k] == x;
                    assert(r[k + 1] == x);
                }
            }
        }
    } else {
        assert(r == seq![e] + t);
        lemma_key_lt_total(t[0].0, e.0);
        assert forall|i: int, j: int| 0 <= i < j < r.len() implies key_lt(#[trigger] r[i].0, #[trigger] r[j].0) by {
            if i == 0 {
                assert(r[j] == t[j - 1]);
                if j - 1 > 0 {
                    lemma_key_lt_transitive(e.0, t[0].0, t[j - 1].0);
                }
            } else {
                assert(r[i] == t[i - 1] && r[j] == t[j - 1]);
            }
        }
        assert forall|x: EntryText| #[trigger] r.contains(x) <==> (x == e || t.contains(x)) by {
            if r.contains(x) {
                let k = choose|k: int| 0 <= k < r.len() && r[k] == x;
                if k > 0 {
                    assert(t[k - 1] == x);
                }
            }
            if x == e {
                assert(r[0] == e);
            }
            if t.contains(x) {
                let m = choose|m: int| 0 <= m < t.len() && t[m] == x;
                assert(r[m + 1] == x);
            }
        }
    }
}

/// Sorting entries with distinct keys gives them strictly in key order,
/// each one once.
proof fn lemma_sort_sorted(s: Seq<EntryText>)
    requires
        unique_keys(s),
    ensures
        strictly_sorted(sort_entries(s)),
        same_entries(sort_entries(s), s),
    decreases s.len(),
{
    if s.len() > 0 {
        let init = s.drop_last();
        assert forall|i: int, j: int| 0 <= i < init.len() && 0 <= j < init.len() && i != j implies #[trigger] init[i].0
            != #[trigger] init[j].0 by {
            assert(init[i] == s[i] && init[j] == s[j]);
        }
        lemma_sort_sorted(init);
        let t = sort_entries(init);
        assert forall|k: int| 0 <= k < t.len() implies (#[trigger] t[k]).0 != s.last().0 by {
            assert(t.contains(t[k]));
            assert(init.contains(t[k]));
            let m = choose|m: int| 0 <= m < init.len() && init[m] == t[k];
            assert(s[m] == t[k]);
        }
        lemma_insert_keeps_sorted(s.last(), t);
        assert forall|x: EntryText| #[trigger] sort_entries(s).contains(x) <==> #[trigger] s.contains(x) by {
            if s.contains(x) && x != s.last() {
                let m = choose|m: int| 0 <= m < s.len() && s[m] == x;
                assert(init[m] == x);
                assert(init.contains(x));
            }
            if t.contains(x) {
                assert(init.contains(x));
                let m = choose|m: int| 0 <= m < init.len() && init[m] == x;
                assert(s[m] == x);
            }
        }
    }
}

/// Two lists strictly sorted by key that hold the same entries are equal.
proof fn lemma_sorted_same_equal(a: Seq<EntryText>, b: Seq<EntryText>)
    requires
        strictly_sorted(a),
        strictly_sorted(b),
        same_entries(a, b),
    ensures
        a == b,
    decreases a.len() + b.len(),
{
    if a.len() == 0 {
        if b.len() > 0 {
            assert(b.contains(b[0]));
            assert(a.contains(b[0]));
            assert(false);
        }
        assert(a =~= b);
    } else if b.len() == 0 {
        assert(a.contains(a[0]));
        assert(b.contains(a[0]));
        assert(false);
    } else {
        assert(a.contains(a[0]));
        assert(b.contains(b[0]));
        assert(b.contains(a[0]));
        assert(a.contains(b[0]));
        let j = choose|j: int| 0 <= j < b.len() && b[j] == a[0];
        let i = choose|i: int| 0 <= i < a.len() && a[i] == b[0];
        if j > 0 {
            if i > 0 {
                assert(key_lt(b[0].0, b[j].0));
                assert(key_lt(a[0].0, a[i].0));
                lemma_key_lt_transitive(a[0].0, b[0].0, a[0].0);
                lemma_key_lt_irreflexive(a[0].0);
            } else {
                assert(key_lt(b[0].0, b[j].0));
                lemma_key_lt_irreflexive(b[0].0);
            }
        }
        assert(a[0] == b[0]);
        let ta = a.drop_first();
        let tb = b.drop_first();
        assert forall|x: EntryText| #[trigger] ta.contains(x) <==> #[trigger] tb.contains(x) by {
            if ta.contains(x) {
                let k = choose|k: int| 0 <= k < ta.len() && ta[k] == x;
                assert(a[k + 1] == x);
                assert(key_lt(a[0].0, a[k + 1].0));
                lemma_key_lt_irreflexive(a[0].0);
                assert(a.contains(x));
                assert(b.contains(x));
                let m = choose|m: int| 0 <= m < b.len() && b[m] == x;
                assert(m > 0);
                assert(tb[m - 1] == x);
            }
            if tb.contains(x) {
                let k = choose|k: int| 0 <= k < tb.len() && tb[k] == x;
                assert(b[k + 1] == x);
                assert(key_lt(b[0].0, b[k + 1].0));
                lemma_key_lt_irreflexive(b[0].0);
                assert(b.contains(x));
                assert(a.contains(x));
                let m = choose|m: int| 0 <= m < a.len() && a[m] == x;
                assert(m > 0);
                assert(ta[m - 1] == x);
            }
        }
        assert forall|p: int, q: int| 0 <= p < q < ta.len() implies key_lt(#[trigger] ta[p].0, #[trigger] ta[q].0) by {
            assert(ta[p] == a[p + 1] && ta[q] == a[q + 1]);
        }
        assert forall|p: int, q: int| 0 <= p < q < tb.len() implies key_lt(#[trigger] tb[p].0, #[trigger] tb[q].0) by {
            assert(tb[p] == b[p + 1] && tb[q] == b[q + 1]);
        }
        lemma_sorted_same_equal(ta, tb);
        assert(a =~= seq![a[0]] + ta);
        assert(b =~= seq![b[0]] + tb);
    }
}

/// Each rendered entry is its entry's key and canonical value.
proof fn lemma_rendered_entries(es: Seq<(String, JsonValue)>)
    ensures
        rendered_entries(es).len() == es.len(),
        forall|k: int| 0 <= k < es.len() ==> #[trigger] rendered_entries(es)[k] == (es[k].0@, canonical(es[k].1)),
    decreases es.len(),
{
    if es.len() > 0 {
        lemma_rendered_entries(es.drop_last());
    }
}

/// No two entries of an object share a key.
pub open spec fn distinct_keys(es: Seq<(String, JsonValue)>) -> bool {
    forall|i: int, j: int| 0 <= i < es.len() && 0 <= j < es.len() && i != j ==> #[trigger] es[i].0@ != #[trigger] es[j].0@
}

/// The canonical text of an object does not depend on the order its
/// entries were inserted in: two objects with distinct keys holding the
/// same entries are written identically.
pub proof fn lemma_canonical_ignores_entry_order(o1: Vec<(String, JsonValue)>, o2: Vec<(String, JsonValue)>)
    requires
        distinct_keys(o1@),
        distinct_keys(o2@),
        same_entries(o1@, o2@),
    ensures
        canonical(JsonValue::Object(o1)) == canonical(JsonValue::Object(o2)),
{
    let r1 = rendered_entries(o1@);
    let r2 = rendered_entries(o2@);
    lemma_rendered_entries(o1@);
    lemma_rendered_entries(o2@);
    assert forall|i: int, j: int| 0 <= i < r1.len() && 0 <= j < r1.len() && i != j implies #[trigger] r1[i].0 != #[trigger] r1[j].0 by {
        assert(r1[i].0 == o1@[i].0@ && r1[j].0 == o1@[j].0@);
    }
    assert forall|i: int, j: int| 0 <= i < r2.len() && 0 <= j < r2.len() && i != j implies #[trigger] r2[i].0 != #[trigger] r2[j].0 by {
        assert(r2[i].0 == o2@[i].0@ && r2[j].0 == o2@[j].0@);
    }
    assert forall|x: EntryText| #[trigger] r1.contains(x) <==> #[trigger] r2.contains(x) by {
        if r1.contains(x) {
            let k = choose|k: int| 0 <= k < r1.len() && r1[k] == x;
            assert(o1@.contains(o1@[k]));
            assert(o2@.contains(o1@[k]));
            let m = choose|m: int| 0 <= m < o2@.len() && o2@[m] == o1@[k];
            assert(r2[m] == x);
        }
        if r2.contains(x) {
            let k = choose|k: int| 0 <= k < r2.len() && r2[k] == x;
            assert(o2@.contains(o2@[k]));
            assert(o1@.contains(o2@[k]));
            let m = choose|m: int| 0 <= m < o1@.len() && o1@[m] == o2@[k];
            assert(r1[m] == x);
        }
    }
    lemma_sort_sorted(r1);
    lemma_sort_sorted(r2);
    let s1 = sort_entries(r1);
    let s2 = sort_entries(r2);
    assert forall|x: EntryText| #[trigger] s1.contains(x) <==> #[trigger] s2.contains(x) by {
        assert(s1.contains(x) <==> r1.contains(x));
        assert(s2.contains(x) <==> r2.contains(x));
    }
    lemma_sorted_same_equal(s1, s2);
}


/// Two documents holding the same value: scalars alike, arrays item by
/// item, and objects, each with distinct keys, holding under every key of
/// either an equivalent value in the other, whatever order their entries
/// were inserted in, at every level.
pub open spec fn json_equiv(a: JsonValue, b: JsonValue) -> bool
    decreases a,
{
    match a {
        JsonValue::Null => b is Null,
        JsonValue::Bool(x) => b matches JsonValue::Bool(y) && x == y,
        JsonValue::Number(x) => b matches JsonValue::Number(y) && x@ == y@,
        JsonValue::Str(x) => b matches JsonValue::Str(y) && x@ == y@,
        JsonValue::Array(xs) => match b {
            JsonValue::Array(ys) => xs@.len() == ys@.len() && forall|i: int|
                0 <= i < xs@.len() ==> json_equiv(#[trigger] xs@[i], ys@[i]),
            _ => false,
        },
        JsonValue::Object(o1) => match b {
            JsonValue::Object(o2) => {
                &&& distinct_keys(o1@)
                &&& distinct_keys(o2@)
                &&& forall|i: int|
                    0 <= i < o1@.len() ==> exists|j: int|
                        0 <= j < o2@.len() && (#[trigger] o1@[i]).0@ == (#[trigger] o2@[j]).0@
                            && json_equiv(o1@[i].1, o2@[j].1)
                &&& forall|j: int|
                    0 <= j < o2@.len() ==> exists|i: int|
                        0 <= i < o1@.len() && (#[trigger] o1@[i]).0@ == (#[trigger] o2@[j]).0@
                            && json_equiv(o1@[i].1, o2@[j].1)
            },
            _ => false,
        },
    }
}

/// Entries with distinct keys render with distinct keys.
proof fn lemma_rendered_keys_unique(es: Seq<(String, JsonValue)>)
    requires
        distinct_keys(es),
    ensures
        unique_keys(rendered_entries(es)),
{
    let r = rendered_entries(es);
    lemma_rendered_entries(es);
    assert forall|i: int, j: int| 0 <= i < r.len() && 0 <= j < r.len() && i != j implies #[trigger] r[i].0 != #[trigger] r[j].0 by {
        assert(r[i].0 == es[i].0@ && r[j].0 == es[j].0@);
    }
}

/// Rendered entries with distinct keys that hold the same entries sort
/// alike.
proof fn lemma_sorted_rendered_agree(r1: Seq<EntryText>, r2: Seq<EntryText>)
    requires
        unique_keys(r1),
        unique_keys(r2),
        same_entries(r1, r2),
    ensures
        sort_entries(r1) == sort_entries(r2),
{
    lemma_sort_sorted(r1);
    lemma_sort_sorted(r2);
    let s1 = sort_entries(r1);
    let s2 = sort_entries(r2);
    assert forall|x: EntryText| #[trigger] s1.contains(x) <==> #[trigger] s2.contains(x) by {
        assert(s1.contains(x) <==> r1.contains(x));
        assert(s2.contains(x) <==> r2.contains(x));
    }
    lemma_sorted_same_equal(s1, s2);
}

/// Equivalent items are written alike.
proof fn lemma_items_respect_equiv(s: Seq<JsonValue>, t: Seq<JsonValue>)
    requires
        s.len() == t.len(),
        forall|i: int| 0 <= i < s.len() ==> json_equiv(#[trigger] s[i], t[i]),
    ensures
        canonical_items(s) == canonical_items(t),
    decreases s,
{
    if s.len() > 0 {
        let s0 = s.drop_last();
        let t0 = t.drop_last();
        assert forall|i: int| 0 <= i < s0.len() implies json_equiv(#[trigger] s0[i], t0[i]) by {
            assert(s0[i] == s[i] && t0[i] == t[i]);
        }
        assert(json_equiv(s[s.len() - 1], t[t.len() - 1]));
        lemma_canonical_respects_equiv(s[s.len() - 1], t[t.len() - 1]);
        if s.len() > 1 {
            lemma_items_respect_equiv(s0, t0);
        } else {
            assert(json_equiv(s[0], t[0]));
        }
    }
}

/// Equivalent documents have the same canonical text: the order in which
/// the entries of any object, at any depth, were inserted does not show.
pub proof fn lemma_canonical_respects_equiv(a: JsonValue, b: JsonValue)
    requires
        json_equiv(a, b),
    ensures
        canonical(a) == canonical(b),
    decreases a,
{
    match a {
        JsonValue::Array(xs) => {
            if let JsonValue::Array(ys) = b {
                lemma_items_respect_equiv(xs@, ys@);
            }
        },
        JsonValue::Object(o1) => {
            if let JsonValue::Object(o2) = b {
                let r1 = rendered_entries(o1@);
                let r2 = rendered_entries(o2@);
                lemma_rendered_entries(o1@);
                lemma_rendered_entries(o2@);
                assert forall|x: EntryText| #[trigger] r1.contains(x) implies r2.contains(x) by {
                    let k = choose|k: int| 0 <= k < r1.len() && r1[k] == x;
                    assert(o1@[k] == o1@[k]);
                    let j = choose|j: int|
                        0 <= j < o2@.len() && (#[trigger] o1@[k]).0@ == (#[trigger] o2@[j]).0@ && json_equiv(o1@[k].1, o2@[j].1);
                    lemma_canonical_respects_equiv(o1@[k].1, o2@[j].1);
                    assert(r2[j] == x);
                }
                assert forall|x: EntryText| #[trigger] r2.contains(x) implies r1.contains(x) by {
                    let k = choose|k: int| 0 <= k < r2.len() && r2[k] == x;
                    assert(o2@[k] == o2@[k]);
                    let i = choose|i: int|
                        0 <= i < o1@.len() && (#[trigger] o1@[i]).0@ == (#[trigger] o2@[k]).0@ && json_equiv(o1@[i].1, o2@[k].1);
                    lemma_canonical_respects_equiv(o1@[i].1, o2@[k].1);
                    assert(r1[i] == x);
                }
                lemma_rendered_keys_unique(o1@);
                lemma_rendered_keys_unique(o2@);
                lemma_sorted_rendered_agree(rendered_entries(o1@), rendered_entries(o2@));
            }
        },
        _ => {},
    }
}

} // verus!
