//! JSON text as serde_json writes it in compact form: strings escaped,
//! members `"key":value` separated by commas, and the members of a map
//! ordered by key, as in serde_json's default `BTreeMap`-backed objects.

use crate::runtime::models::{distinct_keys, pairs_view};
use crate::text::hex_digit;
use vstd::prelude::*;
use vstd::string::StringExecFns;

verus! {

/// How serde_json writes one character inside a JSON string: quote and
/// backslash escaped, the five control characters with a short escape
/// written so, every other control character below U+0020 as `\u00` and
/// two lower-case hexadecimal digits, and every other character as itself.
pub open spec fn json_escape_char(c: char) -> Seq<char> {
    if c == '"' {
        seq!['\\', '"']
    } else if c == '\\' {
        seq!['\\', '\\']
    } else if c == '\u{8}' {
        seq!['\\', 'b']
    } else if c == '\t' {
        seq!['\\', 't']
    } else if c == '\n' {
        seq!['\\', 'n']
    } else if c == '\u{c}' {
        seq!['\\', 'f']
    } else if c == '\r' {
        seq!['\\', 'r']
    } else if (c as u32) < 0x20 {
        seq!['\\', 'u', '0', '0', hex_digit((c as u32 / 16) as nat), hex_digit((c as u32 % 16) as nat)]
    } else {
        seq![c]
    }
}

/// The characters of `s`, each written as [`json_escape_char`] writes it.
pub open spec fn json_escaped(s: Seq<char>) -> Seq<char>
    decreases s.len(),
{
    if s.len() == 0 {
        Seq::empty()
    } else {
        json_escaped(s.drop_last()) + json_escape_char(s.last())
    }
}

/// The JSON string literal for `s`: its escaped characters between quotes.
pub open spec fn json_string(s: Seq<char>) -> Seq<char> {
    seq!['"'] + json_escaped(s) + seq!['"']
}

/// `serde_json::Value::String(..)` displayed: the JSON string literal for
/// `s`, written with serde_json's escape table.
#[verifier::external_body]
pub(crate) fn json_quoted(s: &str) -> (r: String)
    ensures
        r@ == json_string(s@),
{
    serde_json::Value::String(s.to_string()).to_string()
}

/// The member `"key":value`, the value already written as JSON.
pub open spec fn json_member(key: Seq<char>, value: Seq<char>) -> Seq<char> {
    json_string(key) + seq![':'] + value
}

/// Members separated by commas.
pub open spec fn json_members(ms: Seq<Seq<char>>) -> Seq<char>
    decreases ms.len(),
{
    if ms.len() == 0 {
        Seq::empty()
    } else if ms.len() == 1 {
        ms[0]
    } else {
        json_members(ms.drop_last()) + seq![','] + ms.last()
    }
}

/// The object with the members `ms`, in that order.
pub open spec fn json_object(ms: Seq<Seq<char>>) -> Seq<char> {
    seq!['{'] + json_members(ms) + seq!['}']
}

/// Whether `a` comes before `b` in the order of Rust's `String`: the first
/// differing character decides by its code point, and a proper prefix comes
/// first. (UTF-8 keeps the code-point order, so this is also byte order.)
pub open spec fn chars_less(a: Seq<char>, b: Seq<char>) -> bool
    decreases a.len(),
{
    if a.len() == 0 {
        b.len() > 0
    } else if b.len() == 0 {
        false
    } else if a[0] == b[0] {
        chars_less(a.drop_first(), b.drop_first())
    } else {
        (a[0] as u32) < (b[0] as u32)
    }
}

/// The entries `q`, kept in increasing key order, after `e` is inserted as
/// `BTreeMap::insert` does: a key already present gets the new value in its
/// place; any other key goes before the first greater key.
pub open spec fn entry_inserted(q: Seq<(Seq<char>, Seq<char>)>, e: (Seq<char>, Seq<char>)) -> Seq<
    (Seq<char>, Seq<char>),
>
    decreases q.len(),
{
    if q.len() == 0 {
        seq![e]
    } else if q[0].0 == e.0 {
        seq![e] + q.drop_first()
    } else if chars_less(e.0, q[0].0) {
        seq![e] + q
    } else {
        seq![q[0]] + entry_inserted(q.drop_first(), e)
    }
}

/// The map that the entries `ps` make, inserted in order, as its entries in
/// increasing key order.
pub open spec fn map_entries(ps: Seq<(Seq<char>, Seq<char>)>) -> Seq<(Seq<char>, Seq<char>)>
    decreases ps.len(),
{
    if ps.len() == 0 {
        Seq::empty()
    } else {
        entry_inserted(map_entries(ps.drop_last()), ps.last())
    }
}

/// Inserting an entry whose key is new puts it between the entries, in
/// some place `p`, and keeps all the others in order.
proof fn lemma_insert_new_key(q: Seq<(Seq<char>, Seq<char>)>, e: (Seq<char>, Seq<char>)) -> (p: int)
    requires
        forall|i: int| 0 <= i < q.len() ==> #[trigger] q[i].0 != e.0,
    ensures
        0 <= p <= q.len(),
        entry_inserted(q, e) == q.take(p) + seq![e] + q.skip(p),
    decreases q.len(),
{
    if q.len() == 0 {
        assert(q.take(0) + seq![e] + q.skip(0) =~= seq![e]);
        0
    } else if chars_less(e.0, q[0].0) {
        assert(q.take(0) + seq![e] + q.skip(0) =~= seq![e] + q);
        0
    } else {
        let rest = q.drop_first();
        assert forall|i: int| 0 <= i < rest.len() implies #[trigger] rest[i].0 != e.0 by {
            assert(rest[i] == q[i + 1]);
        }
        let p = lemma_insert_new_key(rest, e);
        assert(seq![q[0]] + (rest.take(p) + seq![e] + rest.skip(p)) =~= q.take(p + 1) + seq![e] + q.skip(p + 1));
        p + 1
    }
}

/// A map built from entries whose keys are all different keeps every
/// entry: it holds as many entries as were given, each of them, and each
/// key once.
pub proof fn lemma_map_keeps_every_entry(ps: Seq<(Seq<char>, Seq<char>)>)
    requires
        distinct_keys(ps),
    ensures
        map_entries(ps).len() == ps.len(),
        forall|i: int| 0 <= i < ps.len() ==> map_entries(ps).contains(#[trigger] ps[i]),
        forall|x: (Seq<char>, Seq<char>)| map_entries(ps).contains(x) ==> ps.contains(x),
        distinct_keys(map_entries(ps)),
    decreases ps.len(),
{
    if ps.len() > 0 {
        let init = ps.drop_last();
        let e = ps.last();
        assert(distinct_keys(init)) by {
            assert forall|i: int, j: int| 0 <= i < j < init.len() implies #[trigger] init[i].0 != #[trigger] init[j].0 by {
                assert(init[i] == ps[i] && init[j] == ps[j]);
            }
        }
        lemma_map_keeps_every_entry(init);
        let m = map_entries(init);
        assert forall|i: int| 0 <= i < m.len() implies #[trigger] m[i].0 != e.0 by {
            assert(m.contains(m[i]));
            assert(init.contains(m[i]));
            let k = choose|k: int| 0 <= k < init.len() && init[k] == m[i];
            assert(ps[k] == init[k]);
            assert(ps[ps.len() - 1] == e);
        }
        let p = lemma_insert_new_key(m, e);
        let r = m.take(p) + seq![e] + m.skip(p);
        assert(map_entries(ps) == r);
        assert forall|i: int| 0 <= i < ps.len() implies r.contains(#[trigger] ps[i]) by {
            if i == ps.len() - 1 {
                assert(r[p] == e);
            } else {
                assert(ps[i] == init[i]);
                assert(m.contains(init[i]));
                let k = choose|k: int| 0 <= k < m.len() && m[k] == init[i];
                if k < p {
                    assert(r[k] == m[k]);
                } else {
                    assert(r[k + 1] == m[k]);
                }
            }
        }
        assert forall|x: (Seq<char>, Seq<char>)| r.contains(x) implies ps.contains(x) by {
            let k = choose|k: int| 0 <= k < r.len() && r[k] == x;
            if k == p {
                assert(ps[ps.len() - 1] == x);
            } else {
                let mk = if k < p { k } else { k - 1 };
                assert(r[k] == m[mk]);
                assert(m.contains(m[mk]));
                assert(init.contains(x));
                let j = choose|j: int| 0 <= j < init.len() && init[j] == x;
                assert(ps[j] == x);
            }
        }
        assert forall|i: int, j: int| 0 <= i < j < r.len() implies #[trigger] r[i].0 != #[trigger] r[j].0 by {
            let mi = if i < p { i } else { i - 1 };
            let mj = if j < p { j } else { j - 1 };
            if i == p {
                assert(r[j] == m[mj]);
            } else if j == p {
                assert(r[i] == m[mi]);
            } else {
                assert(r[i] == m[mi] && r[j] == m[mj]);
                assert(mi < mj);
            }
        }
    }
}

/// The JSON object of a map from strings to strings built from the entries
/// `ps`: its keys in increasing order, each with its last value.
pub open spec fn json_string_map(ps: Seq<(Seq<char>, Seq<char>)>) -> Seq<char> {
    json_object(
        map_entries(ps).map_values(|e: (Seq<char>, Seq<char>)| json_member(e.0, json_string(e.1))),
    )
}

/// The member `"key":value`.
pub fn member_text(key: &str, value: &str) -> (r: String)
    ensures
        r@ == json_member(key@, value@),
{
    let mut r = json_quoted(key);
    r.append(":");
    r.append(value);
    proof {
        reveal_strlit(":");
    }
    r
}

/// The texts of `v`, in order.
pub open spec fn texts(v: Seq<String>) -> Seq<Seq<char>> {
    v.map_values(|m: String| m@)
}

/// Appends the member text `m`.
pub fn push_text(members: &mut Vec<String>, m: String)
    ensures
        texts(final(members)@) == texts(old(members)@).push(m@),
{
    members.push(m);
    assert(texts(members@) =~= texts(old(members)@).push(m@));
}

/// The object with the given members, in order.
pub fn object_text(members: &Vec<String>) -> (r: String)
    ensures
        r@ == json_object(members@.map_values(|m: String| m@)),
{
    let ghost ms = members@.map_values(|m: String| m@);
    let mut r = String::from_str("{");
    proof {
        reveal_strlit("{");
        reveal_strlit(",");
        reveal_strlit("}");
    }
    let n = members.len();
    let mut i: usize = 0;
    while i < n
        invariant
            n == members@.len(),
            ms == members@.map_values(|m: String| m@),
            i <= n,
            r@ == seq!['{'] + json_members(ms.take(i as int)),
        decreases n - i,
    {
        let ghost before = r@;
        proof {
            reveal_strlit(",");
        }
        if i > 0 {
            r.append(",");
        }
        r.append(members[i].as_str());
        proof {
            assert(ms[i as int] == members@[i as int]@);
            let t = ms.take(i + 1);
            assert(t.drop_last() =~= ms.take(i as int));
            assert(t.last() == ms[i as int]);
            if i == 0 {
                assert(json_members(ms.take(0)) =~= Seq::<char>::empty());
            }
            assert(r@ =~= seq!['{'] + json_members(t));
        }
        i = i + 1;
    }
    r.append("}");
    proof {
        assert(ms.take(n as int) =~= ms);
    }
    assert(r@ =~= json_object(ms));
    r
}

/// A `serde_json::Map` filled with the entries, each value a JSON string,
/// and displayed. With `preserve_order` off the map is a `BTreeMap`: one
/// entry per key, the value inserted last, keys in `String` order; the
/// object is written compactly, with serde_json's string escapes.
#[verifier::external_body]
pub(crate) fn string_map_text(ps: &Vec<(String, String)>) -> (r: String)
    ensures
        r@ == json_string_map(pairs_view(ps@)),
{
    let mut map = serde_json::Map::new();
    map.extend(ps.iter().map(|(k, v)| (k.clone(), serde_json::Value::String(v.clone()))));
    serde_json::Value::Object(map).to_string()
}

} // verus!
