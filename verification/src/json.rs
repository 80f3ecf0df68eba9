use vstd::prelude::*;

verus! {

/// A JSON document as the library builds it. Text that arrives from callers as JSON
/// (event payloads) is carried as `Raw` and kept verbatim.
pub enum JsonValue {
    Null,
    Bool(bool),
    Int(i64),
    Str(String),
    Arr(Vec<JsonValue>),
    Obj(Vec<(String, JsonValue)>),
    Raw(String),
}

/// The mathematical form of a `JsonValue`.
pub enum JsonV {
    Null,
    Bool(bool),
    Int(int),
    Str(Seq<char>),
    Arr(Seq<JsonV>),
    Obj(Seq<(Seq<char>, JsonV)>),
    Raw(Seq<char>),
}

pub open spec fn json_view(v: JsonValue) -> JsonV
    decreases v, 1int,
{
    match v {
        JsonValue::Null => JsonV::Null,
        JsonValue::Bool(b) => JsonV::Bool(b),
        JsonValue::Int(i) => JsonV::Int(i as int),
        JsonValue::Str(s) => JsonV::Str(s@),
        JsonValue::Arr(items) => JsonV::Arr(json_view_seq(items@)),
        JsonValue::Obj(members) => JsonV::Obj(json_view_members(members@)),
        JsonValue::Raw(s) => JsonV::Raw(s@),
    }
}

pub open spec fn json_view_seq(s: Seq<JsonValue>) -> Seq<JsonV>
    decreases s, 0int,
{
    if s.len() == 0 {
        Seq::empty()
    } else {
        seq![json_view(s[0])] + json_view_seq(s.subrange(1, s.len() as int))
    }
}

pub open spec fn json_view_members(s: Seq<(String, JsonValue)>) -> Seq<(Seq<char>, JsonV)>
    decreases s, 0int,
{
    if s.len() == 0 {
        Seq::empty()
    } else {
        seq![(s[0].0@, json_view(s[0].1))] + json_view_members(s.subrange(1, s.len() as int))
    }
}

pub proof fn lemma_json_view_seq(s: Seq<JsonValue>)
    ensures
        json_view_seq(s).len() == s.len(),
        forall|i: int| 0 <= i < s.len() ==> (#[trigger] json_view_seq(s)[i]) == json_view(s[i]),
    decreases s.len(),
{
    if s.len() > 0 {
        let rest = s.subrange(1, s.len() as int);
        lemma_json_view_seq(rest);
        assert forall|i: int| 0 <= i < s.len() implies (#[trigger] json_view_seq(s)[i]) == json_view(
            s[i],
        ) by {
            if i > 0 {
                assert(rest[i - 1] == s[i]);
            }
        }
    }
}

pub proof fn lemma_json_view_members(s: Seq<(String, JsonValue)>)
    ensures
        json_view_members(s).len() == s.len(),
        forall|i: int|
            0 <= i < s.len() ==> (#[trigger] json_view_members(s)[i]) == (s[i].0@, json_view(
                s[i].1,
            )),
    decreases s.len(),
{
    if s.len() > 0 {
        let rest = s.subrange(1, s.len() as int);
        lemma_json_view_members(rest);
        assert forall|i: int| 0 <= i < s.len() implies (#[trigger] json_view_members(s)[i]) == (
        s[i].0@, json_view(s[i].1)) by {
            if i > 0 {
                assert(rest[i - 1] == s[i]);
            }
        }
    }
}

/// A JSON string.
pub fn jstr(s: &str) -> (r: JsonValue)
    ensures
        r@ == JsonV::Str(s@),
{
    JsonValue::Str(s.to_owned())
}

/// The JSON form of an optional string: the string, or null.
pub open spec fn jopt_spec(o: Option<Seq<char>>) -> JsonV {
    match o {
        Some(s) => JsonV::Str(s),
        None => JsonV::Null,
    }
}

/// A JSON string, or null.
pub fn jopt(o: &Option<String>) -> (r: JsonValue)
    ensures
        r@ == jopt_spec(crate::text::opt_view(*o)),
{
    match o {
        Some(s) => JsonValue::Str(s.clone()),
        None => JsonValue::Null,
    }
}

/// A JSON integer.
pub fn jint(i: i64) -> (r: JsonValue)
    ensures
        r@ == JsonV::Int(i as int),
{
    JsonValue::Int(i)
}

/// An object member.
pub fn member(key: &str, value: JsonValue) -> (r: (String, JsonValue))
    ensures
        r.0@ == key@,
        r.1 == value,
{
    (key.to_owned(), value)
}

impl View for JsonValue {
    type V = JsonV;

    open spec fn view(&self) -> JsonV {
        json_view(*self)
    }
}

} // verus!

verus! {

/// serde_json: whether `text` parses as a JSON document.
pub uninterp spec fn json_parses(text: Seq<char>) -> bool;

/// serde_json: the string stored under `key` at the top level of the document `text`, if the
/// text parses, is an object, and holds a string there.
pub uninterp spec fn json_top_level_string(text: Seq<char>, key: Seq<char>) -> Option<Seq<char>>;

/// serde_json: the `Display` text of the error that `from_str::<Value>` gives for `text`.
pub uninterp spec fn json_error_message(text: Seq<char>) -> Seq<char>;

/// `serde_json::from_str::<Value>(text)`: nothing when the text parses, else the `Display`
/// text of the error serde_json reports for it.
#[verifier::external_body]
pub fn json_parse_error(text: &str) -> (r: Option<String>)
    ensures
        r is None <==> json_parses(text@),
        r matches Some(m) ==> m@ == json_error_message(text@),
{
    serde_json::from_str::<serde_json::Value>(text).err().map(|error| error.to_string())
}

/// `serde_json::from_str::<Value>(text)`, then `.get(key)` and `.as_str()` on the result.
/// A text that does not parse has no fields.
#[verifier::external_body]
pub fn json_text_get_str(text: &str, key: &str) -> (r: Option<String>)
    ensures
        crate::text::opt_view(r) == json_top_level_string(text@, key@),
        !json_parses(text@) ==> r is None,
{
    let value: serde_json::Value = match serde_json::from_str(text) {
        Ok(v) => v,
        Err(_) => return None,
    };
    value.get(key).and_then(serde_json::Value::as_str).map(str::to_owned)
}

/// The decimal text of an integer.
pub open spec fn int_text(i: int) -> Seq<char> {
    if i < 0 {
        "-"@ + crate::clock::decimal((-i) as nat)
    } else {
        crate::clock::decimal(i as nat)
    }
}

/// The lowercase hexadecimal digit of a value below 16.
pub open spec fn hex_digit(d: int) -> char {
    seq!['0', '1', '2', '3', '4', '5', '6', '7', '8', '9', 'a', 'b', 'c', 'd', 'e', 'f'][d]
}

/// How a character is written inside a JSON string: quote and backslash are escaped, the
/// control characters below U+0020 get their short escape or `\u00XX`, everything else is
/// written as it is.
pub open spec fn escaped_char(c: char) -> Seq<char> {
    if c == '"' {
        seq!['\\', '"']
    } else if c == '\\' {
        seq!['\\', '\\']
    } else if c == '\u{8}' {
        seq!['\\', 'b']
    } else if c == '\t' {
        seq!['\\', 't']
    } else if c == '\n' {
        seq!['\\', 'n']
    } else if c == '\u{c}' {
        seq!['\\', 'f']
    } else if c == '\r' {
        seq!['\\', 'r']
    } else if (c as u32) < 0x20 {
        seq!['\\', 'u', '0', '0', hex_digit((c as u32) as int / 16), hex_digit((c as u32) as int % 16)]
    } else {
        seq![c]
    }
}

/// The characters of a text, each escaped for a JSON string.
pub open spec fn escaped_text(s: Seq<char>) -> Seq<char>
    decreases s.len(),
{
    if s.len() == 0 {
        Seq::empty()
    } else {
        escaped_text(s.drop_last()) + escaped_char(s.last())
    }
}

/// The JSON string literal that encodes `s`: the escaped text between double quotes.
pub open spec fn json_string_literal(s: Seq<char>) -> Seq<char> {
    seq!['"'] + escaped_text(s) + seq!['"']
}

/// The compact JSON text of a document: no whitespace, object members ordered by key with
/// each key once (the last value given for it), strings escaped, raw text kept verbatim.
pub open spec fn json_text(v: JsonV) -> Seq<char>
    decreases v, 1int,
{
    match v {
        JsonV::Null => "null"@,
        JsonV::Bool(b) => if b {
            "true"@
        } else {
            "false"@
        },
        JsonV::Int(i) => int_text(i),
        JsonV::Str(s) => json_string_literal(s),
        JsonV::Arr(items) => "["@ + json_items_text(items) + "]"@,
        JsonV::Obj(members) => "{"@ + pairs_text(keyed_texts(member_texts(members))) + "}"@,
        JsonV::Raw(s) => s,
    }
}

/// The texts of array items, separated by commas.
pub open spec fn json_items_text(items: Seq<JsonV>) -> Seq<char>
    decreases items, 0int,
{
    if items.len() == 0 {
        Seq::empty()
    } else if items.len() == 1 {
        json_text(items[0])
    } else {
        json_items_text(items.subrange(0, items.len() - 1)) + ","@ + json_text(
            items[items.len() - 1],
        )
    }
}

/// Each member's key with the text of its value, in the order they are held.
pub open spec fn member_texts(members: Seq<(Seq<char>, JsonV)>) -> Seq<(Seq<char>, Seq<char>)>
    decreases members, 0int,
{
    if members.len() == 0 {
        Seq::empty()
    } else {
        member_texts(members.subrange(0, members.len() - 1)).push(
            (members[members.len() - 1].0, json_text(members[members.len() - 1].1)),
        )
    }
}

/// Puts a keyed text into a list ordered by key: a key already there takes the new text in
/// its place, a new key goes before the first greater one.
pub open spec fn insert_keyed(
    sorted: Seq<(Seq<char>, Seq<char>)>,
    m: (Seq<char>, Seq<char>),
) -> Seq<(Seq<char>, Seq<char>)>
    decreases sorted.len(),
{
    if sorted.len() == 0 {
        seq![m]
    } else if sorted[0].0 == m.0 {
        seq![m] + sorted.drop_first()
    } else if crate::text::seq_lt(m.0, sorted[0].0) {
        seq![m] + sorted
    } else {
        seq![sorted[0]] + insert_keyed(sorted.drop_first(), m)
    }
}

/// Keyed texts gathered as a map from key to text: ordered by key, each key once, holding
/// the last text given for it.
pub open spec fn keyed_texts(ms: Seq<(Seq<char>, Seq<char>)>) -> Seq<(Seq<char>, Seq<char>)>
    decreases ms.len(),
{
    if ms.len() == 0 {
        Seq::empty()
    } else {
        insert_keyed(keyed_texts(ms.drop_last()), ms.last())
    }
}

/// Object members written as `"key":value`, separated by commas.
pub open spec fn pairs_text(ps: Seq<(Seq<char>, Seq<char>)>) -> Seq<char>
    decreases ps.len(),
{
    if ps.len() == 0 {
        Seq::empty()
    } else if ps.len() == 1 {
        json_string_literal(ps[0].0) + ":"@ + ps[0].1
    } else {
        pairs_text(ps.drop_last()) + ","@ + json_string_literal(ps.last().0) + ":"@ + ps.last().1
    }
}

/// The hexadecimal digit of a value below 16.
fn hex_digit_text(d: u32) -> (r: &'static str)
    requires
        d < 16,
    ensures
        r@ == seq![hex_digit(d as int)],
{
    let digits = "0123456789abcdef";
    proof {
        reveal_strlit("0123456789abcdef");
    }
    digits.substring_char(d as usize, d as usize + 1)
}

/// Writes a text as a JSON string literal.
pub fn json_quote(s: &str) -> (r: String)
    ensures
        r@ == json_string_literal(s@),
{
    let n = s.unicode_len();
    let mut out = String::new();
    let mut i: usize = 0;
    while i < n
        invariant
            n == s@.len(),
            i <= n,
            out@ == escaped_text(s@.take(i as int)),
        decreases n - i,
    {
        let c = s.get_char(i);
        proof {
            assert(s@.take(i + 1).drop_last() =~= s@.take(i as int));
            assert(s@.take(i + 1).last() == c);
            reveal_strlit("\\\"");
            reveal_strlit("\\\\");
            reveal_strlit("\\b");
            reveal_strlit("\\t");
            reveal_strlit("\\n");
            reveal_strlit("\\f");
            reveal_strlit("\\r");
            reveal_strlit("\\u00");
        }
        let code = c as u32;
        if c == '"' {
            out.append("\\\"");
        } else if c == '\\' {
            out.append("\\\\");
        } else if code == 8 {
            out.append("\\b");
        } else if c == '\t' {
            out.append("\\t");
        } else if c == '\n' {
            out.append("\\n");
        } else if code == 12 {
            out.append("\\f");
        } else if c == '\r' {
            out.append("\\r");
        } else if code < 32 {
            out.append("\\u00");
            out.append(hex_digit_text(code / 16));
            out.append(hex_digit_text(code % 16));
        } else {
            out.append(s.substring_char(i, i + 1));
            proof {
                assert(s@.subrange(i as int, i + 1) =~= seq![c]);
            }
        }
        proof {
            assert(out@ =~= escaped_text(s@.take(i + 1)));
        }
        i += 1;
    }
    proof {
        assert(s@.take(n as int) =~= s@);
    }
    let r = crate::text::cat3("\"", out.as_str(), "\"");
    proof {
        reveal_strlit("\"");
    }
    r
}

fn int_to_text(i: i64) -> (r: String)
    ensures
        r@ == int_text(i as int),
{
    if i < 0 {
        let wide: i128 = i as i128;
        let u: u64 = (-wide) as u64;
        let digits = crate::clock::u64_decimal(u);
        crate::text::cat("-", digits.as_str())
    } else {
        crate::clock::u64_decimal(i as u64)
    }
}

/// Writes a document as compact JSON text.
#[verifier::loop_isolation(false)]
pub fn to_json_text(v: &JsonValue) -> (r: String)
    ensures
        r@ == json_text(v@),
    decreases v,
{
    match v {
        JsonValue::Null => "null".to_owned(),
        JsonValue::Bool(b) => if *b {
            "true".to_owned()
        } else {
            "false".to_owned()
        },
        JsonValue::Int(i) => int_to_text(*i),
        JsonValue::Str(s) => json_quote(s.as_str()),
        JsonValue::Raw(s) => s.clone(),
        JsonValue::Arr(items) => {
            let ghost vs = json_view_seq(items@);
            proof {
                lemma_json_view_seq(items@);
            }
            let mut body = String::new();
            let mut i: usize = 0;
            while i < items.len()
                invariant
                    i <= items@.len(),
                    vs == json_view_seq(items@),
                    vs.len() == items@.len(),
                    forall|k: int| 0 <= k < items@.len() ==> (#[trigger] vs[k]) == json_view(items@[k]),
                    body@ == json_items_text(vs.subrange(0, i as int)),
                decreases items@.len() - i,
            {
                proof {
                    assert(decreases_to!(*v => v->Arr_0));
                    assert(decreases_to!(*items => items@));
                    assert(decreases_to!(items@ => items@[i as int]));
                }
                let t = to_json_text(&items[i]);
                proof {
                    let pre = vs.subrange(0, i as int);
                    let next = vs.subrange(0, i + 1);
                    assert(next.subrange(0, i as int) =~= pre);
                    assert(next[i as int] == vs[i as int]);
                }
                if i == 0 {
                    body = t;
                } else {
                    body.append(",");
                    body.append(t.as_str());
                }
                proof {
                    reveal_strlit(",");
                    let next = vs.subrange(0, i + 1);
                    if i == 0 {
                        assert(body@ =~= json_items_text(next));
                    } else {
                        assert(body@ =~= json_items_text(next));
                    }
                }
                i += 1;
            }
            proof {
                assert(vs.subrange(0, vs.len() as int) =~= vs);
            }
            let r = crate::text::cat3("[", body.as_str(), "]");
            r
        },
        JsonValue::Obj(members) => {
            let ghost ms = json_view_members(members@);
            proof {
                lemma_json_view_members(members@);
                assert(ms.subrange(0, 0) =~= Seq::<(Seq<char>, JsonV)>::empty());
            }
            let mut sorted: Vec<(String, String)> = Vec::new();
            let mut i: usize = 0;
            while i < members.len()
                invariant
                    i <= members@.len(),
                    ms == json_view_members(members@),
                    ms.len() == members@.len(),
                    forall|k: int|
                        0 <= k < members@.len() ==> (#[trigger] ms[k]) == (members@[k].0@, json_view(
                            members@[k].1,
                        )),
                    pair_views(sorted@) == keyed_texts(member_texts(ms.subrange(0, i as int))),
                decreases members@.len() - i,
            {
                proof {
                    assert(decreases_to!(*v => v->Obj_0));
                    assert(decreases_to!(*members => members@));
                    assert(decreases_to!(members@ => members@[i as int]));
                    assert(decreases_to!(members@[i as int] => members@[i as int].1));
                }
                let val = to_json_text(&members[i].1);
                let key = members[i].0.clone();
                proof {
                    let pre = ms.subrange(0, i as int);
                    let next = ms.subrange(0, i + 1);
                    assert(next.subrange(0, i as int) =~= pre);
                    assert(next[i as int] == ms[i as int]);
                    let mt = member_texts(pre);
                    assert(member_texts(next) == mt.push((ms[i as int].0, json_text(ms[i as int].1))));
                    assert(mt.push((ms[i as int].0, json_text(ms[i as int].1))).drop_last() =~= mt);
                }
                insert_keyed_exec(&mut sorted, (key, val));
                i += 1;
            }
            proof {
                assert(ms.subrange(0, ms.len() as int) =~= ms);
            }
            let ghost ps = pair_views(sorted@);
            let mut body = String::new();
            let mut j: usize = 0;
            while j < sorted.len()
                invariant
                    j <= sorted@.len(),
                    ps == pair_views(sorted@),
                    body@ == pairs_text(ps.take(j as int)),
                decreases sorted@.len() - j,
            {
                let key = json_quote(sorted[j].0.as_str());
                proof {
                    assert(ps.take(j + 1).drop_last() =~= ps.take(j as int));
                    assert(ps.take(j + 1).last() == ps[j as int]);
                    assert(ps[j as int] == (sorted@[j as int].0@, sorted@[j as int].1@));
                    reveal_strlit(",");
                    reveal_strlit(":");
                }
                if j > 0 {
                    body.append(",");
                }
                body.append(key.as_str());
                body.append(":");
                body.append(sorted[j].1.as_str());
                proof {
                    if j == 0 {
                        assert(ps.take(1) =~= seq![ps[0]]);
                    }
                    assert(body@ =~= pairs_text(ps.take(j + 1)));
                }
                j += 1;
            }
            proof {
                assert(ps.take(ps.len() as int) =~= ps);
            }
            crate::text::cat3("{", body.as_str(), "}")
        },
    }
}

/// The views of keyed texts.
pub open spec fn pair_views(v: Seq<(String, String)>) -> Seq<(Seq<char>, Seq<char>)> {
    v.map_values(|p: (String, String)| (p.0@, p.1@))
}

/// Inserting past keys that are all smaller leaves them in front.
proof fn lemma_insert_keyed_walk(s: Seq<(Seq<char>, Seq<char>)>, m: (Seq<char>, Seq<char>), i: int)
    requires
        0 <= i <= s.len(),
        forall|j: int| 0 <= j < i ==> crate::text::seq_lt(#[trigger] s[j].0, m.0),
    ensures
        insert_keyed(s, m) == s.take(i) + insert_keyed(s.skip(i), m),
    decreases i,
{
    if i == 0 {
        assert(s.take(0) + s.skip(0) =~= s);
        assert(s.take(0) + insert_keyed(s.skip(0), m) =~= insert_keyed(s, m));
    } else {
        crate::text::lemma_seq_lt_irreflexive(m.0);
        crate::text::lemma_seq_lt_asymmetric(s[0].0, m.0);
        let t = s.drop_first();
        assert forall|j: int| 0 <= j < i - 1 implies crate::text::seq_lt(#[trigger] t[j].0, m.0) by {
            assert(t[j] == s[j + 1]);
        }
        lemma_insert_keyed_walk(t, m, i - 1);
        assert(t.skip(i - 1) =~= s.skip(i));
        assert(seq![s[0]] + t.take(i - 1) =~= s.take(i));
        assert(seq![s[0]] + (t.take(i - 1) + insert_keyed(s.skip(i), m)) =~= s.take(i)
            + insert_keyed(s.skip(i), m));
    }
}

/// Puts a keyed text into a list ordered by key, as `insert_keyed` says.
fn insert_keyed_exec(sorted: &mut Vec<(String, String)>, m: (String, String))
    ensures
        pair_views(final(sorted)@) == insert_keyed(pair_views(old(sorted)@), (m.0@, m.1@)),
{
    let ghost s = pair_views(sorted@);
    let ghost mv = (m.0@, m.1@);
    let mut i: usize = 0;
    while i < sorted.len() && crate::text::str_lt(sorted[i].0.as_str(), m.0.as_str())
        invariant
            i <= sorted@.len(),
            s == pair_views(sorted@),
            sorted@ == old(sorted)@,
            mv == (m.0@, m.1@),
            forall|j: int| 0 <= j < i ==> crate::text::seq_lt(#[trigger] s[j].0, mv.0),
        decreases sorted@.len() - i,
    {
        i += 1;
    }
    proof {
        lemma_insert_keyed_walk(s, mv, i as int);
    }
    if i < sorted.len() && crate::text::str_eq(sorted[i].0.as_str(), m.0.as_str()) {
        sorted.set(i, m);
        proof {
            let t = s.skip(i as int);
            assert(t[0] == s[i as int]);
            assert(insert_keyed(t, mv) == seq![mv] + t.drop_first());
            assert(pair_views(sorted@) =~= s.take(i as int) + (seq![mv] + t.drop_first()));
        }
    } else {
        sorted.insert(i, m);
        proof {
            let t = s.skip(i as int);
            if i < s.len() {
                assert(t[0] == s[i as int]);
                crate::text::lemma_seq_lt_total(s[i as int].0, mv.0);
                assert(insert_keyed(t, mv) == seq![mv] + t);
            } else {
                assert(t =~= Seq::<(Seq<char>, Seq<char>)>::empty());
            }
            assert(pair_views(sorted@) =~= s.take(i as int) + (seq![mv] + t));
        }
    }
}

/// The value held under `key` by an object: that of its first member with the key.
pub open spec fn member_value(members: Seq<(Seq<char>, JsonV)>, key: Seq<char>) -> Option<JsonV>
    decreases members.len(),
{
    if members.len() == 0 {
        None
    } else if members[0].0 == key {
        Some(members[0].1)
    } else {
        member_value(members.drop_first(), key)
    }
}

/// `value.get(key)` on a document: the member's value for an object, nothing otherwise.
pub open spec fn json_get(v: JsonV, key: Seq<char>) -> Option<JsonV> {
    match v {
        JsonV::Obj(members) => member_value(members, key),
        _ => None,
    }
}

/// `value.get(key).and_then(Value::as_str)`.
pub open spec fn json_get_str(v: JsonV, key: Seq<char>) -> Option<Seq<char>> {
    match json_get(v, key) {
        Some(JsonV::Str(s)) => Some(s),
        _ => None,
    }
}

impl JsonValue {
    /// The value under `key`, when this is an object that has it.
    #[verifier::loop_isolation(false)]
    pub fn get(&self, key: &str) -> (r: Option<&JsonValue>)
        ensures
            match r {
                Some(x) => json_get(self@, key@) == Some(x@),
                None => json_get(self@, key@) is None,
            },
    {
        match self {
            JsonValue::Obj(members) => {
                let ghost ms = json_view_members(members@);
                proof {
                    lemma_json_view_members(members@);
                    assert(ms.skip(0) =~= ms);
                }
                let mut i: usize = 0;
                while i < members.len()
                    invariant
                        i <= members@.len(),
                        ms == json_view_members(members@),
                        ms.len() == members@.len(),
                        forall|k: int|
                            0 <= k < members@.len() ==> (#[trigger] ms[k]) == (
                                members@[k].0@,
                                json_view(members@[k].1),
                            ),
                        member_value(ms.skip(i as int), key@) == member_value(ms, key@),
                    decreases members@.len() - i,
                {
                    proof {
                        assert(ms.skip(i as int).drop_first() =~= ms.skip(i + 1));
                        assert(ms.skip(i as int)[0] == ms[i as int]);
                    }
                    if crate::text::str_eq(members[i].0.as_str(), key) {
                        return Some(&members[i].1);
                    }
                    i += 1;
                }
                proof {
                    assert(ms.skip(ms.len() as int) =~= Seq::<(Seq<char>, JsonV)>::empty());
                }
                None
            },
            _ => None,
        }
    }

    /// The text, when this is a string.
    pub fn as_str(&self) -> (r: Option<&str>)
        ensures
            match r {
                Some(s) => self@ == JsonV::Str(s@),
                None => !(self@ is Str),
            },
    {
        match self {
            JsonValue::Str(s) => Some(s.as_str()),
            _ => None,
        }
    }

    /// The integer, when this is one.
    pub fn as_i64(&self) -> (r: Option<i64>)
        ensures
            match r {
                Some(i) => self@ == JsonV::Int(i as int),
                None => !(self@ is Int),
            },
    {
        match self {
            JsonValue::Int(i) => Some(*i),
            _ => None,
        }
    }

    /// The integer, when this is a non-negative one.
    pub fn as_u64(&self) -> (r: Option<u64>)
        ensures
            match r {
                Some(u) => self@ == JsonV::Int(u as int),
                None => !(self@ matches JsonV::Int(i) && i >= 0),
            },
    {
        match self {
            JsonValue::Int(i) => if *i >= 0 {
                Some(*i as u64)
            } else {
                None
            },
            _ => None,
        }
    }

    /// The items, when this is an array.
    pub fn as_array(&self) -> (r: Option<&Vec<JsonValue>>)
        ensures
            match r {
                Some(items) => self@ == JsonV::Arr(json_view_seq(items@)),
                None => !(self@ is Arr),
            },
    {
        match self {
            JsonValue::Arr(items) => Some(items),
            _ => None,
        }
    }
}

} // verus!
