//! JSON values as plain data, JSON text read by `serde_json`, and the row
//! lists such text holds.

use vstd::prelude::*;
use crate::row_list::{RowItem, items_view, parse_list};
use crate::text::str_eq;

verus! {

/// A JSON value: numbers keep their text and, when they are integers that
/// fit, their `i64` and `u64` values.
pub enum JsonValue {
    Null,
    Bool(bool),
    Number { text: String, integer: Option<i64>, unsigned: Option<u64> },
    Str(String),
    Array(Vec<JsonValue>),
    Object(Vec<(String, JsonValue)>),
}

/// A JSON value over mathematical text.
pub enum JView {
    Null,
    Bool(bool),
    Number(Seq<char>, Option<i64>, Option<u64>),
    Str(Seq<char>),
    Array(Seq<JView>),
    Object(Seq<(Seq<char>, JView)>),
}

/// The mathematical value of a JSON value.
pub open spec fn jview(v: JsonValue) -> JView
    decreases v,
{
    match v {
        JsonValue::Null => JView::Null,
        JsonValue::Bool(b) => JView::Bool(b),
        JsonValue::Number { text, integer, unsigned } => JView::Number(text@, integer, unsigned),
        JsonValue::Str(s) => JView::Str(s@),
        JsonValue::Array(a) => JView::Array(
            Seq::new(
                a@.len(),
                |i: int|
                    if 0 <= i < a@.len() {
                        jview(a@[i])
                    } else {
                        JView::Null
                    },
            ),
        ),
        JsonValue::Object(o) => JView::Object(
            Seq::new(
                o@.len(),
                |i: int|
                    if 0 <= i < o@.len() {
                        (o@[i].0@, jview(o@[i].1))
                    } else {
                        (Seq::empty(), JView::Null)
                    },
            ),
        ),
    }
}

/// The value `serde_json::from_str::<serde_json::Value>` reads from a text,
/// `None` where it reports an error.
pub uninterp spec fn json_parse(text: Seq<char>) -> Option<JView>;

/// The value of the first entry of `o` under `key`, from entry `k` on.
pub open spec fn jget_from(o: Seq<(Seq<char>, JView)>, key: Seq<char>, k: int) -> Option<JView>
    decreases o.len() - k,
{
    if k < 0 || k >= o.len() {
        None
    } else if o[k].0 == key {
        Some(o[k].1)
    } else {
        jget_from(o, key, k + 1)
    }
}

/// The value of an object under `key`.
pub open spec fn jget(o: Seq<(Seq<char>, JView)>, key: Seq<char>) -> Option<JView> {
    jget_from(o, key, 0)
}

/// `j` is the array of objects, one per item, each with the item's word
/// under `word` and its row under `row`.
pub open spec fn holds_rows(j: JView, items: Seq<(Seq<char>, Seq<char>)>) -> bool {
    &&& j matches JView::Array(a)
    &&& a.len() == items.len()
    &&& forall|i: int|
        0 <= i < items.len() ==> (#[trigger] a[i] matches JView::Object(o) && jget(o, "word"@) == Some(
            JView::Str(items[i].0),
        ) && jget(o, "row"@) == Some(JView::Str(items[i].1)))
}

/// The row item a JSON value deserializes to: an object with string
/// `word` and `row` (other keys ignored), or an array of exactly two
/// strings, word then row.
pub open spec fn item_of(j: JView) -> Option<(Seq<char>, Seq<char>)> {
    match j {
        JView::Object(o) => match (jget(o, "word"@), jget(o, "row"@)) {
            (Some(JView::Str(w)), Some(JView::Str(r))) => Some((w, r)),
            _ => None,
        },
        JView::Array(a) => if a.len() == 2 && a[0] is Str && a[1] is Str {
            Some((a[0]->Str_0, a[1]->Str_0))
        } else {
            None
        },
        _ => None,
    }
}

/// The row list a JSON value deserializes to: an array whose every
/// element is a row item.
pub open spec fn rows_of(j: JView) -> Option<Seq<(Seq<char>, Seq<char>)>> {
    match j {
        JView::Array(a) => if forall|i: int| 0 <= i < a.len() ==> (#[trigger] item_of(a[i])) is Some {
            Some(Seq::new(a.len(), |i: int| item_of(a[i])->0))
        } else {
            None
        },
        _ => None,
    }
}

/// The row list a stored text holds, as `serde_json::from_str` reads a
/// `Vec<RowItem>` from it: a text written by `row_list_json` reads back as
/// its items (which serde_json reads from it, see `json_value_parse`), any
/// other text as the value serde_json reads; `None` where it fails.
pub open spec fn read_list(text: Seq<char>) -> Option<Seq<(Seq<char>, Seq<char>)>> {
    match parse_list(text) {
        Some(items) => Some(items),
        None => match json_parse(text) {
            Some(j) => rows_of(j),
            None => None,
        },
    }
}

/// `serde_json::Value`, carried only from the parser to its conversion.
#[verifier::external_type_specification]
#[verifier::external_body]
pub struct ExSerdeJsonValue(serde_json::Value);

/// Converts a `serde_json::Value` into a `JsonValue`, one arm per variant;
/// used only by `json_value_parse`, whose contract states the result.
#[verifier::external_body]
fn json_value_of(v: &serde_json::Value) -> JsonValue {
    match v {
        serde_json::Value::Null => JsonValue::Null,
        serde_json::Value::Bool(b) => JsonValue::Bool(*b),
        serde_json::Value::Number(n) => JsonValue::Number { text: n.to_string(), integer: n.as_i64(), unsigned: n.as_u64() },
        serde_json::Value::String(s) => JsonValue::Str(s.clone()),
        serde_json::Value::Array(a) => JsonValue::Array(a.iter().map(json_value_of).collect()),
        serde_json::Value::Object(o) => JsonValue::Object(o.iter().map(|(k, x)| (k.clone(), json_value_of(x))).collect()),
    }
}

/// `serde_json::from_str::<serde_json::Value>`: the value of a JSON text,
/// `None` where serde_json reports an error.  The result is the name
/// `json_parse` of the text.  Besides, a text that `row_list_json` writes
/// (a JSON array of objects `{"word":…,"row":…}` with JSON string escapes,
/// the texts `parse_list` accepts) reads as that array: serde_json reads
/// back the strings and keys written.  Nothing else is claimed of the value.
#[verifier::external_body]
pub fn json_value_parse(text: &str) -> (r: Option<JsonValue>)
    ensures
        match r {
            Some(v) => json_parse(text@) == Some(jview(v)),
            None => json_parse(text@) is None,
        },
        parse_list(text@) is Some ==> r is Some && holds_rows(jview(r->0), parse_list(text@)->0),
{
    match serde_json::from_str::<serde_json::Value>(text) {
        Ok(v) => Some(json_value_of(&v)),
        Err(_) => None,
    }
}

/// The value of the first entry of `o` under `key`.
fn jget_exec<'a>(o: &'a Vec<(String, JsonValue)>, key: &str) -> (r: Option<&'a JsonValue>)
    ensures
        match r {
            Some(v) => jget(jview(JsonValue::Object(*o))->Object_0, key@) == Some(jview(*v)),
            None => jget(jview(JsonValue::Object(*o))->Object_0, key@) is None,
        },
{
    let ghost ov = jview(JsonValue::Object(*o))->Object_0;
    let mut i: usize = 0;
    while i < o.len()
        invariant
            i <= o@.len(),
            ov == jview(JsonValue::Object(*o))->Object_0,
            ov.len() == o@.len(),
            forall|k: int| 0 <= k < o@.len() ==> #[trigger] ov[k] == (o@[k].0@, jview(o@[k].1)),
            jget(ov, key@) == jget_from(ov, key@, i as int),
        decreases o.len() - i,
    {
        if str_eq(o[i].0.as_str(), key) {
            return Some(&o[i].1);
        }
        i += 1;
    }
    None
}

fn str_value(v: Option<&JsonValue>) -> (r: Option<String>)
    ensures
        match r {
            Some(s) => v matches Some(x) && jview(*x) == JView::Str(s@),
            None => !(v matches Some(x) && jview(*x) is Str),
        },
{
    match v {
        Some(JsonValue::Str(s)) => Some(s.clone()),
        _ => None,
    }
}

/// The row item a JSON value deserializes to (see `item_of`).
pub fn item_from_json(v: &JsonValue) -> (r: Option<RowItem>)
    ensures
        match r {
            Some(it) => item_of(jview(*v)) == Some(it@),
            None => item_of(jview(*v)) is None,
        },
{
    match v {
        JsonValue::Object(o) => {
            let w = str_value(jget_exec(o, "word"));
            let r = str_value(jget_exec(o, "row"));
            proof {
                reveal_strlit("word");
                reveal_strlit("row");
            }
            match (w, r) {
                (Some(w), Some(r)) => Some(RowItem { word: w, row: r }),
                _ => None,
            }
        },
        JsonValue::Array(a) => {
            let ghost av = jview(*v)->Array_0;
            if a.len() == 2 {
                assert(av[0] == jview(a@[0]));
                assert(av[1] == jview(a@[1]));
                match (&a[0], &a[1]) {
                    (JsonValue::Str(w), JsonValue::Str(r)) => Some(RowItem { word: w.clone(), row: r.clone() }),
                    _ => None,
                }
            } else {
                None
            }
        },
        _ => None,
    }
}

/// The row list a JSON value deserializes to (see `rows_of`).
pub fn rows_from_json(v: &JsonValue) -> (r: Option<Vec<RowItem>>)
    ensures
        match r {
            Some(items) => rows_of(jview(*v)) == Some(items_view(items@)),
            None => rows_of(jview(*v)) is None,
        },
{
    match v {
        JsonValue::Array(a) => {
            let ghost av = jview(*v)->Array_0;
            let mut out: Vec<RowItem> = Vec::new();
            let mut i: usize = 0;
            while i < a.len()
                invariant
                    i <= a@.len(),
                    av == jview(*v)->Array_0,
                    av.len() == a@.len(),
                    forall|k: int| 0 <= k < a@.len() ==> #[trigger] av[k] == jview(a@[k]),
                    out@.len() == i,
                    forall|k: int| 0 <= k < i ==> (#[trigger] item_of(av[k])) == Some(out@[k]@),
                decreases a.len() - i,
            {
                match item_from_json(&a[i]) {
                    Some(it) => {
                        out.push(it);
                    },
                    None => {
                        assert(item_of(av[i as int]) is None);
                        return None;
                    },
                }
                i += 1;
            }
            assert(items_view(out@) =~= Seq::new(av.len(), |k: int| item_of(av[k])->0));
            Some(out)
        },
        _ => None,
    }
}

proof fn lemma_holds_rows_read(j: JView, items: Seq<(Seq<char>, Seq<char>)>)
    requires
        holds_rows(j, items),
    ensures
        rows_of(j) == Some(items),
{
    reveal_strlit("word");
    reveal_strlit("row");
    let a = j->Array_0;
    assert forall|i: int| 0 <= i < a.len() implies (#[trigger] item_of(a[i])) == Some(items[i]) by {
        assert(a[i] matches JView::Object(o));
    }
    assert(Seq::new(a.len(), |i: int| item_of(a[i])->0) =~= items);
}

/// The row list a stored text holds, as `serde_json` reads a `Vec<RowItem>`
/// from it; `None` where that fails.
pub fn parse_row_list(text: &str) -> (r: Option<Vec<RowItem>>)
    ensures
        match r {
            Some(v) => read_list(text@) == Some(items_view(v@)),
            None => read_list(text@) is None,
        },
{
    match json_value_parse(text) {
        Some(v) => {
            proof {
                if let Some(items) = parse_list(text@) {
                    lemma_holds_rows_read(jview(v), items);
                }
            }
            rows_from_json(&v)
        },
        None => None,
    }
}

} // verus!
